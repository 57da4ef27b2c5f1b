//! Questions to the runtime: what is asked, under which tag, and which are outstanding.

use vstd::prelude::*;

use crate::json::{Json, Member, JsonView};
use crate::model::Plane;
use crate::text::{agree, copy_text, said, same};

verus! {

#[derive(Debug, Clone, Copy, PartialEq, Eq, Structural, Hash)]
pub enum ComposerVerb {
    Message,
    FollowUp,
    Steer,
}

impl ComposerVerb {
    pub open spec fn name(self) -> Seq<char> {
        match self {
            ComposerVerb::Message => "message"@,
            ComposerVerb::FollowUp => "follow-up"@,
            ComposerVerb::Steer => "steer"@,
        }
    }

    pub fn title(self) -> (r: &'static str)
        ensures
            r@ == self.name(),
    {
        match self {
            ComposerVerb::Message => "message",
            ComposerVerb::FollowUp => "follow-up",
            ComposerVerb::Steer => "steer",
        }
    }

    /// The verb a composer's text is sent by.
    pub open spec fn verb(self) -> Seq<char> {
        match self {
            ComposerVerb::Message => "send_message"@,
            ComposerVerb::FollowUp => "follow_up"@,
            ComposerVerb::Steer => "steer"@,
        }
    }

    pub fn method(self) -> (r: &'static str)
        ensures
            r@ == self.verb(),
    {
        match self {
            ComposerVerb::Message => "send_message",
            ComposerVerb::FollowUp => "follow_up",
            ComposerVerb::Steer => "steer",
        }
    }
}

/// What an answer is an answer to, and the key by which a question is outstanding: one request at a
/// time for each tag, so that a slow runtime cannot be asked the same thing twice.
#[allow(inconsistent_fields)]
#[derive(Debug)]
pub enum Tag {
    Account,
    AccountLogin,
    AccountCancel,
    AccountLogout,
    Status,
    Providers,
    Models,
    Sessions { plane: Plane },
    Agents,
    AgentState { id: String },
    Teams,
    TeamState { id: String },
    Plans,
    Plan { id: String },
    ControlRuns,
    ControlRun { id: String },
    UpgradeStatus,
    Rollouts,
    History { module: String },
    Signing,
    Grants { principal: String },
    Inventory,
    FleetStatus,
    /// The single repair: a subscription after a reconnect or a first open, a replay after a lag or
    /// a pruned cursor. `cursor` is the one the request carried: the answer is an answer to that
    /// question, wherever the watch has got to since.
    Resync { plane: Plane, id: String, cursor: u64, subscribe: bool },
    /// A verb that changes the runtime. The label is what a failure names.
    Action { label: &'static str, plane: Plane, id: String, turn_id: Option<String> },
    /// A turn sent from a composer, with what it takes to put the draft back.
    ComposerAction { label: &'static str, verb: ComposerVerb, plane: Plane, id: String, turn_id: Option<String>, input: String, reconciling: bool, submission_sequence: u64 },
    Compact { plane: Plane, id: String },
    Handoff { plane: Plane, id: String, child: String },
    Context { plane: Plane, id: String, show: bool },
    RewindPoints { plane: Plane, id: String },
    Rewind { plane: Plane, id: String, label: String, what: String },
    Shell { plane: Plane, id: String, command: String },
    Delegate { plane: Plane, id: String },
    Delegations { plane: Plane, id: String, show: bool },
    Artifact { sha: String },
    ControlSubmit,
    ControlCancel { id: String },
    EventDetail { plane: Plane, id: String, sequence: u64 },
    PermissionRule { pattern: String },
    /// One approval response, keyed by the request so that parallel prompts stay apart.
    Approval { plane: Plane, id: String, request_id: String },
    /// A plan exit, answered by the word of a choice.
    PlanExit { plane: Plane, id: String, request_id: String, choice: String, had_follow_up: bool },
    PlanMode { plane: Plane, id: String, want: bool },
    /// A file-access posture, and how it reads.
    SandboxMode { plane: Plane, id: String, label: String, meaning: String, warns: bool },
    McpList { node: Option<String> },
    /// A session start, under the id it was asked for where it was asked for one.
    Start { plane: Plane, id: Option<String> },
    /// The first message of a session this client just started.
    FirstMessage { plane: Plane, id: String, turn_id: String, input: String, submission_sequence: u64 },
}

/// A tag by what it says.
#[allow(inconsistent_fields)]
pub enum TagView {
    Account,
    AccountLogin,
    AccountCancel,
    AccountLogout,
    Status,
    Providers,
    Models,
    Sessions { plane: Plane },
    Agents,
    AgentState { id: Seq<char> },
    Teams,
    TeamState { id: Seq<char> },
    Plans,
    Plan { id: Seq<char> },
    ControlRuns,
    ControlRun { id: Seq<char> },
    UpgradeStatus,
    Rollouts,
    History { module: Seq<char> },
    Signing,
    Grants { principal: Seq<char> },
    Inventory,
    FleetStatus,
    Resync { plane: Plane, id: Seq<char>, cursor: u64, subscribe: bool },
    Action { label: Seq<char>, plane: Plane, id: Seq<char>, turn_id: Option<Seq<char>> },
    ComposerAction { label: Seq<char>, verb: ComposerVerb, plane: Plane, id: Seq<char>, turn_id: Option<Seq<char>>, input: Seq<char>, reconciling: bool, submission_sequence: u64 },
    Compact { plane: Plane, id: Seq<char> },
    Handoff { plane: Plane, id: Seq<char>, child: Seq<char> },
    Context { plane: Plane, id: Seq<char>, show: bool },
    RewindPoints { plane: Plane, id: Seq<char> },
    Rewind { plane: Plane, id: Seq<char>, label: Seq<char>, what: Seq<char> },
    Shell { plane: Plane, id: Seq<char>, command: Seq<char> },
    Delegate { plane: Plane, id: Seq<char> },
    Delegations { plane: Plane, id: Seq<char>, show: bool },
    Artifact { sha: Seq<char> },
    ControlSubmit,
    ControlCancel { id: Seq<char> },
    EventDetail { plane: Plane, id: Seq<char>, sequence: u64 },
    PermissionRule { pattern: Seq<char> },
    Approval { plane: Plane, id: Seq<char>, request_id: Seq<char> },
    PlanExit { plane: Plane, id: Seq<char>, request_id: Seq<char>, choice: Seq<char>, had_follow_up: bool },
    PlanMode { plane: Plane, id: Seq<char>, want: bool },
    SandboxMode { plane: Plane, id: Seq<char>, label: Seq<char>, meaning: Seq<char>, warns: bool },
    McpList { node: Option<Seq<char>> },
    Start { plane: Plane, id: Option<Seq<char>> },
    FirstMessage { plane: Plane, id: Seq<char>, turn_id: Seq<char>, input: Seq<char>, submission_sequence: u64 },
}

impl Tag {
    pub open spec fn view(&self) -> TagView {
        match *self {
            Tag::Account => TagView::Account,
            Tag::AccountLogin => TagView::AccountLogin,
            Tag::AccountCancel => TagView::AccountCancel,
            Tag::AccountLogout => TagView::AccountLogout,
            Tag::Status => TagView::Status,
            Tag::Providers => TagView::Providers,
            Tag::Models => TagView::Models,
            Tag::Sessions { plane } => TagView::Sessions { plane },
            Tag::Agents => TagView::Agents,
            Tag::AgentState { id } => TagView::AgentState { id: id@ },
            Tag::Teams => TagView::Teams,
            Tag::TeamState { id } => TagView::TeamState { id: id@ },
            Tag::Plans => TagView::Plans,
            Tag::Plan { id } => TagView::Plan { id: id@ },
            Tag::ControlRuns => TagView::ControlRuns,
            Tag::ControlRun { id } => TagView::ControlRun { id: id@ },
            Tag::UpgradeStatus => TagView::UpgradeStatus,
            Tag::Rollouts => TagView::Rollouts,
            Tag::History { module } => TagView::History { module: module@ },
            Tag::Signing => TagView::Signing,
            Tag::Grants { principal } => TagView::Grants { principal: principal@ },
            Tag::Inventory => TagView::Inventory,
            Tag::FleetStatus => TagView::FleetStatus,
            Tag::Resync { plane, id, cursor, subscribe } => TagView::Resync { plane, id: id@, cursor, subscribe },
            Tag::Action { label, plane, id, turn_id } => TagView::Action { label: label@, plane, id: id@, turn_id: said(turn_id) },
            Tag::ComposerAction { label, verb, plane, id, turn_id, input, reconciling, submission_sequence } => TagView::ComposerAction { label: label@, verb, plane, id: id@, turn_id: said(turn_id), input: input@, reconciling, submission_sequence },
            Tag::Compact { plane, id } => TagView::Compact { plane, id: id@ },
            Tag::Handoff { plane, id, child } => TagView::Handoff { plane, id: id@, child: child@ },
            Tag::Context { plane, id, show } => TagView::Context { plane, id: id@, show },
            Tag::RewindPoints { plane, id } => TagView::RewindPoints { plane, id: id@ },
            Tag::Rewind { plane, id, label, what } => TagView::Rewind { plane, id: id@, label: label@, what: what@ },
            Tag::Shell { plane, id, command } => TagView::Shell { plane, id: id@, command: command@ },
            Tag::Delegate { plane, id } => TagView::Delegate { plane, id: id@ },
            Tag::Delegations { plane, id, show } => TagView::Delegations { plane, id: id@, show },
            Tag::Artifact { sha } => TagView::Artifact { sha: sha@ },
            Tag::ControlSubmit => TagView::ControlSubmit,
            Tag::ControlCancel { id } => TagView::ControlCancel { id: id@ },
            Tag::EventDetail { plane, id, sequence } => TagView::EventDetail { plane, id: id@, sequence },
            Tag::PermissionRule { pattern } => TagView::PermissionRule { pattern: pattern@ },
            Tag::Approval { plane, id, request_id } => TagView::Approval { plane, id: id@, request_id: request_id@ },
            Tag::PlanExit { plane, id, request_id, choice, had_follow_up } => TagView::PlanExit { plane, id: id@, request_id: request_id@, choice: choice@, had_follow_up },
            Tag::PlanMode { plane, id, want } => TagView::PlanMode { plane, id: id@, want },
            Tag::SandboxMode { plane, id, label, meaning, warns } => TagView::SandboxMode { plane, id: id@, label: label@, meaning: meaning@, warns },
            Tag::McpList { node } => TagView::McpList { node: said(node) },
            Tag::Start { plane, id } => TagView::Start { plane, id: said(id) },
            Tag::FirstMessage { plane, id, turn_id, input, submission_sequence } => TagView::FirstMessage { plane, id: id@, turn_id: turn_id@, input: input@, submission_sequence },
        }
    }

    /// The question is about a panel as a whole.
    pub open spec fn about_panel(&self) -> bool {
        match *self {
            Tag::Account
            | Tag::AccountLogin
            | Tag::AccountCancel
            | Tag::AccountLogout
            | Tag::Status
            | Tag::Providers
            | Tag::Models
            | Tag::Agents
            | Tag::Teams
            | Tag::Plans
            | Tag::ControlRuns
            | Tag::UpgradeStatus
            | Tag::Rollouts
            | Tag::Signing
            | Tag::Inventory
            | Tag::FleetStatus
            | Tag::ControlSubmit => true,
            _ => false,
        }
    }

    #[verifier::rlimit(30)]
    fn matches_panel(&self, other: &Tag) -> (r: bool)
        requires
            self.about_panel(),
        ensures
            r == (self@ == other@),
    {
        match self {
            Tag::Account => matches!(other, Tag::Account),
            Tag::AccountLogin => matches!(other, Tag::AccountLogin),
            Tag::AccountCancel => matches!(other, Tag::AccountCancel),
            Tag::AccountLogout => matches!(other, Tag::AccountLogout),
            Tag::Status => matches!(other, Tag::Status),
            Tag::Providers => matches!(other, Tag::Providers),
            Tag::Models => matches!(other, Tag::Models),
            Tag::Agents => matches!(other, Tag::Agents),
            Tag::Teams => matches!(other, Tag::Teams),
            Tag::Plans => matches!(other, Tag::Plans),
            Tag::ControlRuns => matches!(other, Tag::ControlRuns),
            Tag::UpgradeStatus => matches!(other, Tag::UpgradeStatus),
            Tag::Rollouts => matches!(other, Tag::Rollouts),
            Tag::Signing => matches!(other, Tag::Signing),
            Tag::Inventory => matches!(other, Tag::Inventory),
            Tag::FleetStatus => matches!(other, Tag::FleetStatus),
            Tag::ControlSubmit => matches!(other, Tag::ControlSubmit),
            _ => false,
        }
    }

    /// The question is about something by its name.
    pub open spec fn about_named(&self) -> bool {
        match *self {
            Tag::Sessions { .. }
            | Tag::AgentState { .. }
            | Tag::TeamState { .. }
            | Tag::Plan { .. }
            | Tag::ControlRun { .. }
            | Tag::History { .. }
            | Tag::Grants { .. }
            | Tag::Artifact { .. }
            | Tag::ControlCancel { .. }
            | Tag::PermissionRule { .. }
            | Tag::McpList { .. } => true,
            _ => false,
        }
    }

    #[verifier::rlimit(30)]
    fn matches_named(&self, other: &Tag) -> (r: bool)
        requires
            self.about_named(),
        ensures
            r == (self@ == other@),
    {
        match self {
            Tag::Sessions { plane: a_plane } => match other {
                Tag::Sessions { plane: b_plane } => *a_plane == *b_plane,
                _ => false,
            },
            Tag::AgentState { id: a_id } => match other {
                Tag::AgentState { id: b_id } => same(a_id.as_str(), b_id.as_str()),
                _ => false,
            },
            Tag::TeamState { id: a_id } => match other {
                Tag::TeamState { id: b_id } => same(a_id.as_str(), b_id.as_str()),
                _ => false,
            },
            Tag::Plan { id: a_id } => match other {
                Tag::Plan { id: b_id } => same(a_id.as_str(), b_id.as_str()),
                _ => false,
            },
            Tag::ControlRun { id: a_id } => match other {
                Tag::ControlRun { id: b_id } => same(a_id.as_str(), b_id.as_str()),
                _ => false,
            },
            Tag::History { module: a_module } => match other {
                Tag::History { module: b_module } => same(a_module.as_str(), b_module.as_str()),
                _ => false,
            },
            Tag::Grants { principal: a_principal } => match other {
                Tag::Grants { principal: b_principal } => same(a_principal.as_str(), b_principal.as_str()),
                _ => false,
            },
            Tag::Artifact { sha: a_sha } => match other {
                Tag::Artifact { sha: b_sha } => same(a_sha.as_str(), b_sha.as_str()),
                _ => false,
            },
            Tag::ControlCancel { id: a_id } => match other {
                Tag::ControlCancel { id: b_id } => same(a_id.as_str(), b_id.as_str()),
                _ => false,
            },
            Tag::PermissionRule { pattern: a_pattern } => match other {
                Tag::PermissionRule { pattern: b_pattern } => same(a_pattern.as_str(), b_pattern.as_str()),
                _ => false,
            },
            Tag::McpList { node: a_node } => match other {
                Tag::McpList { node: b_node } => agree(a_node, b_node),
                _ => false,
            },
            _ => false,
        }
    }

    /// The question is about a session beside its turns.
    pub open spec fn about_session(&self) -> bool {
        match *self {
            Tag::Compact { .. }
            | Tag::Handoff { .. }
            | Tag::Context { .. }
            | Tag::RewindPoints { .. }
            | Tag::Rewind { .. }
            | Tag::Shell { .. }
            | Tag::Delegate { .. }
            | Tag::Delegations { .. }
            | Tag::EventDetail { .. } => true,
            _ => false,
        }
    }

    #[verifier::rlimit(30)]
    fn matches_session(&self, other: &Tag) -> (r: bool)
        requires
            self.about_session(),
        ensures
            r == (self@ == other@),
    {
        match self {
            Tag::Compact { plane: a_plane, id: a_id } => match other {
                Tag::Compact { plane: b_plane, id: b_id } => *a_plane == *b_plane && same(a_id.as_str(), b_id.as_str()),
                _ => false,
            },
            Tag::Handoff { plane: a_plane, id: a_id, child: a_child } => match other {
                Tag::Handoff { plane: b_plane, id: b_id, child: b_child } => *a_plane == *b_plane && same(a_id.as_str(), b_id.as_str()) && same(a_child.as_str(), b_child.as_str()),
                _ => false,
            },
            Tag::Context { plane: a_plane, id: a_id, show: a_show } => match other {
                Tag::Context { plane: b_plane, id: b_id, show: b_show } => *a_plane == *b_plane && same(a_id.as_str(), b_id.as_str()) && *a_show == *b_show,
                _ => false,
            },
            Tag::RewindPoints { plane: a_plane, id: a_id } => match other {
                Tag::RewindPoints { plane: b_plane, id: b_id } => *a_plane == *b_plane && same(a_id.as_str(), b_id.as_str()),
                _ => false,
            },
            Tag::Rewind { plane: a_plane, id: a_id, label: a_label, what: a_what } => match other {
                Tag::Rewind { plane: b_plane, id: b_id, label: b_label, what: b_what } => *a_plane == *b_plane && same(a_id.as_str(), b_id.as_str()) && same(a_label.as_str(), b_label.as_str()) && same(a_what.as_str(), b_what.as_str()),
                _ => false,
            },
            Tag::Shell { plane: a_plane, id: a_id, command: a_command } => match other {
                Tag::Shell { plane: b_plane, id: b_id, command: b_command } => *a_plane == *b_plane && same(a_id.as_str(), b_id.as_str()) && same(a_command.as_str(), b_command.as_str()),
                _ => false,
            },
            Tag::Delegate { plane: a_plane, id: a_id } => match other {
                Tag::Delegate { plane: b_plane, id: b_id } => *a_plane == *b_plane && same(a_id.as_str(), b_id.as_str()),
                _ => false,
            },
            Tag::Delegations { plane: a_plane, id: a_id, show: a_show } => match other {
                Tag::Delegations { plane: b_plane, id: b_id, show: b_show } => *a_plane == *b_plane && same(a_id.as_str(), b_id.as_str()) && *a_show == *b_show,
                _ => false,
            },
            Tag::EventDetail { plane: a_plane, id: a_id, sequence: a_sequence } => match other {
                Tag::EventDetail { plane: b_plane, id: b_id, sequence: b_sequence } => *a_plane == *b_plane && same(a_id.as_str(), b_id.as_str()) && *a_sequence == *b_sequence,
                _ => false,
            },
            _ => false,
        }
    }

    /// The question is about the turns of a session.
    pub open spec fn about_turn(&self) -> bool {
        match *self {
            Tag::Resync { .. }
            | Tag::Action { .. }
            | Tag::ComposerAction { .. }
            | Tag::Approval { .. }
            | Tag::PlanExit { .. }
            | Tag::PlanMode { .. }
            | Tag::SandboxMode { .. }
            | Tag::Start { .. }
            | Tag::FirstMessage { .. } => true,
            _ => false,
        }
    }

    #[verifier::rlimit(30)]
    fn matches_turn(&self, other: &Tag) -> (r: bool)
        requires
            self.about_turn(),
        ensures
            r == (self@ == other@),
    {
        match self {
            Tag::Resync { plane: a_plane, id: a_id, cursor: a_cursor, subscribe: a_subscribe } => match other {
                Tag::Resync { plane: b_plane, id: b_id, cursor: b_cursor, subscribe: b_subscribe } => *a_plane == *b_plane && same(a_id.as_str(), b_id.as_str()) && *a_cursor == *b_cursor && *a_subscribe == *b_subscribe,
                _ => false,
            },
            Tag::Action { label: a_label, plane: a_plane, id: a_id, turn_id: a_turn_id } => match other {
                Tag::Action { label: b_label, plane: b_plane, id: b_id, turn_id: b_turn_id } => same(a_label, b_label) && *a_plane == *b_plane && same(a_id.as_str(), b_id.as_str()) && agree(a_turn_id, b_turn_id),
                _ => false,
            },
            Tag::ComposerAction { label: a_label, verb: a_verb, plane: a_plane, id: a_id, turn_id: a_turn_id, input: a_input, reconciling: a_reconciling, submission_sequence: a_submission_sequence } => match other {
                Tag::ComposerAction { label: b_label, verb: b_verb, plane: b_plane, id: b_id, turn_id: b_turn_id, input: b_input, reconciling: b_reconciling, submission_sequence: b_submission_sequence } => same(a_label, b_label) && *a_verb == *b_verb && *a_plane == *b_plane && same(a_id.as_str(), b_id.as_str()) && agree(a_turn_id, b_turn_id) && same(a_input.as_str(), b_input.as_str()) && *a_reconciling == *b_reconciling && *a_submission_sequence == *b_submission_sequence,
                _ => false,
            },
            Tag::Approval { plane: a_plane, id: a_id, request_id: a_request_id } => match other {
                Tag::Approval { plane: b_plane, id: b_id, request_id: b_request_id } => *a_plane == *b_plane && same(a_id.as_str(), b_id.as_str()) && same(a_request_id.as_str(), b_request_id.as_str()),
                _ => false,
            },
            Tag::PlanExit { plane: a_plane, id: a_id, request_id: a_request_id, choice: a_choice, had_follow_up: a_had_follow_up } => match other {
                Tag::PlanExit { plane: b_plane, id: b_id, request_id: b_request_id, choice: b_choice, had_follow_up: b_had_follow_up } => *a_plane == *b_plane && same(a_id.as_str(), b_id.as_str()) && same(a_request_id.as_str(), b_request_id.as_str()) && same(a_choice.as_str(), b_choice.as_str()) && *a_had_follow_up == *b_had_follow_up,
                _ => false,
            },
            Tag::PlanMode { plane: a_plane, id: a_id, want: a_want } => match other {
                Tag::PlanMode { plane: b_plane, id: b_id, want: b_want } => *a_plane == *b_plane && same(a_id.as_str(), b_id.as_str()) && *a_want == *b_want,
                _ => false,
            },
            Tag::SandboxMode { plane: a_plane, id: a_id, label: a_label, meaning: a_meaning, warns: a_warns } => match other {
                Tag::SandboxMode { plane: b_plane, id: b_id, label: b_label, meaning: b_meaning, warns: b_warns } => *a_plane == *b_plane && same(a_id.as_str(), b_id.as_str()) && same(a_label.as_str(), b_label.as_str()) && same(a_meaning.as_str(), b_meaning.as_str()) && *a_warns == *b_warns,
                _ => false,
            },
            Tag::Start { plane: a_plane, id: a_id } => match other {
                Tag::Start { plane: b_plane, id: b_id } => *a_plane == *b_plane && agree(a_id, b_id),
                _ => false,
            },
            Tag::FirstMessage { plane: a_plane, id: a_id, turn_id: a_turn_id, input: a_input, submission_sequence: a_submission_sequence } => match other {
                Tag::FirstMessage { plane: b_plane, id: b_id, turn_id: b_turn_id, input: b_input, submission_sequence: b_submission_sequence } => *a_plane == *b_plane && same(a_id.as_str(), b_id.as_str()) && same(a_turn_id.as_str(), b_turn_id.as_str()) && same(a_input.as_str(), b_input.as_str()) && *a_submission_sequence == *b_submission_sequence,
                _ => false,
            },
            _ => false,
        }
    }

    /// The two tags say the same.
    pub fn matches(&self, other: &Tag) -> (r: bool)
        ensures
            r == (self@ == other@),
    {
        match self {
            Tag::Account
            | Tag::AccountLogin
            | Tag::AccountCancel
            | Tag::AccountLogout
            | Tag::Status
            | Tag::Providers
            | Tag::Models
            | Tag::Agents
            | Tag::Teams
            | Tag::Plans
            | Tag::ControlRuns
            | Tag::UpgradeStatus
            | Tag::Rollouts
            | Tag::Signing
            | Tag::Inventory
            | Tag::FleetStatus
            | Tag::ControlSubmit => self.matches_panel(other),
            Tag::Sessions { .. }
            | Tag::AgentState { .. }
            | Tag::TeamState { .. }
            | Tag::Plan { .. }
            | Tag::ControlRun { .. }
            | Tag::History { .. }
            | Tag::Grants { .. }
            | Tag::Artifact { .. }
            | Tag::ControlCancel { .. }
            | Tag::PermissionRule { .. }
            | Tag::McpList { .. } => self.matches_named(other),
            Tag::Compact { .. }
            | Tag::Handoff { .. }
            | Tag::Context { .. }
            | Tag::RewindPoints { .. }
            | Tag::Rewind { .. }
            | Tag::Shell { .. }
            | Tag::Delegate { .. }
            | Tag::Delegations { .. }
            | Tag::EventDetail { .. } => self.matches_session(other),
            _ => self.matches_turn(other),
        }
    }

    pub fn copy(&self) -> (r: Tag)
        ensures
            r@ == self@,
    {
        match self {
            Tag::Account => Tag::Account,
            Tag::AccountLogin => Tag::AccountLogin,
            Tag::AccountCancel => Tag::AccountCancel,
            Tag::AccountLogout => Tag::AccountLogout,
            Tag::Status => Tag::Status,
            Tag::Providers => Tag::Providers,
            Tag::Models => Tag::Models,
            Tag::Sessions { plane } => Tag::Sessions { plane: *plane },
            Tag::Agents => Tag::Agents,
            Tag::AgentState { id } => Tag::AgentState { id: id.clone() },
            Tag::Teams => Tag::Teams,
            Tag::TeamState { id } => Tag::TeamState { id: id.clone() },
            Tag::Plans => Tag::Plans,
            Tag::Plan { id } => Tag::Plan { id: id.clone() },
            Tag::ControlRuns => Tag::ControlRuns,
            Tag::ControlRun { id } => Tag::ControlRun { id: id.clone() },
            Tag::UpgradeStatus => Tag::UpgradeStatus,
            Tag::Rollouts => Tag::Rollouts,
            Tag::History { module } => Tag::History { module: module.clone() },
            Tag::Signing => Tag::Signing,
            Tag::Grants { principal } => Tag::Grants { principal: principal.clone() },
            Tag::Inventory => Tag::Inventory,
            Tag::FleetStatus => Tag::FleetStatus,
            Tag::Resync { plane, id, cursor, subscribe } => Tag::Resync { plane: *plane, id: id.clone(), cursor: *cursor, subscribe: *subscribe },
            Tag::Action { label, plane, id, turn_id } => Tag::Action { label, plane: *plane, id: id.clone(), turn_id: copy_text(turn_id) },
            Tag::ComposerAction { label, verb, plane, id, turn_id, input, reconciling, submission_sequence } => Tag::ComposerAction { label, verb: *verb, plane: *plane, id: id.clone(), turn_id: copy_text(turn_id), input: input.clone(), reconciling: *reconciling, submission_sequence: *submission_sequence },
            Tag::Compact { plane, id } => Tag::Compact { plane: *plane, id: id.clone() },
            Tag::Handoff { plane, id, child } => Tag::Handoff { plane: *plane, id: id.clone(), child: child.clone() },
            Tag::Context { plane, id, show } => Tag::Context { plane: *plane, id: id.clone(), show: *show },
            Tag::RewindPoints { plane, id } => Tag::RewindPoints { plane: *plane, id: id.clone() },
            Tag::Rewind { plane, id, label, what } => Tag::Rewind { plane: *plane, id: id.clone(), label: label.clone(), what: what.clone() },
            Tag::Shell { plane, id, command } => Tag::Shell { plane: *plane, id: id.clone(), command: command.clone() },
            Tag::Delegate { plane, id } => Tag::Delegate { plane: *plane, id: id.clone() },
            Tag::Delegations { plane, id, show } => Tag::Delegations { plane: *plane, id: id.clone(), show: *show },
            Tag::Artifact { sha } => Tag::Artifact { sha: sha.clone() },
            Tag::ControlSubmit => Tag::ControlSubmit,
            Tag::ControlCancel { id } => Tag::ControlCancel { id: id.clone() },
            Tag::EventDetail { plane, id, sequence } => Tag::EventDetail { plane: *plane, id: id.clone(), sequence: *sequence },
            Tag::PermissionRule { pattern } => Tag::PermissionRule { pattern: pattern.clone() },
            Tag::Approval { plane, id, request_id } => Tag::Approval { plane: *plane, id: id.clone(), request_id: request_id.clone() },
            Tag::PlanExit { plane, id, request_id, choice, had_follow_up } => Tag::PlanExit { plane: *plane, id: id.clone(), request_id: request_id.clone(), choice: choice.clone(), had_follow_up: *had_follow_up },
            Tag::PlanMode { plane, id, want } => Tag::PlanMode { plane: *plane, id: id.clone(), want: *want },
            Tag::SandboxMode { plane, id, label, meaning, warns } => Tag::SandboxMode { plane: *plane, id: id.clone(), label: label.clone(), meaning: meaning.clone(), warns: *warns },
            Tag::McpList { node } => Tag::McpList { node: copy_text(node) },
            Tag::Start { plane, id } => Tag::Start { plane: *plane, id: copy_text(id) },
            Tag::FirstMessage { plane, id, turn_id, input, submission_sequence } => Tag::FirstMessage { plane: *plane, id: id.clone(), turn_id: turn_id.clone(), input: input.clone(), submission_sequence: *submission_sequence },
        }
    }
}

// ----- calls ------------------------------------------------------------------------

/// The ceiling of a start, in seconds: it waits for a provider to be ready, and the gateway's own
/// ceiling on it is just below this.
pub const START_TIMEOUT: u64 = 130;

/// One request the driver should make.
#[derive(Debug)]
pub struct Call {
    pub tag: Tag,
    pub method: String,
    pub params: Json,
    /// In seconds; none uses the transport's own ceiling.
    pub timeout: Option<u64>,
}

pub struct CallView {
    pub tag: TagView,
    pub method: Seq<char>,
    pub params: JsonView,
    pub timeout: Option<u64>,
}

/// A call with the transport's own ceiling.
pub open spec fn plain_call(tag: TagView, method: Seq<char>, params: JsonView) -> CallView {
    CallView { tag, method, params, timeout: None }
}

impl Call {
    pub open spec fn view(&self) -> CallView {
        CallView {
            tag: self.tag@,
            method: self.method@,
            params: self.params@,
            timeout: self.timeout,
        }
    }

    pub fn new(tag: Tag, method: &str, params: Json) -> (r: Call)
        ensures
            r@ == plain_call(tag@, method@, params@),
    {
        Call { tag, method: method.to_owned(), params, timeout: None }
    }

    pub fn with_timeout(self, timeout: u64) -> (r: Call)
        ensures
            r@ == (CallView { timeout: Some(timeout), ..self@ }),
    {
        let mut call = self;
        call.timeout = Some(timeout);
        call
    }
}

pub open spec fn calls(list: Seq<Call>) -> Seq<CallView> {
    Seq::new(list.len(), |i: int| list[i]@)
}

// ----- parameters -------------------------------------------------------------------

pub open spec fn no_params() -> JsonView {
    JsonView::Object(Seq::empty())
}

pub open spec fn text_param(name: Seq<char>, text: Seq<char>) -> (Seq<char>, JsonView) {
    (name, JsonView::Text(text))
}

pub open spec fn number_param(name: Seq<char>, n: u64) -> (Seq<char>, JsonView) {
    (name, JsonView::Unsigned(n))
}

pub open spec fn id_params(id: Seq<char>) -> JsonView {
    JsonView::Object(seq![text_param("id"@, id)])
}

pub fn nothing() -> (r: Json)
    ensures
        r@ == no_params(),
{
    let members: Vec<Member> = Vec::new();
    proof {
        crate::json::lemma_object_view(members@);
    }
    let r = Json::Object(members);
    assert(crate::json::members_view(members@) =~= Seq::empty());
    r
}

/// An object, one member at a time.
pub struct Params {
    members: Vec<Member>,
}

impl Params {
    pub closed spec fn view(&self) -> Seq<(Seq<char>, JsonView)> {
        crate::json::members_view(self.members@)
    }

    pub fn new() -> (r: Params)
        ensures
            r@ == Seq::<(Seq<char>, JsonView)>::empty(),
    {
        let r = Params { members: Vec::new() };
        assert(r@ =~= Seq::<(Seq<char>, JsonView)>::empty());
        r
    }

    pub fn with(self, name: &str, value: Json) -> (r: Params)
        ensures
            r@ == self@.push((name@, value@)),
    {
        let mut members = self.members;
        let ghost before = members@;
        members.push(Member { name: name.to_owned(), value });
        assert(crate::json::members_view(members@) =~= crate::json::members_view(before).push(
            (name@, value@),
        ));
        Params { members }
    }

    pub fn text(self, name: &str, text: &str) -> (r: Params)
        ensures
            r@ == self@.push(text_param(name@, text@)),
    {
        self.with(name, Json::Text(text.to_owned()))
    }

    pub fn number(self, name: &str, n: u64) -> (r: Params)
        ensures
            r@ == self@.push(number_param(name@, n)),
    {
        self.with(name, Json::Unsigned(n))
    }

    pub fn done(self) -> (r: Json)
        ensures
            r@ == JsonView::Object(self@),
    {
        proof {
            crate::json::lemma_object_view(self.members@);
        }
        Json::Object(self.members)
    }
}

pub fn by_id(id: &str) -> (r: Json)
    ensures
        r@ == id_params(id@),
{
    let params = Params::new().text("id", id);
    assert(params@ =~= seq![text_param("id"@, id@)]);
    params.done()
}

// ----- the queue --------------------------------------------------------------------

/// What is to be sent, and what was sent and not answered.
#[derive(Debug)]
pub struct Queue {
    pub outbound: Vec<Call>,
    pub in_flight: Vec<Tag>,
}

pub struct QueueView {
    pub outbound: Seq<CallView>,
    pub in_flight: Set<TagView>,
}

pub open spec fn tags(list: Seq<Tag>) -> Seq<TagView> {
    Seq::new(list.len(), |i: int| list[i]@)
}

impl QueueView {
    /// The call is queued, unless the same question is already outstanding.
    pub open spec fn with(self, call: CallView) -> QueueView {
        if self.in_flight.contains(call.tag) {
            self
        } else {
            QueueView {
                outbound: self.outbound.push(call),
                in_flight: self.in_flight.insert(call.tag),
            }
        }
    }

    pub open spec fn without(self, tag: TagView) -> QueueView {
        QueueView { outbound: self.outbound, in_flight: self.in_flight.remove(tag) }
    }
}

impl Queue {
    pub open spec fn view(&self) -> QueueView {
        QueueView {
            outbound: calls(self.outbound@),
            in_flight: tags(self.in_flight@).to_set(),
        }
    }

    /// No question is outstanding twice.
    pub open spec fn wf(&self) -> bool {
        tags(self.in_flight@).no_duplicates()
    }

    pub fn new() -> (r: Queue)
        ensures
            r.wf(),
            r@ == (QueueView { outbound: Seq::empty(), in_flight: Set::empty() }),
    {
        let r = Queue { outbound: Vec::new(), in_flight: Vec::new() };
        assert(calls(r.outbound@) =~= Seq::empty());
        assert(tags(r.in_flight@).to_set() =~= Set::empty());
        r
    }

    fn find(&self, tag: &Tag) -> (r: Option<usize>)
        ensures
            match r {
                Some(i) => i < self.in_flight@.len() && self.in_flight@[i as int]@ == tag@,
                None => !self@.in_flight.contains(tag@),
            },
            r is Some ==> self@.in_flight.contains(tag@),
    {
        let mut i: usize = 0;
        while i < self.in_flight.len()
            invariant
                i <= self.in_flight@.len(),
                forall|k: int| 0 <= k < i ==> (#[trigger] self.in_flight@[k])@ != tag@,
            decreases self.in_flight@.len() - i,
        {
            if self.in_flight[i].matches(tag) {
                assert(tags(self.in_flight@)[i as int] == tag@);
                return Some(i);
            }
            i += 1;
        }
        assert(!tags(self.in_flight@).contains(tag@)) by {
            if tags(self.in_flight@).contains(tag@) {
                let k = choose|k: int|
                    0 <= k < tags(self.in_flight@).len() && tags(self.in_flight@)[k] == tag@;
                assert(self.in_flight@[k]@ != tag@);
            }
        }
        None
    }

    pub fn holds(&self, tag: &Tag) -> (r: bool)
        ensures
            r == self@.in_flight.contains(tag@),
    {
        self.find(tag).is_some()
    }

    /// Queues a call unless the same question is already outstanding.
    pub fn put(&mut self, call: Call)
        requires
            old(self).wf(),
        ensures
            final(self).wf(),
            final(self)@ == old(self)@.with(call@),
    {
        if self.holds(&call.tag) {
            return;
        }
        let ghost before = *self;
        let tag = call.tag.copy();
        self.in_flight.push(tag);
        self.outbound.push(call);
        proof {
            assert(calls(self.outbound@) =~= calls(before.outbound@).push(call@));
            assert(tags(self.in_flight@) =~= tags(before.in_flight@).push(call@.tag));
            assert(tags(self.in_flight@).to_set() =~= tags(before.in_flight@).to_set().insert(
                call@.tag,
            )) by {
                assert forall|t: TagView|
                    tags(self.in_flight@).contains(t) <==> tags(before.in_flight@).contains(t) || t
                        == call@.tag by {
                    if tags(before.in_flight@).contains(t) {
                        let k = choose|k: int|
                            0 <= k < tags(before.in_flight@).len() && tags(before.in_flight@)[k]
                                == t;
                        assert(tags(self.in_flight@)[k] == t);
                    }
                    if t == call@.tag {
                        assert(tags(self.in_flight@)[before.in_flight@.len() as int] == t);
                    }
                }
            }
            assert(!tags(before.in_flight@).contains(call@.tag));
        }
    }

    /// The question has been answered.
    pub fn answered(&mut self, tag: &Tag)
        requires
            old(self).wf(),
        ensures
            final(self).wf(),
            final(self)@ == old(self)@.without(tag@),
    {
        let ghost before = *self;
        match self.find(tag) {
            Some(i) => {
                let _ = self.in_flight.remove(i);
                proof {
                    let was = tags(before.in_flight@);
                    let now = tags(self.in_flight@);
                    assert(now =~= was.remove(i as int));
                    assert(now.to_set() =~= was.to_set().remove(tag@)) by {
                        assert forall|t: TagView|
                            now.contains(t) <==> was.contains(t) && t != tag@ by {
                            if now.contains(t) {
                                let k = choose|k: int| 0 <= k < now.len() && now[k] == t;
                                let from = if k < i {
                                    k
                                } else {
                                    k + 1
                                };
                                assert(was[from] == t);
                                assert(was[i as int] == tag@);
                            }
                            if was.contains(t) && t != tag@ {
                                let k = choose|k: int| 0 <= k < was.len() && was[k] == t;
                                let to = if k < i {
                                    k
                                } else {
                                    k - 1
                                };
                                assert(now[to] == t);
                            }
                        }
                    }
                    assert(now.no_duplicates());
                }
            },
            None => {
                assert(before@.in_flight.remove(tag@) =~= before@.in_flight);
            },
        }
    }

    /// Everything to be sent, in order. Draining is the only way a request leaves.
    pub fn drain(&mut self) -> (r: Vec<Call>)
        ensures
            calls(r@) == old(self)@.outbound,
            final(self)@ == (QueueView { outbound: Seq::empty(), ..old(self)@ }),
            final(self).in_flight == old(self).in_flight,
    {
        let mut out: Vec<Call> = Vec::new();
        std::mem::swap(&mut self.outbound, &mut out);
        assert(calls(self.outbound@) =~= Seq::empty());
        out
    }

    pub fn has_outbound(&self) -> (r: bool)
        ensures
            r == (self@.outbound.len() > 0),
    {
        self.outbound.len() > 0
    }

    pub fn busy(&self) -> (r: bool)
        ensures
            r == !(self@.in_flight =~= Set::empty()),
    {
        let r = self.in_flight.len() > 0;
        proof {
            if r {
                assert(tags(self.in_flight@)[0] == self.in_flight@[0]@);
                assert(self@.in_flight.contains(self.in_flight@[0]@));
            } else {
                assert(self@.in_flight =~= Set::empty());
            }
        }
        r
    }
}

impl Queue {
    /// A first message of this session is outstanding.
    pub fn awaits_first(&self, plane: Plane, id: &str) -> (r: bool)
        ensures
            r == self@.awaits_first_of(plane, id@),
    {
        let mut i: usize = 0;
        while i < self.in_flight.len()
            invariant
                i <= self.in_flight@.len(),
                forall|k: int|
                    0 <= k < i ==> !(#[trigger] self.in_flight@[k])@.is_first_of(plane, id@),
            decreases self.in_flight@.len() - i,
        {
            let hit = match &self.in_flight[i] {
                Tag::FirstMessage { plane: p, id: other, .. } => *p == plane && same(
                    other.as_str(),
                    id,
                ),
                _ => false,
            };
            if hit {
                assert(tags(self.in_flight@)[i as int].is_first_of(plane, id@));
                assert(self@.in_flight.contains(self.in_flight@[i as int]@));
                return true;
            }
            i += 1;
        }
        assert(!self@.awaits_first_of(plane, id@)) by {
            if self@.awaits_first_of(plane, id@) {
                let tag = choose|tag: TagView|
                    #[trigger] self@.in_flight.contains(tag) && tag.is_first_of(plane, id@);
                let k = choose|k: int|
                    0 <= k < tags(self.in_flight@).len() && tags(self.in_flight@)[k] == tag;
                assert(!self.in_flight@[k]@.is_first_of(plane, id@));
            }
        }
        false
    }
}

impl TagView {
    pub open spec fn is_first_of(self, plane: Plane, id: Seq<char>) -> bool {
        match self {
            TagView::FirstMessage { plane: p, id: other, .. } => p == plane && other == id,
            _ => false,
        }
    }
}

impl QueueView {
    pub open spec fn awaits_first_of(self, plane: Plane, id: Seq<char>) -> bool {
        exists|tag: TagView| #[trigger] self.in_flight.contains(tag) && tag.is_first_of(plane, id)
    }
}

/// A question that is outstanding is not queued again, and once it is answered it can be.
pub proof fn lemma_one_question_per_tag(queue: QueueView, call: CallView, again: CallView)
    requires
        again.tag == call.tag,
    ensures
        queue.with(call).with(again) == queue.with(call),
        queue.with(call).without(call.tag).with(again).outbound.len() == queue.with(
            call,
        ).outbound.len() + 1,
{
}

} // verus!
