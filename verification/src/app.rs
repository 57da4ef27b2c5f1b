//! The whole client as a state machine, with no input or output in it.
//!
//! A client that waited for an answer would stop drawing for as long as the runtime takes. So it
//! never calls: it queues calls, the driver makes them, and the answers come back as events. Every
//! panel keeps its last good value, so a refresh in flight shows the previous data rather than a
//! blank.
//!
//! Cheap lists are asked for every few seconds, and only for the tab that is visible. Transcripts
//! are never polled: that is what a subscription is for.

use vstd::prelude::*;

use crate::cluster::{FleetProfile, RuntimeStatus};
use crate::devices::DevicesState;
use crate::explorer::{
    Explorer, UpgradeSection, UpgradeTab, DETAIL_TICKS, LIST_TICKS, UPGRADE_TICKS,
};
use crate::forms::{AccountDialog, CommandPalette, NewSession, ProviderEntry, Settings,
    StartRequest};
use crate::json::{Json, JsonView};
use crate::model::{ApprovalMode, Plane};
use crate::ownership::{Mode, Quit};
use crate::panel::Loadable;
use crate::sessions::{Cursors, Draft, Key, SessionsTab};
use crate::tags::{by_id, id_params, no_params, nothing, plain_call, text_param, Call, CallView,
    ComposerVerb, Params, Queue, QueueView, Tag, TagView};
use crate::text::{cat2, copy_text, said, same};
use crate::wire::Hello;

verus! {

/// How often a panel is asked for, in ticks of a quarter second.
pub const STATUS_TICKS: u64 = 12;

/// Each entry probes a program.
pub const PROVIDER_TICKS: u64 = 240;

pub const MODEL_TICKS: u64 = 240;

pub const ACCOUNT_TICKS: u64 = 120;

/// While a sign-in waits.
pub const ACCOUNT_LOGIN_TICKS: u64 = 4;

/// How long a notice stays.
pub const NOTICE_TICKS: u64 = 20;

/// No client runs for this many ticks; below it no tick arithmetic overflows.
pub const TICK_CEILING: u64 = 0x3fff_ffff_ffff_ffff;

#[derive(Debug, Clone, Copy, PartialEq, Eq, Structural, Hash)]
pub enum Tab {
    Dashboard,
    Sessions,
    Agents,
    Teams,
    Plans,
    Upgrade,
    Logs,
}

impl Tab {
    pub const ALL: [Tab; 7] = [
        Tab::Dashboard,
        Tab::Sessions,
        Tab::Agents,
        Tab::Teams,
        Tab::Plans,
        Tab::Upgrade,
        Tab::Logs,
    ];

    pub open spec fn name(self) -> Seq<char> {
        match self {
            Tab::Dashboard => "Dashboard"@,
            Tab::Sessions => "Sessions"@,
            Tab::Agents => "Agents"@,
            Tab::Teams => "Teams"@,
            Tab::Plans => "Plans/Control"@,
            Tab::Upgrade => "Upgrade"@,
            Tab::Logs => "Logs"@,
        }
    }

    pub fn title(self) -> (r: &'static str)
        ensures
            r@ == self.name(),
    {
        match self {
            Tab::Dashboard => "Dashboard",
            Tab::Sessions => "Sessions",
            Tab::Agents => "Agents",
            Tab::Teams => "Teams",
            Tab::Plans => "Plans/Control",
            Tab::Upgrade => "Upgrade",
            Tab::Logs => "Logs",
        }
    }

    pub open spec fn place(self) -> int {
        match self {
            Tab::Dashboard => 0,
            Tab::Sessions => 1,
            Tab::Agents => 2,
            Tab::Teams => 3,
            Tab::Plans => 4,
            Tab::Upgrade => 5,
            Tab::Logs => 6,
        }
    }

    /// The tab's place among all of them.
    pub fn index(self) -> (r: usize)
        ensures
            r == self.place(),
            r < Tab::ALL@.len(),
            Tab::ALL@[r as int] == self,
    {
        match self {
            Tab::Dashboard => 0,
            Tab::Sessions => 1,
            Tab::Agents => 2,
            Tab::Teams => 3,
            Tab::Plans => 4,
            Tab::Upgrade => 5,
            Tab::Logs => 6,
        }
    }
}

/// A place among the tabs and the tab there name each other.
pub proof fn lemma_tabs_and_places_match(tab: Tab, at: int)
    ensures
        Tab::ALL@[tab.place()] == tab,
        0 <= at < Tab::ALL@.len() ==> Tab::ALL@[at].place() == at,
{
}

#[derive(Debug)]
pub enum Connection {
    Live,
    /// The transport is retrying; this is what is known about it.
    Lost { reason: String },
}

#[derive(Debug, Clone, Copy, PartialEq, Eq, Structural)]
pub enum NoticeKind {
    Info,
    Warn,
    Error,
}

#[derive(Debug)]
pub struct Notice {
    pub text: String,
    pub kind: NoticeKind,
    pub until: u64,
}

#[derive(Debug, Clone, Copy, PartialEq, Eq, Structural)]
pub enum PromptKind {
    HistoryModule,
    GrantsPrincipal,
}

/// This client's preferences. Never a fact about the runtime.
#[derive(Debug)]
pub struct Config {
    pub provider: Option<String>,
    pub model: Option<String>,
    pub workspace: Option<String>,
    /// The word of an approval mode.
    pub approval_mode: Option<String>,
    /// What a session may do to files.
    pub sandbox_mode: Option<String>,
    /// Where a session that was recovered is to run: the machine, by its name and empty for this
    /// one, and the workspace on it.
    pub location_machine: String,
    pub location_workspace: Option<String>,
    /// The operator has reached the home once.
    pub welcomed: bool,
}

impl Config {
    pub open spec fn is_blank(&self) -> bool {
        &&& self.provider is None
        &&& self.model is None
        &&& self.workspace is None
        &&& self.approval_mode is None
        &&& self.sandbox_mode is None
        &&& self.location_machine@.len() == 0
        &&& self.location_workspace is None
        &&& !self.welcomed
    }

    pub fn new() -> (r: Config)
        ensures
            r.is_blank(),
    {
        Config {
            provider: None,
            model: None,
            workspace: None,
            approval_mode: None,
            sandbox_mode: None,
            location_machine: String::new(),
            location_workspace: None,
            welcomed: false,
        }
    }

    pub open spec fn mode(&self) -> Option<ApprovalMode> {
        match self.approval_mode {
            Some(word) => ApprovalMode::named(word@),
            None => None,
        }
    }

    pub fn approval(&self) -> (r: Option<ApprovalMode>)
        ensures
            r == self.mode(),
    {
        match &self.approval_mode {
            Some(word) => ApprovalMode::parse(word.as_str()),
            None => None,
        }
    }

    pub open spec fn same_as(&self, other: Config) -> bool {
        &&& said(self.provider) == said(other.provider)
        &&& said(self.model) == said(other.model)
        &&& said(self.workspace) == said(other.workspace)
        &&& said(self.approval_mode) == said(other.approval_mode)
        &&& said(self.sandbox_mode) == said(other.sandbox_mode)
        &&& self.location_machine@ == other.location_machine@
        &&& said(self.location_workspace) == said(other.location_workspace)
        &&& self.welcomed == other.welcomed
    }

    pub fn copy(&self) -> (r: Config)
        ensures
            r.same_as(*self),
    {
        Config {
            provider: copy_text(&self.provider),
            model: copy_text(&self.model),
            workspace: copy_text(&self.workspace),
            approval_mode: copy_text(&self.approval_mode),
            sandbox_mode: copy_text(&self.sandbox_mode),
            location_machine: self.location_machine.clone(),
            location_workspace: copy_text(&self.location_workspace),
            welcomed: self.welcomed,
        }
    }
}

/// What the runtime says of a ChatGPT account.
#[derive(Debug)]
pub struct AccountState {
    pub connected: bool,
    pub usable: bool,
    /// There is an account behind it.
    pub known: bool,
    pub email: Option<String>,
    pub plan_label: Option<String>,
    /// How the sign-in stands.
    pub login_status: String,
    pub login_id: Option<String>,
    pub login_error: Option<String>,
}

#[allow(inconsistent_fields)]
#[derive(Debug)]
pub enum Overlay {
    Commands(CommandPalette),
    Account(Box<AccountDialog>),
    SessionPicker { choice: usize },
    Help,
    Devices,
    Settings(Box<Settings>),
    Quit { options: Vec<(String, Quit)>, choice: usize },
    Approval { plane: Plane, id: String, request_id: String, subject: String, choice: usize },
    /// No call dismisses without acting.
    Confirm {
        title: String,
        detail: String,
        options: Vec<(String, Option<Call>)>,
        choice: usize,
    },
    Prompt { kind: PromptKind, label: String, buffer: String },
    New(Box<NewSession>),
}

/// A first prompt, held until the session it belongs to has started.
#[derive(Debug)]
pub struct PendingFirstMessage {
    pub input: String,
    pub turn_id: String,
    pub start: StartRequest,
    /// The session may exist already: only the same request may be sent again.
    pub start_outcome_unknown: bool,
}

#[derive(Debug)]
pub struct App {
    pub mode: Mode,
    pub address: String,
    pub hello: Hello,
    pub connection: Connection,
    pub tab: Tab,
    pub ticks: u64,
    pub account: Loadable<AccountState>,
    pub status: Loadable<RuntimeStatus>,
    pub providers: Loadable<Vec<ProviderEntry>>,
    pub models: Loadable<Json>,
    pub sessions: SessionsTab,
    pub agents: Explorer,
    pub teams: Explorer,
    pub plans: Explorer,
    pub control: Explorer,
    /// Which of the two lists of the plans tab is driven.
    pub plans_on_control: bool,
    pub upgrade: UpgradeTab,
    pub log_scroll: usize,
    pub devices: DevicesState,
    pub overlay: Option<Overlay>,
    pub notice: Option<Notice>,
    pub quit: Option<Quit>,
    pub cursors: Cursors,
    /// Where the client was started: offered as a workspace, and never assumed.
    pub launch_dir: Option<String>,
    pub config: Config,
    pub home_draft: Draft,
    pub home_pending: bool,
    pub home_error: Option<String>,
    pub queue: Queue,
    pub dropped_seen: u64,
    /// The preferences changed, and want to be written.
    pub save_pending: bool,
    pub first_message: Option<PendingFirstMessage>,
    /// A request that goes out when a sign-in completes, and the prompt it is for.
    pub home_login_start: Option<(StartRequest, String)>,
    /// A start that runs beside the home; kept until the session it asked for is known to exist.
    pub pending_background_start: Option<StartRequest>,
    /// An address the driver should open in a browser.
    pub open_url_pending: Option<String>,
    /// The gateway has refused a plan choice once.
    pub plan_options_refused: bool,
    pub delegating: bool,
    /// What this machine's own files say of its fleet.
    pub fleet_profile: Option<FleetProfile>,
    /// The panel of machines is open, and the runtime's status with it.
    pub machines_open: bool,
    /// The prompt of a start that was refused, for a window, which draws neither the home's draft
    /// nor a composer's.
    pub desktop_restored_draft: Option<String>,
    /// How many turns have left a composer.
    pub submissions: u64,
    /// The leader key was pressed, and waits until this tick for its verb.
    pub leader_until: Option<u64>,
    /// The first key of the chord that goes back through a session was pressed: until when the
    /// second one counts, and which session was open.
    pub backtrack_arm: Option<(u64, Key)>,
    /// What was asked of the parts of the client that hold no state here, oldest first.
    pub errands: Vec<Errand>,
}

/// A draft that goes back into its composer.
#[derive(Debug)]
pub struct Restore {
    pub plane: Plane,
    pub id: String,
    pub input: String,
    pub turn_id: Option<String>,
    pub verb: ComposerVerb,
    pub submission_sequence: u64,
    /// The verb as it was sent, by name.
    pub label: &'static str,
    /// Nobody can tell whether the turn arrived.
    pub unknown: bool,
    /// Why it came back.
    pub diagnostic: String,
    /// The sentence where nothing else has to be said.
    pub plain: String,
}

/// Work an answer leaves for another part of the client.
#[derive(Debug)]
pub enum Errand {
    /// Show what an answer holds.
    Show { tag: Tag, value: Json },
    /// Show why there was none.
    Refused { tag: Tag, words: String },
    /// Forget a session that was removed.
    Removed { plane: Plane, id: String },
    /// Ask for the session lists again.
    RefreshSessions,
    /// Go back to the session picker, where it asked for this.
    ResumePicker,
    /// Look for sessions on machines that came back.
    RecoverSessions,
    /// A plan exit goes out again as a plain approval.
    AnswerPlan { plane: Plane, id: String, request_id: String, choice: String },
    /// Answer every approval of the open session by itself, or stop doing so.
    AutoApprove { on: bool },
}

// ----- asking -----------------------------------------------------------------------

pub open spec fn unserved_words(method: Seq<char>) -> Seq<char> {
    "this gateway does not serve "@ + method
}

/// What asking for a panel does to the queue. A method the gateway does not serve is answered here
/// rather than sent and refused.
pub open spec fn asked_queue(queue: QueueView, due: bool, served: bool, call: CallView) -> QueueView {
    if !due {
        queue
    } else if served {
        queue.with(call)
    } else {
        queue.without(call.tag)
    }
}

/// What asking for a panel does to it.
pub open spec fn asked<T>(
    before: Loadable<T>,
    after: Loadable<T>,
    ticks: u64,
    served: bool,
    method: Seq<char>,
    cadence: u64,
) -> bool {
    if !before.is_due(ticks) {
        after == before
    } else if served {
        after == (Loadable { pending: true, ..before })
    } else {
        said(after.error) == Some(unserved_words(method)) && after == before.after_failure(
            after.error,
            ticks,
            cadence,
        )
    }
}

/// Asks for a panel, if it is due.
fn ask<T>(
    panel: &mut Loadable<T>,
    queue: &mut Queue,
    hello: &Hello,
    tag: Tag,
    method: &str,
    params: Json,
    ticks: u64,
    cadence: u64,
)
    requires
        old(queue).wf(),
        ticks + cadence <= u64::MAX,
    ensures
        final(queue).wf(),
        final(queue)@ == asked_queue(
            old(queue)@,
            old(panel).is_due(ticks),
            hello.lists(method@),
            plain_call(tag@, method@, params@),
        ),
        asked(*old(panel), *final(panel), ticks, hello.lists(method@), method@, cadence),
{
    if !panel.due(ticks) {
        return;
    }
    if !hello.serves(method) {
        queue.answered(&tag);
        panel.failed(cat2("this gateway does not serve ", method), ticks, cadence);
        return;
    }
    panel.started();
    queue.put(Call::new(tag, method, params));
}

/// The detail panel once it is known which row it is for: another row is asked for at once.
pub open spec fn turned(explorer: Explorer, id: Seq<char>) -> Loadable<Json> {
    if said(explorer.detail_of) == Some(id) {
        explorer.detail
    } else {
        Loadable { next_tick: 0, ..explorer.detail }
    }
}

/// What asking for the detail of the row under the cursor does to the queue.
pub open spec fn detail_queue(
    queue: QueueView,
    explorer: Explorer,
    ticks: u64,
    hello: Hello,
    tag: spec_fn(Seq<char>) -> TagView,
    method: Seq<char>,
) -> QueueView {
    match explorer.chosen() {
        Some(row) => asked_queue(
            queue,
            turned(explorer, row.id@).is_due(ticks),
            hello.lists(method),
            plain_call(tag(row.id@), method, id_params(row.id@)),
        ),
        None => queue,
    }
}

pub open spec fn detail_asked(
    before: Explorer,
    after: Explorer,
    ticks: u64,
    hello: Hello,
    method: Seq<char>,
) -> bool {
    match before.chosen() {
        Some(row) => {
            &&& asked(
                turned(before, row.id@),
                after.detail,
                ticks,
                hello.lists(method),
                method,
                DETAIL_TICKS,
            )
            &&& if said(before.detail_of) == Some(row.id@) {
                after.tree == before.tree && after.detail_of == before.detail_of
            } else {
                after.tree.is_fresh() && said(after.detail_of) == Some(row.id@)
            }
            &&& after == (Explorer {
                detail: after.detail,
                tree: after.tree,
                detail_of: after.detail_of,
                ..before
            })
        },
        None => after == before,
    }
}

#[derive(Clone, Copy, PartialEq, Eq, Structural)]
enum DetailTag {
    Agent,
    Team,
    Plan,
    Run,
}

impl DetailTag {
    spec fn of(self, id: Seq<char>) -> TagView {
        match self {
            DetailTag::Agent => TagView::AgentState { id },
            DetailTag::Team => TagView::TeamState { id },
            DetailTag::Plan => TagView::Plan { id },
            DetailTag::Run => TagView::ControlRun { id },
        }
    }

    fn tag(self, id: &str) -> (r: Tag)
        ensures
            r@ == self.of(id@),
    {
        let id = id.to_owned();
        match self {
            DetailTag::Agent => Tag::AgentState { id },
            DetailTag::Team => Tag::TeamState { id },
            DetailTag::Plan => Tag::Plan { id },
            DetailTag::Run => Tag::ControlRun { id },
        }
    }
}

/// Asks for the detail of the row under the cursor, if it is due.
fn ask_detail(
    explorer: &mut Explorer,
    queue: &mut Queue,
    hello: &Hello,
    kind: DetailTag,
    method: &str,
    ticks: u64,
)
    requires
        old(queue).wf(),
        ticks + DETAIL_TICKS <= u64::MAX,
    ensures
        final(queue).wf(),
        final(queue)@ == detail_queue(
            old(queue)@,
            *old(explorer),
            ticks,
            *hello,
            |id: Seq<char>| kind.of(id),
            method@,
        ),
        detail_asked(*old(explorer), *final(explorer), ticks, *hello, method@),
{
    let id = match explorer.current() {
        Some(row) => row.id.clone(),
        None => {
            return;
        },
    };
    explorer.follow(id.as_str());
    let tag = kind.tag(id.as_str());
    ask(
        &mut explorer.detail,
        queue,
        hello,
        tag,
        method,
        by_id(id.as_str()),
        ticks,
        DETAIL_TICKS,
    );
}

impl App {
    /// No session is watched twice, no question is outstanding twice, and the clock has room.
    pub open spec fn wf(&self) -> bool {
        &&& self.sessions.wf()
        &&& self.queue.wf()
        &&& self.cursors.wf()
        &&& self.ticks <= TICK_CEILING
    }

    pub fn new(mode: Mode, address: String, hello: Hello) -> (r: App)
        ensures
            r.wf(),
            r.mode == mode,
            r.address == address,
            r.hello == hello,
            r.connection is Live,
            r.tab == Tab::Sessions,
            r.ticks == 0,
            r.account == Loadable::<AccountState>::blank(),
            r.status == Loadable::<RuntimeStatus>::blank(),
            r.providers == Loadable::<Vec<ProviderEntry>>::blank(),
            r.models == Loadable::<Json>::blank(),
            r.sessions.is_fresh(),
            r.agents.is_fresh() && r.teams.is_fresh() && r.plans.is_fresh() && r.control.is_fresh(),
            !r.plans_on_control,
            r.upgrade.is_fresh(),
            r.log_scroll == 0,
            r.devices.is_fresh(),
            r.overlay is None && r.notice is None && r.quit is None,
            r.cursors@ == Map::<(Plane, Seq<char>), u64>::empty(),
            r.launch_dir is None,
            r.config.is_blank(),
            r.home_draft.blank() && !r.home_pending && r.home_error is None,
            r.queue@ == (QueueView { outbound: Seq::empty(), in_flight: Set::empty() }),
            r.dropped_seen == 0 && !r.save_pending,
            r.first_message is None && r.home_login_start is None && r.open_url_pending is None,
            r.pending_background_start is None,
            !r.plan_options_refused && !r.delegating && !r.machines_open,
            r.fleet_profile is None && r.desktop_restored_draft is None,
            r.submissions == 0,
            r.leader_until is None && r.backtrack_arm is None,
            r.errands@.len() == 0,
    {
        App {
            mode,
            address,
            hello,
            connection: Connection::Live,
            tab: Tab::Sessions,
            ticks: 0,
            account: Loadable::default(),
            status: Loadable::default(),
            providers: Loadable::default(),
            models: Loadable::default(),
            sessions: SessionsTab::new(),
            agents: Explorer::default(),
            teams: Explorer::default(),
            plans: Explorer::default(),
            control: Explorer::default(),
            plans_on_control: false,
            upgrade: UpgradeTab::default(),
            log_scroll: 0,
            devices: DevicesState::default(),
            overlay: None,
            notice: None,
            quit: None,
            cursors: Cursors::new(),
            launch_dir: None,
            config: Config::new(),
            home_draft: Draft::new(),
            home_pending: false,
            home_error: None,
            queue: Queue::new(),
            dropped_seen: 0,
            save_pending: false,
            first_message: None,
            home_login_start: None,
            pending_background_start: None,
            open_url_pending: None,
            plan_options_refused: false,
            delegating: false,
            fleet_profile: None,
            machines_open: false,
            desktop_restored_draft: None,
            submissions: 0,
            leader_until: None,
            backtrack_arm: None,
            errands: Vec::new(),
        }
    }

    // ----- notices ------------------------------------------------------------------

    /// The notice the client shows now.
    pub open spec fn says(&self, text: Seq<char>, kind: NoticeKind) -> bool {
        &&& self.notice is Some
        &&& self.notice->0.text@ == text
        &&& self.notice->0.kind == kind
        &&& self.notice->0.until == self.ticks + NOTICE_TICKS
    }

    pub fn inform(&mut self, text: String, kind: NoticeKind)
        requires
            old(self).ticks <= TICK_CEILING,
        ensures
            final(self).says(text@, kind),
            *final(self) == (App { notice: final(self).notice, ..*old(self) }),
    {
        self.notice = Some(Notice { text, kind, until: self.ticks + NOTICE_TICKS });
    }

    /// A notice goes when its time has come.
    pub fn expire_notice(&mut self)
        ensures
            *final(self) == (App {
                notice: match old(self).notice {
                    Some(notice) => if old(self).ticks >= notice.until {
                        None
                    } else {
                        old(self).notice
                    },
                    None => None,
                },
                ..*old(self)
            }),
    {
        let over = match &self.notice {
            Some(notice) => self.ticks >= notice.until,
            None => false,
        };
        if over {
            self.notice = None;
        }
    }

    // ----- the panels of a tab --------------------------------------------------------

    /// What the visible tab asks for, after the account.
    pub open spec fn tab_queue(&self, queue: QueueView) -> QueueView {
        let (t, hello) = (self.ticks, self.hello);
        match self.tab {
            Tab::Dashboard => asked_queue(
                asked_queue(
                    queue,
                    self.status.is_due(t),
                    hello.lists("runtime.status"@),
                    plain_call(TagView::Status, "runtime.status"@, no_params()),
                ),
                self.providers.is_due(t),
                hello.lists("runtime.providers"@),
                plain_call(TagView::Providers, "runtime.providers"@, no_params()),
            ),
            Tab::Sessions => asked_queue(
                asked_queue(
                    queue,
                    self.sessions.interactive.is_due(t),
                    hello.lists("interactive.list"@),
                    plain_call(
                        TagView::Sessions { plane: Plane::Interactive },
                        "interactive.list"@,
                        no_params(),
                    ),
                ),
                self.sessions.coding.is_due(t),
                hello.lists("coding.list"@),
                plain_call(TagView::Sessions { plane: Plane::Coding }, "coding.list"@, no_params()),
            ),
            Tab::Agents => detail_queue(
                asked_queue(
                    queue,
                    self.agents.rows.is_due(t),
                    hello.lists("agents.list"@),
                    plain_call(TagView::Agents, "agents.list"@, no_params()),
                ),
                self.agents,
                t,
                hello,
                |id: Seq<char>| TagView::AgentState { id },
                "agents.state"@,
            ),
            Tab::Teams => detail_queue(
                asked_queue(
                    queue,
                    self.teams.rows.is_due(t),
                    hello.lists("teams.list"@),
                    plain_call(TagView::Teams, "teams.list"@, no_params()),
                ),
                self.teams,
                t,
                hello,
                |id: Seq<char>| TagView::TeamState { id },
                "teams.state"@,
            ),
            Tab::Plans => detail_queue(
                detail_queue(
                    asked_queue(
                        asked_queue(
                            queue,
                            self.plans.rows.is_due(t),
                            hello.lists("plans.list"@),
                            plain_call(TagView::Plans, "plans.list"@, no_params()),
                        ),
                        self.control.rows.is_due(t),
                        hello.lists("control.list"@),
                        plain_call(TagView::ControlRuns, "control.list"@, no_params()),
                    ),
                    self.plans,
                    t,
                    hello,
                    |id: Seq<char>| TagView::Plan { id },
                    "plans.get"@,
                ),
                self.control,
                t,
                hello,
                |id: Seq<char>| TagView::ControlRun { id },
                "control.get"@,
            ),
            Tab::Upgrade => self.section_queue(
                asked_queue(
                    asked_queue(
                        queue,
                        self.upgrade.status.is_due(t),
                        hello.lists("upgrade.status"@),
                        plain_call(TagView::UpgradeStatus, "upgrade.status"@, no_params()),
                    ),
                    self.upgrade.rollouts.is_due(t),
                    hello.lists("upgrade.rollouts"@),
                    plain_call(TagView::Rollouts, "upgrade.rollouts"@, no_params()),
                ),
            ),
            Tab::Logs => queue,
        }
    }

    /// The call of the upgrade section under the cursor, where it needs one of its own.
    pub open spec fn section_call(&self) -> Option<CallView> {
        match self.upgrade.chosen() {
            UpgradeSection::Status | UpgradeSection::Rollouts => None,
            UpgradeSection::History => match self.upgrade.history_module {
                Some(module) => Some(
                    plain_call(
                        TagView::History { module: module@ },
                        "upgrade.history"@,
                        JsonView::Object(seq![text_param("module"@, module@)]),
                    ),
                ),
                None => None,
            },
            UpgradeSection::Signing => Some(
                plain_call(TagView::Signing, "signing.decisions"@, no_params()),
            ),
            UpgradeSection::Grants => match self.upgrade.grants_principal {
                Some(principal) => Some(
                    plain_call(
                        TagView::Grants { principal: principal@ },
                        "grants.list"@,
                        JsonView::Object(seq![text_param("principal"@, principal@)]),
                    ),
                ),
                None => None,
            },
        }
    }

    pub open spec fn section_queue(&self, queue: QueueView) -> QueueView {
        match self.section_call() {
            Some(call) => asked_queue(
                queue,
                self.upgrade.panel_of(self.upgrade.chosen()).is_due(self.ticks),
                self.hello.lists(call.method),
                call,
            ),
            None => queue,
        }
    }

    pub open spec fn section_asked(&self, after: UpgradeTab) -> bool {
        let section = self.upgrade.chosen();
        match self.section_call() {
            Some(call) => {
                &&& asked(
                    self.upgrade.panel_of(section),
                    after.panel_of(section),
                    self.ticks,
                    self.hello.lists(call.method),
                    call.method,
                    UPGRADE_TICKS,
                )
                &&& after == self.upgrade.with_panel(section, after.panel_of(section))
            },
            None => after == self.upgrade,
        }
    }

    pub open spec fn account_call() -> CallView {
        plain_call(TagView::Account, "account.read"@, no_params())
    }

    /// What asking for everything that is due does to the queue.
    pub open spec fn polled_queue(&self) -> QueueView {
        let account = asked_queue(
            self.queue@,
            self.account.is_due(self.ticks),
            self.hello.lists("account.read"@),
            App::account_call(),
        );
        self.tab_queue(
            if self.panel_polled() {
                asked_queue(
                    account,
                    self.status.is_due(self.ticks),
                    self.hello.lists("runtime.status"@),
                    plain_call(TagView::Status, "runtime.status"@, no_params()),
                )
            } else {
                account
            },
        )
    }

    /// The panel of machines keeps the runtime's status fresh. The dashboard does so by itself.
    pub open spec fn panel_polled(&self) -> bool {
        self.machines_open && self.tab != Tab::Dashboard
    }

    /// The panels of the visible tab that were due have been asked for, and nothing but those and
    /// the queue has changed.
    pub open spec fn tab_polled(&self, after: App) -> bool {
        let (t, hello) = (self.ticks, self.hello);
        match self.tab {
            Tab::Dashboard => {
                &&& asked(
                    self.status,
                    after.status,
                    t,
                    hello.lists("runtime.status"@),
                    "runtime.status"@,
                    STATUS_TICKS,
                )
                &&& asked(
                    self.providers,
                    after.providers,
                    t,
                    hello.lists("runtime.providers"@),
                    "runtime.providers"@,
                    PROVIDER_TICKS,
                )
                &&& after == (App {
                    queue: after.queue,
                    status: after.status,
                    providers: after.providers,
                    ..*self
                })
            },
            Tab::Sessions => {
                &&& asked(
                    self.sessions.interactive,
                    after.sessions.interactive,
                    t,
                    hello.lists("interactive.list"@),
                    "interactive.list"@,
                    LIST_TICKS,
                )
                &&& asked(
                    self.sessions.coding,
                    after.sessions.coding,
                    t,
                    hello.lists("coding.list"@),
                    "coding.list"@,
                    LIST_TICKS,
                )
                &&& after == (App {
                    queue: after.queue,
                    sessions: SessionsTab {
                        interactive: after.sessions.interactive,
                        coding: after.sessions.coding,
                        ..self.sessions
                    },
                    ..*self
                })
            },
            Tab::Agents => {
                &&& App::list_polled(
                    self.agents,
                    after.agents,
                    t,
                    hello,
                    "agents.list"@,
                    "agents.state"@,
                )
                &&& after == (App {
                    queue: after.queue,
                    agents: after.agents,
                    ..*self
                })
            },
            Tab::Teams => {
                &&& App::list_polled(
                    self.teams,
                    after.teams,
                    t,
                    hello,
                    "teams.list"@,
                    "teams.state"@,
                )
                &&& after == (App {
                    queue: after.queue,
                    teams: after.teams,
                    ..*self
                })
            },
            Tab::Plans => {
                &&& App::list_polled(self.plans, after.plans, t, hello, "plans.list"@, "plans.get"@)
                &&& App::list_polled(
                    self.control,
                    after.control,
                    t,
                    hello,
                    "control.list"@,
                    "control.get"@,
                )
                &&& after == (App {
                    queue: after.queue,
                    plans: after.plans,
                    control: after.control,
                    ..*self
                })
            },
            Tab::Upgrade => {
                &&& asked(
                    self.upgrade.status,
                    after.upgrade.status,
                    t,
                    hello.lists("upgrade.status"@),
                    "upgrade.status"@,
                    UPGRADE_TICKS,
                )
                &&& asked(
                    self.upgrade.rollouts,
                    after.upgrade.rollouts,
                    t,
                    hello.lists("upgrade.rollouts"@),
                    "upgrade.rollouts"@,
                    UPGRADE_TICKS,
                )
                &&& self.section_asked(
                    (UpgradeTab {
                        status: self.upgrade.status,
                        rollouts: self.upgrade.rollouts,
                        ..after.upgrade
                    }),
                )
                &&& after == (App {
                    queue: after.queue,
                    upgrade: after.upgrade,
                    ..*self
                })
            },
            Tab::Logs => after == (App { queue: after.queue, ..*self }),
        }
    }

    /// Everything that was due has been asked for: the account, the status behind an open panel of
    /// machines, and the visible tab.
    pub open spec fn polled(&self, after: App) -> bool {
        &&& after.queue.wf()
        &&& after.queue@ == self.polled_queue()
        &&& asked(
            self.account,
            after.account,
            self.ticks,
            self.hello.lists("account.read"@),
            "account.read"@,
            ACCOUNT_TICKS,
        )
        &&& if self.panel_polled() {
            &&& asked(
                self.status,
                after.status,
                self.ticks,
                self.hello.lists("runtime.status"@),
                "runtime.status"@,
                STATUS_TICKS,
            )
            &&& (App { account: after.account, status: after.status, ..*self }).tab_polled(after)
        } else {
            (App { account: after.account, ..*self }).tab_polled(after)
        }
    }

    /// The list was asked for, then the detail of the row under the cursor.
    pub open spec fn list_polled(
        before: Explorer,
        after: Explorer,
        ticks: u64,
        hello: Hello,
        list: Seq<char>,
        detail: Seq<char>,
    ) -> bool {
        &&& asked(before.rows, after.rows, ticks, hello.lists(list), list, LIST_TICKS)
        &&& detail_asked(before, (Explorer { rows: before.rows, ..after }), ticks, hello, detail)
    }

    /// What a tab asks for does not depend on what was asked for before it.
    proof fn lemma_tab_polled(start: App, mid: App, after: App)
        requires
            mid.tab_polled(after),
            mid == (App { queue: mid.queue, account: mid.account, status: mid.status, ..start }),
            start.tab == Tab::Dashboard ==> mid.status == start.status,
        ensures
            start.tab_queue(mid.queue@) == mid.tab_queue(mid.queue@),
            after.account == mid.account,
            start.tab != Tab::Dashboard ==> after.status == mid.status,
            (App { account: mid.account, status: mid.status, ..start }).tab_polled(after),
    {
        match start.tab {
            Tab::Dashboard => {},
            Tab::Sessions => {},
            Tab::Agents => {},
            Tab::Teams => {},
            Tab::Plans => {},
            Tab::Upgrade => {},
            Tab::Logs => {},
        }
    }

    /// Asks for everything of the visible tab that is due. Only of that one: a panel nobody looks
    /// at is no reason to keep a runtime answering.
    pub fn poll(&mut self)
        requires
            old(self).wf(),
        ensures
            final(self).wf(),
            old(self).polled(*final(self)),
    {
        let ghost start = *self;
        self.poll_account();
        if self.machines_open && self.tab != Tab::Dashboard {
            self.ask_status();
        }
        let ghost mid = *self;
        self.poll_tab();
        proof {
            App::lemma_tab_polled(start, mid, *self);
        }
    }

    fn poll_account(&mut self)
        requires
            old(self).wf(),
        ensures
            final(self).queue.wf(),
            final(self).queue@ == asked_queue(
                old(self).queue@,
                old(self).account.is_due(old(self).ticks),
                old(self).hello.lists("account.read"@),
                App::account_call(),
            ),
            asked(
                old(self).account,
                final(self).account,
                old(self).ticks,
                old(self).hello.lists("account.read"@),
                "account.read"@,
                ACCOUNT_TICKS,
            ),
            final(self).wf(),
            *final(self) == (App {
                queue: final(self).queue,
                account: final(self).account,
                ..*old(self)
            }),
    {
        let t: u64 = self.ticks;
        ask(
            &mut self.account,
            &mut self.queue,
            &self.hello,
            Tag::Account,
            "account.read",
            nothing(),
            t,
            ACCOUNT_TICKS,
        );
    }

    fn poll_tab(&mut self)
        requires
            old(self).wf(),
        ensures
            final(self).queue.wf(),
            final(self).queue@ == old(self).tab_queue(old(self).queue@),
            old(self).tab_polled(*final(self)),
            final(self).wf(),
    {
        match self.tab {
            Tab::Dashboard => self.poll_dashboard(),
            Tab::Sessions => self.poll_sessions(),
            Tab::Agents => self.poll_agents(),
            Tab::Teams => self.poll_teams(),
            Tab::Plans => self.poll_plans(),
            Tab::Upgrade => self.poll_upgrade(),
            Tab::Logs => {},
        }
    }

    fn poll_dashboard(&mut self)
        requires
            old(self).wf(),
            old(self).tab == Tab::Dashboard,
        ensures
            final(self).queue.wf(),
            final(self).queue@ == old(self).tab_queue(old(self).queue@),
            old(self).tab_polled(*final(self)),
    {
        let t: u64 = self.ticks;
        ask(
            &mut self.status,
            &mut self.queue,
            &self.hello,
            Tag::Status,
            "runtime.status",
            nothing(),
            t,
            STATUS_TICKS,
        );
        ask(
            &mut self.providers,
            &mut self.queue,
            &self.hello,
            Tag::Providers,
            "runtime.providers",
            nothing(),
            t,
            PROVIDER_TICKS,
        );
    }

    /// Both session lists, whichever tab is visible.
    pub open spec fn lists_queue(&self, queue: QueueView) -> QueueView {
        (App { tab: Tab::Sessions, ..*self }).tab_queue(queue)
    }

    pub open spec fn lists_polled(&self, after: App) -> bool {
        (App { tab: Tab::Sessions, ..*self }).tab_polled((App { tab: Tab::Sessions, ..after }))
            && after.tab == self.tab
    }

    fn poll_sessions(&mut self)
        requires
            old(self).wf(),
        ensures
            final(self).queue.wf(),
            final(self).queue@ == old(self).lists_queue(old(self).queue@),
            old(self).lists_polled(*final(self)),
    {
        let t: u64 = self.ticks;
        ask(
            &mut self.sessions.interactive,
            &mut self.queue,
            &self.hello,
            Tag::Sessions { plane: Plane::Interactive },
            "interactive.list",
            nothing(),
            t,
            LIST_TICKS,
        );
        ask(
            &mut self.sessions.coding,
            &mut self.queue,
            &self.hello,
            Tag::Sessions { plane: Plane::Coding },
            "coding.list",
            nothing(),
            t,
            LIST_TICKS,
        );
    }

    fn poll_agents(&mut self)
        requires
            old(self).wf(),
            old(self).tab == Tab::Agents,
        ensures
            final(self).queue.wf(),
            final(self).queue@ == old(self).tab_queue(old(self).queue@),
            old(self).tab_polled(*final(self)),
    {
        let t: u64 = self.ticks;
        ask(
            &mut self.agents.rows,
            &mut self.queue,
            &self.hello,
            Tag::Agents,
            "agents.list",
            nothing(),
            t,
            LIST_TICKS,
        );
        ask_detail(
            &mut self.agents,
            &mut self.queue,
            &self.hello,
            DetailTag::Agent,
            "agents.state",
            t,
        );
    }

    fn poll_teams(&mut self)
        requires
            old(self).wf(),
            old(self).tab == Tab::Teams,
        ensures
            final(self).queue.wf(),
            final(self).queue@ == old(self).tab_queue(old(self).queue@),
            old(self).tab_polled(*final(self)),
    {
        let t: u64 = self.ticks;
        ask(
            &mut self.teams.rows,
            &mut self.queue,
            &self.hello,
            Tag::Teams,
            "teams.list",
            nothing(),
            t,
            LIST_TICKS,
        );
        ask_detail(
            &mut self.teams,
            &mut self.queue,
            &self.hello,
            DetailTag::Team,
            "teams.state",
            t,
        );
    }

    fn poll_plans(&mut self)
        requires
            old(self).wf(),
            old(self).tab == Tab::Plans,
        ensures
            final(self).queue.wf(),
            final(self).queue@ == old(self).tab_queue(old(self).queue@),
            old(self).tab_polled(*final(self)),
    {
        let t: u64 = self.ticks;
        ask(
            &mut self.plans.rows,
            &mut self.queue,
            &self.hello,
            Tag::Plans,
            "plans.list",
            nothing(),
            t,
            LIST_TICKS,
        );
        ask(
            &mut self.control.rows,
            &mut self.queue,
            &self.hello,
            Tag::ControlRuns,
            "control.list",
            nothing(),
            t,
            LIST_TICKS,
        );
        ask_detail(
            &mut self.plans,
            &mut self.queue,
            &self.hello,
            DetailTag::Plan,
            "plans.get",
            t,
        );
        ask_detail(
            &mut self.control,
            &mut self.queue,
            &self.hello,
            DetailTag::Run,
            "control.get",
            t,
        );
    }

    fn poll_upgrade(&mut self)
        requires
            old(self).wf(),
            old(self).tab == Tab::Upgrade,
        ensures
            final(self).queue.wf(),
            final(self).queue@ == old(self).tab_queue(old(self).queue@),
            old(self).tab_polled(*final(self)),
    {
        let t: u64 = self.ticks;
        ask(
            &mut self.upgrade.status,
            &mut self.queue,
            &self.hello,
            Tag::UpgradeStatus,
            "upgrade.status",
            nothing(),
            t,
            UPGRADE_TICKS,
        );
        ask(
            &mut self.upgrade.rollouts,
            &mut self.queue,
            &self.hello,
            Tag::Rollouts,
            "upgrade.rollouts",
            nothing(),
            t,
            UPGRADE_TICKS,
        );
        self.poll_upgrade_section();
    }

    /// Asks for what the upgrade section under the cursor shows, where it is due and named.
    pub fn poll_upgrade_section(&mut self)
        requires
            old(self).wf(),
        ensures
            final(self).wf(),
            final(self).queue@ == old(self).section_queue(old(self).queue@),
            old(self).section_asked(final(self).upgrade),
            *final(self) == (App {
                queue: final(self).queue,
                upgrade: final(self).upgrade,
                ..*old(self)
            }),
    {
        let t: u64 = self.ticks;
        match self.upgrade.current() {
            UpgradeSection::Status | UpgradeSection::Rollouts => {},
            UpgradeSection::History => {
                let module = match &self.upgrade.history_module {
                    Some(module) => module.clone(),
                    None => {
                        return;
                    },
                };
                let params = Params::new().text("module", module.as_str());
                assert(params@ =~= seq![text_param("module"@, module@)]);
                ask(
                    &mut self.upgrade.history,
                    &mut self.queue,
                    &self.hello,
                    Tag::History { module },
                    "upgrade.history",
                    params.done(),
                    t,
                    UPGRADE_TICKS,
                );
            },
            UpgradeSection::Signing => {
                ask(
                    &mut self.upgrade.signing,
                    &mut self.queue,
                    &self.hello,
                    Tag::Signing,
                    "signing.decisions",
                    nothing(),
                    t,
                    UPGRADE_TICKS,
                );
            },
            UpgradeSection::Grants => {
                let principal = match &self.upgrade.grants_principal {
                    Some(principal) => principal.clone(),
                    None => {
                        return;
                    },
                };
                let params = Params::new().text("principal", principal.as_str());
                assert(params@ =~= seq![text_param("principal"@, principal@)]);
                ask(
                    &mut self.upgrade.grants,
                    &mut self.queue,
                    &self.hello,
                    Tag::Grants { principal },
                    "grants.list",
                    params.done(),
                    t,
                    UPGRADE_TICKS,
                );
            },
        }
    }

    /// Every panel of the visible tab is due again.
    pub open spec fn stale(&self) -> App {
        match self.tab {
            Tab::Dashboard => App {
                status: Loadable { next_tick: 0, ..self.status },
                providers: Loadable { next_tick: 0, ..self.providers },
                ..*self
            },
            Tab::Sessions => App { sessions: App::stale_lists(self.sessions), ..*self },
            Tab::Agents => App { agents: App::stale_explorer(self.agents), ..*self },
            Tab::Teams => App { teams: App::stale_explorer(self.teams), ..*self },
            Tab::Plans => App {
                plans: App::stale_explorer(self.plans),
                control: App::stale_explorer(self.control),
                ..*self
            },
            Tab::Upgrade => {
                let upgrade = UpgradeTab {
                    status: Loadable { next_tick: 0, ..self.upgrade.status },
                    rollouts: Loadable { next_tick: 0, ..self.upgrade.rollouts },
                    ..self.upgrade
                };
                let section = self.upgrade.chosen();
                App {
                    upgrade: upgrade.with_panel(
                        section,
                        (Loadable { next_tick: 0, ..self.upgrade.panel_of(section) }),
                    ),
                    ..*self
                }
            },
            Tab::Logs => *self,
        }
    }

    pub open spec fn stale_explorer(explorer: Explorer) -> Explorer {
        Explorer {
            rows: Loadable { next_tick: 0, ..explorer.rows },
            detail: Loadable { next_tick: 0, ..explorer.detail },
            ..explorer
        }
    }

    pub open spec fn stale_lists(sessions: SessionsTab) -> SessionsTab {
        SessionsTab {
            interactive: Loadable { next_tick: 0, ..sessions.interactive },
            coding: Loadable { next_tick: 0, ..sessions.coding },
            ..sessions
        }
    }

    #[verifier::rlimit(60)]
    fn invalidate_tab(&mut self)
        ensures
            *final(self) == old(self).stale(),
    {
        match self.tab {
            Tab::Dashboard => {
                self.status.invalidate();
                self.providers.invalidate();
            },
            Tab::Sessions => {
                self.sessions.interactive.invalidate();
                self.sessions.coding.invalidate();
            },
            Tab::Agents => {
                self.agents.rows.invalidate();
                self.agents.detail.invalidate();
            },
            Tab::Teams => {
                self.teams.rows.invalidate();
                self.teams.detail.invalidate();
            },
            Tab::Plans => {
                self.plans.rows.invalidate();
                self.plans.detail.invalidate();
                self.control.rows.invalidate();
                self.control.detail.invalidate();
            },
            Tab::Upgrade => {
                self.upgrade.status.invalidate();
                self.upgrade.rollouts.invalidate();
                let section = self.upgrade.current();
                self.upgrade.panel_mut(section).invalidate();
            },
            Tab::Logs => {},
        }
    }

    /// Asks for every panel of the visible tab now.
    pub fn refresh(&mut self)
        requires
            old(self).wf(),
        ensures
            final(self).wf(),
            old(self).stale().polled(*final(self)),
    {
        self.invalidate_tab();
        self.poll();
    }

    pub fn select_tab(&mut self, tab: Tab)
        requires
            old(self).wf(),
        ensures
            final(self).wf(),
            (App { tab, ..*old(self) }).polled(*final(self)),
    {
        self.tab = tab;
        self.poll();
    }

    /// Lands on the home, and asks for what it needs: the account and the sessions.
    pub fn open_home(&mut self)
        requires
            old(self).wf(),
        ensures
            final(self).wf(),
            (App { tab: Tab::Sessions, machines_open: false, ..*old(self) }).polled(
                (App { machines_open: false, ..*final(self) }),
            ),
            final(self).machines_open == old(self).machines_open,
    {
        self.tab = Tab::Sessions;
        self.poll_account();
        let ghost mid = *self;
        self.poll_tab();
        proof {
            let start = App { tab: Tab::Sessions, machines_open: false, ..*old(self) };
            let asked = App { machines_open: false, ..mid };
            let done = App { machines_open: false, ..*self };
            assert(asked.tab_polled(done));
            App::lemma_tab_polled(start, asked, done);
        }
    }

    /// Asks for the provider list, where this connection has not got one yet.
    pub open spec fn wants_providers(&self) -> bool {
        self.providers.value is None && !self.providers.pending
    }

    pub open spec fn providers_call() -> CallView {
        plain_call(TagView::Providers, "runtime.providers"@, no_params())
    }

    /// The state after the provider list was asked for.
    pub open spec fn fetched(&self, after: App) -> bool {
        let served = self.hello.lists("runtime.providers"@);
        &&& after.queue.wf()
        &&& after.queue@ == asked_queue(
            self.queue@,
            self.wants_providers(),
            served,
            App::providers_call(),
        )
        &&& if !self.wants_providers() {
            after.providers == self.providers
        } else if served {
            after.providers == (Loadable { pending: true, ..self.providers })
        } else {
            said(after.providers.error) == Some(unserved_words("runtime.providers"@))
                && after.providers == self.providers.after_failure(
                after.providers.error,
                self.ticks,
                PROVIDER_TICKS,
            )
        }
        &&& after == (App { queue: after.queue, providers: after.providers, ..*self })
    }

    /// Asks for the runtime's status, if it is due.
    pub(crate) fn ask_status(&mut self)
        requires
            old(self).wf(),
        ensures
            final(self).wf(),
            final(self).queue@ == asked_queue(
                old(self).queue@,
                old(self).status.is_due(old(self).ticks),
                old(self).hello.lists("runtime.status"@),
                plain_call(TagView::Status, "runtime.status"@, no_params()),
            ),
            asked(
                old(self).status,
                final(self).status,
                old(self).ticks,
                old(self).hello.lists("runtime.status"@),
                "runtime.status"@,
                STATUS_TICKS,
            ),
            *final(self) == (App {
                status: final(self).status,
                queue: final(self).queue,
                ..*old(self)
            }),
    {
        ask(
            &mut self.status,
            &mut self.queue,
            &self.hello,
            Tag::Status,
            "runtime.status",
            nothing(),
            self.ticks,
            STATUS_TICKS,
        );
    }

    pub fn fetch_providers(&mut self)
        requires
            old(self).wf(),
        ensures
            final(self).wf(),
            old(self).fetched(*final(self)),
    {
        if self.providers.value.is_some() || self.providers.pending {
            return;
        }
        if !self.hello.serves("runtime.providers") {
            self.queue.answered(&Tag::Providers);
            let t: u64 = self.ticks;
            self.providers.failed(
                cat2("this gateway does not serve ", "runtime.providers"),
                t,
                PROVIDER_TICKS,
            );
            return;
        }
        self.providers.started();
        self.queue.put(Call::new(Tag::Providers, "runtime.providers", nothing()));
    }

    // ----- what the driver takes --------------------------------------------------------

    pub fn take_open_url(&mut self) -> (r: Option<String>)
        ensures
            r == old(self).open_url_pending,
            *final(self) == (App { open_url_pending: None, ..*old(self) }),
    {
        let mut out: Option<String> = None;
        std::mem::swap(&mut self.open_url_pending, &mut out);
        out
    }

    /// The preferences to write, once for each time they changed.
    pub fn take_config_save(&mut self) -> (r: Option<Config>)
        ensures
            r is Some <==> old(self).save_pending,
            r is Some ==> r->0.same_as(old(self).config),
            *final(self) == (App { save_pending: false, ..*old(self) }),
    {
        if !self.save_pending {
            return None;
        }
        self.save_pending = false;
        Some(self.config.copy())
    }

    /// Everything to be sent, in order.
    pub fn drain(&mut self) -> (r: Vec<Call>)
        ensures
            crate::tags::calls(r@) == old(self).queue@.outbound,
            final(self).queue@ == (QueueView { outbound: Seq::empty(), ..old(self).queue@ }),
            final(self).queue.in_flight == old(self).queue.in_flight,
            *final(self) == (App { queue: final(self).queue, ..*old(self) }),
    {
        self.queue.drain()
    }

    pub fn has_outbound(&self) -> (r: bool)
        ensures
            r == (self.queue@.outbound.len() > 0),
    {
        self.queue.has_outbound()
    }

    /// A question is still outstanding.
    pub fn busy(&self) -> (r: bool)
        ensures
            r == !(self.queue@.in_flight =~= Set::empty()),
    {
        self.queue.busy()
    }

    pub fn spawned(&self) -> (r: bool)
        ensures
            r == (self.mode is Spawned),
    {
        matches!(self.mode, Mode::Spawned { .. })
    }

    // ----- the account ------------------------------------------------------------------

    pub open spec fn is_connected(&self) -> bool {
        self.account.value is Some && self.account.value->0.connected
    }

    pub fn chatgpt_connected(&self) -> (r: bool)
        ensures
            r == self.is_connected(),
    {
        match &self.account.value {
            Some(account) => account.connected,
            None => false,
        }
    }

    pub open spec fn is_usable(&self) -> bool {
        self.account.value is Some && self.account.value->0.usable
    }

    pub fn codex_usable(&self) -> (r: bool)
        ensures
            r == self.is_usable(),
    {
        match &self.account.value {
            Some(account) => account.usable,
            None => false,
        }
    }

    /// The account has been answered for, with a state or with a refusal.
    pub fn account_resolved(&self) -> (r: bool)
        ensures
            r == (self.account.value is Some || self.account.error is Some),
    {
        self.account.value.is_some() || self.account.error.is_some()
    }

    // ----- the home ---------------------------------------------------------------------

    pub open spec fn provider(&self) -> Seq<char> {
        match self.config.provider {
            Some(provider) => provider@,
            None => "codex"@,
        }
    }

    pub fn home_provider(&self) -> (r: &str)
        ensures
            r@ == self.provider(),
    {
        match &self.config.provider {
            Some(provider) => provider.as_str(),
            None => "codex",
        }
    }

    /// The home's provider can start now. One has a managed account in front of it; the others
    /// own their own sign-in.
    pub fn home_ready(&self) -> (r: bool)
        ensures
            r == (self.provider() != "codex"@ || self.is_connected()),
    {
        !same(self.home_provider(), "codex") || self.chatgpt_connected()
    }

    pub open spec fn workspace(&self) -> Seq<char> {
        match self.config.workspace {
            Some(workspace) => workspace@,
            None => match self.launch_dir {
                Some(dir) => dir@,
                None => Seq::empty(),
            },
        }
    }

    /// The workspace a form starts from: a stored one first, then where this client was started.
    pub fn default_workspace(&self) -> (r: String)
        ensures
            r@ == self.workspace(),
    {
        match &self.config.workspace {
            Some(workspace) => workspace.clone(),
            None => match &self.launch_dir {
                Some(dir) => dir.clone(),
                None => String::new(),
            },
        }
    }

    pub fn home_workspace(&self) -> (r: String)
        ensures
            r@ == self.workspace(),
    {
        self.default_workspace()
    }

    /// The gateway can be asked to shut the runtime down.
    pub fn shutdown_served(&self) -> (r: bool)
        ensures
            r == (self.hello.lists("runtime.shutdown"@) && self.hello.can_operate()),
    {
        self.hello.serves("runtime.shutdown") && self.hello.operates()
    }
}

// ----- laws -------------------------------------------------------------------------

/// Asking for a panel never blanks it: the last good value stays until another replaces it.
pub proof fn lemma_asking_keeps_the_last_value<T>(
    before: Loadable<T>,
    after: Loadable<T>,
    ticks: u64,
    served: bool,
    method: Seq<char>,
    cadence: u64,
)
    requires
        asked(before, after, ticks, served, method, cadence),
    ensures
        after.value == before.value,
{
}

/// Only what is visible is asked for: what another tab shows is left as it is, but for the status
/// behind an open panel of machines, and so is the dialog that is open.
pub proof fn lemma_only_the_visible_tab_is_polled(before: App, after: App)
    requires
        before.polled(after),
    ensures
        after.tab == before.tab,
        before.tab != Tab::Dashboard && !before.machines_open ==> after.status == before.status,
        before.tab != Tab::Dashboard ==> after.providers == before.providers,
        before.tab != Tab::Sessions ==> after.sessions == before.sessions,
        before.tab != Tab::Agents ==> after.agents == before.agents,
        before.tab != Tab::Teams ==> after.teams == before.teams,
        before.tab != Tab::Plans ==> after.plans == before.plans && after.control
            == before.control,
        before.tab != Tab::Upgrade ==> after.upgrade == before.upgrade,
        after.overlay == before.overlay,
        after.quit == before.quit,
{
}

/// An open panel of machines is kept fresh from every tab: once the status is due, a poll asks for
/// it.
pub proof fn lemma_an_open_panel_is_polled(before: App, after: App)
    requires
        before.machines_open,
        before.polled(after),
        before.status.is_due(before.ticks),
        before.hello.lists("runtime.status"@),
    ensures
        after.status.pending,
{
}

} // verus!
