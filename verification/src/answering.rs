//! An answer comes in.

use vstd::prelude::*;

use crate::answers::{failed_words, plan_refusal, plan_words, sandbox_refusal, sandbox_words, Failure,
    Reply};
use crate::app::{App, Connection, Errand, NoticeKind};
use crate::json::{Json, JsonView};
use crate::model::Plane;
use crate::replies::{accepted_words, Turn};
use crate::sessions::{is_key, key_of, watch_at, watched, SessionsTab};
use crate::stream::Replay;
use crate::tags::{Call, Tag, TagView};
use crate::text::{cat2, cat3, cat4, cat5, decimal, number, said, same};
use crate::wire::{ClientError, ErrorCode};

verus! {

/// The verbs whose answer is shown as it came.
pub open spec fn shows_answer(tag: Tag) -> bool {
    match tag {
        Tag::Compact { .. }
        | Tag::Handoff { .. }
        | Tag::Context { .. }
        | Tag::RewindPoints { .. }
        | Tag::Rewind { .. }
        | Tag::Shell { .. }
        | Tag::Delegations { .. }
        | Tag::Artifact { .. }
        | Tag::McpList { .. }
        | Tag::EventDetail { .. } => true,
        _ => false,
    }
}

/// The actions whose answer is shown as it came.
pub open spec fn is_capability(label: Seq<char>) -> bool {
    label == "preview"@ || label == "admit"@ || label == "list capabilities"@
}

fn capability(label: &str) -> (r: bool)
    ensures
        r == is_capability(label@),
{
    same(label, "preview") || same(label, "admit") || same(label, "list capabilities")
}

pub open spec fn control_id(value: JsonView) -> Seq<char> {
    match value.member("id"@) {
        Some(id) => id.brief(),
        None => "unknown"@,
    }
}

pub open spec fn plan_mode_words(id: Seq<char>, want: bool) -> Seq<char> {
    if want {
        id + " is planning; it will not edit anything"@
    } else {
        id + " has left plan mode"@
    }
}

/// What is wrong with the reference a start was answered with.
pub open spec fn start_mismatch(asked: Option<Seq<char>>, started: Option<Seq<char>>, written: Seq<char>) -> Option<
    Seq<char>,
> {
    match started {
        Some(started) => match asked {
            Some(asked) => if asked == started {
                None
            } else {
                Some(
                    "the runtime answered start id "@ + started + " for retry id "@ + asked
                        + "; both identities must be inspected before another start"@,
                )
            },
            None => None,
        },
        None => Some(
            "the runtime started a session but answered a reference this build cannot read: "@
                + written,
        ),
    }
}

impl App {
    // ----- verbs that were accepted ---------------------------------------------------

    /// A notice and errands, and nothing else.
    pub open spec fn told(
        &self,
        after: App,
        words: Seq<char>,
        kind: NoticeKind,
        errands: Seq<Errand>,
    ) -> bool {
        &&& after.says(words, kind)
        &&& after.errands@ == self.errands@ + errands
        &&& after == (App { notice: after.notice, errands: after.errands, ..*self })
    }

    /// An action was accepted.
    pub open spec fn action_accepted(&self, after: App, tag: Tag, value: Json) -> bool {
        match tag {
            Tag::Action { label, plane, id, .. } => if is_capability(label@) {
                self.handed(after, Errand::Show { tag, value })
            } else if label@ == "remove"@ {
                self.handed(after, Errand::Removed { plane, id })
            } else {
                self.told(
                    after,
                    accepted_words(label@, id@),
                    NoticeKind::Info,
                    seq![Errand::RefreshSessions, Errand::ResumePicker],
                )
            },
            _ => after == *self,
        }
    }

    fn accept_action(&mut self, tag: Tag, value: Json)
        requires
            old(self).wf(),
            tag is Action,
        ensures
            final(self).wf(),
            old(self).action_accepted(*final(self), tag, value),
    {
        let shows = match &tag {
            Tag::Action { label, .. } => capability(label),
            _ => false,
        };
        if shows {
            self.hand(Errand::Show { tag, value });
            return;
        }
        if let Tag::Action { label, plane, id, turn_id: _ } = tag {
            if same(label, "remove") {
                self.hand(Errand::Removed { plane, id });
            } else {
                let ghost before = self.errands@;
                self.inform(cat3(label, " accepted for ", id.as_str()), NoticeKind::Info);
                self.hand(Errand::RefreshSessions);
                self.hand(Errand::ResumePicker);
                assert(self.errands@ =~= before + seq![
                    Errand::RefreshSessions,
                    Errand::ResumePicker,
                ]);
            }
        }
    }

    /// The control runs will be asked for again at once.
    pub open spec fn control_stale(&self, after: App, words: Seq<char>) -> bool {
        &&& after.says(words, NoticeKind::Info)
        &&& after == (App {
            notice: after.notice,
            control: App::stale_explorer(self.control),
            ..*self
        })
    }

    fn control_changed(&mut self, words: String)
        requires
            old(self).wf(),
        ensures
            final(self).wf(),
            old(self).control_stale(*final(self), words@),
    {
        self.inform(words, NoticeKind::Info);
        self.control.rows.invalidate();
        self.control.detail.invalidate();
    }

    /// A verb that only has to be said was accepted.
    pub open spec fn verb_accepted(&self, after: App, tag: Tag, value: Json) -> bool {
        match tag {
            Tag::Delegate { .. } => (App { delegating: false, ..*self }).handed(
                after,
                Errand::Show { tag, value },
            ),
            Tag::Action { .. } => self.action_accepted(after, tag, value),
            Tag::ControlSubmit => self.control_stale(
                after,
                "control run "@ + control_id(value@) + " submitted"@,
            ),
            Tag::ControlCancel { id } => self.control_stale(
                after,
                "cancel accepted for control run "@ + id@,
            ),
            Tag::PermissionRule { pattern } => self.noticed(
                after,
                "saved the workspace rule "@ + pattern@
                    + " \u{2014} this will not be asked again"@,
                NoticeKind::Info,
            ),
            Tag::Approval { id, .. } => self.noticed(
                after,
                "approval response accepted for "@ + id@,
                NoticeKind::Info,
            ),
            Tag::PlanExit { id, choice, .. } => self.noticed(
                after,
                "plan exit answered "@ + choice@ + " for "@ + id@,
                NoticeKind::Info,
            ),
            Tag::PlanMode { id, want, .. } => self.told(
                after,
                plan_mode_words(id@, want),
                NoticeKind::Info,
                seq![Errand::RefreshSessions],
            ),
            Tag::SandboxMode { id, label, meaning, warns, .. } => self.told(
                after,
                id@ + " is on "@ + label@ + " \u{2014} "@ + meaning@,
                if warns {
                    NoticeKind::Warn
                } else {
                    NoticeKind::Info
                },
                seq![Errand::RefreshSessions],
            ),
            // A transcript that is no longer open has no use for one of its events.
            Tag::EventDetail { plane, id, .. } => if key_of(self.sessions.open) == Some(
                (plane, id@),
            ) {
                self.handed(after, Errand::Show { tag, value })
            } else {
                self.detail_dropped(after, tag)
            },
            _ => if shows_answer(tag) {
                self.handed(after, Errand::Show { tag, value })
            } else {
                after == *self
            },
        }
    }

    /// Whoever waits for an event is told that none comes.
    pub open spec fn detail_dropped(&self, after: App, tag: Tag) -> bool {
        exists|errand: Errand|
            {
                &&& #[trigger] self.handed(after, errand)
                &&& errand matches Errand::Refused { tag: t, words }
                &&& t == tag && words@.len() == 0
            }
    }

    fn take_event_detail(&mut self, tag: Tag, value: Json)
        requires
            old(self).wf(),
            tag is EventDetail,
        ensures
            final(self).wf(),
            old(self).verb_accepted(*final(self), tag, value),
    {
        let open = match &tag {
            Tag::EventDetail { plane, id, .. } => is_key(
                &self.sessions.open,
                *plane,
                id.as_str(),
            ),
            _ => false,
        };
        if open {
            self.hand(Errand::Show { tag, value });
        } else {
            let ghost start = *self;
            let errand = Errand::Refused { tag, words: String::new() };
            self.hand(errand);
            assert(start.handed(*self, errand));
        }
    }

    fn tell_and_refresh(&mut self, words: String, kind: NoticeKind)
        requires
            old(self).wf(),
        ensures
            final(self).wf(),
            old(self).told(*final(self), words@, kind, seq![Errand::RefreshSessions]),
    {
        let ghost before = self.errands@;
        self.inform(words, kind);
        self.hand(Errand::RefreshSessions);
        assert(self.errands@ =~= before + seq![Errand::RefreshSessions]);
    }

    fn accept_verb(&mut self, tag: Tag, value: Json)
        requires
            old(self).wf(),
        ensures
            final(self).wf(),
            old(self).verb_accepted(*final(self), tag, value),
    {
        match &tag {
            Tag::Delegate { .. } => {
                self.delegating = false;
                self.hand(Errand::Show { tag, value });
            },
            Tag::Action { .. } => self.accept_action(tag, value),
            Tag::ControlSubmit => {
                let id = match value.get("id") {
                    Some(id) => id.in_brief(),
                    None => "unknown".to_owned(),
                };
                self.control_changed(cat3("control run ", id.as_str(), " submitted"));
            },
            Tag::ControlCancel { id } => {
                self.control_changed(cat2("cancel accepted for control run ", id.as_str()));
            },
            Tag::PermissionRule { pattern } => {
                self.inform(
                    cat3(
                        "saved the workspace rule ",
                        pattern.as_str(),
                        " \u{2014} this will not be asked again",
                    ),
                    NoticeKind::Info,
                );
            },
            Tag::Approval { id, .. } => {
                self.inform(
                    cat2("approval response accepted for ", id.as_str()),
                    NoticeKind::Info,
                );
            },
            Tag::PlanExit { id, choice, .. } => {
                self.inform(
                    cat4("plan exit answered ", choice.as_str(), " for ", id.as_str()),
                    NoticeKind::Info,
                );
            },
            Tag::PlanMode { id, want, .. } => {
                let words = if *want {
                    cat2(id.as_str(), " is planning; it will not edit anything")
                } else {
                    cat2(id.as_str(), " has left plan mode")
                };
                self.tell_and_refresh(words, NoticeKind::Info);
            },
            Tag::SandboxMode { id, label, meaning, warns, .. } => {
                let words = cat5(
                    id.as_str(),
                    " is on ",
                    label.as_str(),
                    " \u{2014} ",
                    meaning.as_str(),
                );
                self.tell_and_refresh(
                    words,
                    if *warns {
                        NoticeKind::Warn
                    } else {
                        NoticeKind::Info
                    },
                );
            },
            Tag::Compact { .. }
            | Tag::Handoff { .. }
            | Tag::Context { .. }
            | Tag::RewindPoints { .. }
            | Tag::Rewind { .. }
            | Tag::Shell { .. }
            | Tag::Delegations { .. }
            | Tag::Artifact { .. }
            | Tag::McpList { .. } => self.hand(Errand::Show { tag, value }),
            Tag::EventDetail { .. } => self.take_event_detail(tag, value),
            _ => {},
        }
    }

    // ----- starts ---------------------------------------------------------------------

    /// A start was answered.
    pub open spec fn start_answered(
        &self,
        after: App,
        plane: Plane,
        asked: Option<Seq<char>>,
        started: Option<Seq<char>>,
        written: Seq<char>,
    ) -> bool {
        match start_mismatch(asked, started, written) {
            None => self.background_settled(asked).session_started(after, plane, started->0),
            Some(words) => self.start_refused(
                after,
                asked,
                true,
                "the server sent something unreadable: "@ + words,
            ),
        }
    }

    /// A start that ran beside the home is settled once its session is known.
    pub open spec fn background_settled(&self, asked: Option<Seq<char>>) -> App {
        App {
            pending_background_start: match self.pending_background_start {
                Some(request) => if asked == Some(request.id@) {
                    None
                } else {
                    self.pending_background_start
                },
                None => None,
            },
            ..*self
        }
    }

    fn settle_background(&mut self, asked: &Option<String>)
        requires
            old(self).wf(),
        ensures
            final(self).wf(),
            *final(self) == old(self).background_settled(said(*asked)),
    {
        let settled = match (&self.pending_background_start, asked) {
            (Some(request), Some(asked)) => same(request.id.as_str(), asked.as_str()),
            _ => false,
        };
        if settled {
            self.pending_background_start = None;
        }
    }

    fn bad_start(&mut self, asked: &Option<String>, words: String)
        requires
            old(self).wf(),
        ensures
            final(self).wf(),
            old(self).start_refused(
                *final(self),
                said(*asked),
                true,
                "the server sent something unreadable: "@ + words@,
            ),
    {
        let error = ClientError::BadJson(words);
        self.start_failed(asked, true, error.message());
    }

    fn answer_start(
        &mut self,
        plane: Plane,
        asked: &Option<String>,
        started: &Option<String>,
        written: &str,
    )
        requires
            old(self).wf(),
        ensures
            final(self).wf(),
            old(self).start_answered(
                *final(self),
                plane,
                said(*asked),
                said(*started),
                written@,
            ),
    {
        match started {
            Some(started) => {
                if let Some(wanted) = asked {
                    if !same(wanted.as_str(), started.as_str()) {
                        let head = cat4(
                            "the runtime answered start id ",
                            started.as_str(),
                            " for retry id ",
                            wanted.as_str(),
                        );
                        self.bad_start(
                            asked,
                            cat2(
                                head.as_str(),
                                "; both identities must be inspected before another start",
                            ),
                        );
                        return;
                    }
                }
                self.settle_background(asked);
                self.started(plane, started.as_str());
            },
            None => {
                self.bad_start(
                    asked,
                    cat2(
                        "the runtime started a session but answered a reference this build cannot read: ",
                        written,
                    ),
                );
            },
        }
    }

    // ----- accepted -------------------------------------------------------------------

    /// The sign-out went through.
    pub open spec fn signed_out(&self, after: App, words: Seq<char>, kind: NoticeKind) -> bool {
        exists|read: App|
            #[trigger] self.account_stale().polled(read) && read.noticed(after, words, kind)
    }

    fn sign_out(&mut self, words: String, kind: NoticeKind)
        requires
            old(self).wf(),
        ensures
            final(self).wf(),
            old(self).signed_out(*final(self), words@, kind),
    {
        let ghost start = *self;
        self.reread_account();
        let ghost read = *self;
        self.inform(words, kind);
        assert(start.account_stale().polled(read) && read.noticed(*self, words@, kind));
    }

    /// A question was answered with a reply.
    pub open spec fn accepted(&self, after: App, tag: Tag, reply: Reply) -> bool {
        match (tag, reply) {
            (Tag::AccountLogin, Reply::Plain(value)) => self.login_answered(after, Ok(value)),
            (Tag::AccountCancel, _) => self.account_stale().polled(after),
            (Tag::AccountLogout, _) => self.signed_out(
                after,
                "ChatGPT was disconnected"@,
                NoticeKind::Info,
            ),
            (Tag::Resync { plane, id, cursor, subscribe }, Reply::Replay(replay)) =>
                self.resync_settled(after, plane, id@, cursor, subscribe, replay),
            (
                Tag::ComposerAction {
                    label,
                    verb,
                    plane,
                    id,
                    turn_id,
                    input,
                    reconciling,
                    submission_sequence,
                },
                Reply::Turn { reply, busy, diagnostic },
            ) => self.turn_replied(
                after,
                (Turn {
                    label,
                    verb,
                    plane,
                    id,
                    turn_id,
                    input,
                    reconciling,
                    submission_sequence,
                }),
                reply,
                busy,
                diagnostic@,
            ),
            (
                Tag::FirstMessage { plane, id, turn_id, input, .. },
                Reply::Turn { reply, busy, diagnostic },
            ) => self.first_replied(
                after,
                plane,
                id@,
                turn_id@,
                input@,
                reply,
                busy,
                diagnostic@,
            ),
            (Tag::Start { plane, id }, Reply::Started { id: started, written }) =>
                self.start_answered(after, plane, said(id), said(started), written@),
            (Tag::Inventory, Reply::Plain(value)) => self.inventory_answered(after, value@),
            (Tag::FleetStatus, Reply::Plain(value)) => self.subset_answered(after, value@),
            _ => if is_verb(tag) {
                match reply {
                    Reply::Plain(value) => self.verb_accepted(after, tag, value),
                    _ => after == *self,
                }
            } else {
                self.panel_answered(after, tag, reply)
            },
        }
    }

    fn accept(&mut self, tag: Tag, reply: Reply)
        requires
            old(self).wf(),
        ensures
            final(self).wf(),
            old(self).accepted(*final(self), tag, reply),
    {
        match (tag, reply) {
            (Tag::AccountLogin, Reply::Plain(value)) => self.account_login_answered(Ok(value)),
            (Tag::AccountCancel, _) => self.reread_account(),
            (Tag::AccountLogout, _) => self.sign_out(
                "ChatGPT was disconnected".to_owned(),
                NoticeKind::Info,
            ),
            (Tag::Resync { plane, id, cursor, subscribe }, Reply::Replay(replay)) => {
                self.resync_answered(plane, id.as_str(), cursor, subscribe, replay);
            },
            (
                Tag::ComposerAction {
                    label,
                    verb,
                    plane,
                    id,
                    turn_id,
                    input,
                    reconciling,
                    submission_sequence,
                },
                Reply::Turn { reply, busy, diagnostic },
            ) => {
                let turn = Turn {
                    label,
                    verb,
                    plane,
                    id,
                    turn_id,
                    input,
                    reconciling,
                    submission_sequence,
                };
                self.turn_answered(turn, reply, busy, diagnostic);
            },
            (
                Tag::FirstMessage { plane, id, turn_id, input, .. },
                Reply::Turn { reply, busy, diagnostic },
            ) => {
                self.first_answered(
                    plane,
                    id.as_str(),
                    turn_id.as_str(),
                    input.as_str(),
                    reply,
                    busy,
                    diagnostic.as_str(),
                );
            },
            (Tag::Start { plane, id }, Reply::Started { id: started, written }) => {
                self.answer_start(plane, &id, &started, written.as_str());
            },
            (Tag::Inventory, Reply::Plain(value)) => self.answer_inventory(&value),
            (Tag::FleetStatus, Reply::Plain(value)) => self.answer_fleet_status(&value),
            (tag, reply) => self.accept_other(tag, reply),
        }
    }

    fn accept_other(&mut self, tag: Tag, reply: Reply)
        requires
            old(self).wf(),
        ensures
            final(self).wf(),
            if is_verb(tag) {
                match reply {
                    Reply::Plain(value) => old(self).verb_accepted(*final(self), tag, value),
                    _ => *final(self) == *old(self),
                }
            } else {
                old(self).panel_answered(*final(self), tag, reply)
            },
    {
        if verb_tag(&tag) {
            if let Reply::Plain(value) = reply {
                self.accept_verb(tag, value);
            }
        } else {
            self.answer_panel(tag, reply);
        }
    }
}

/// The tag is of a verb, and not of a panel.
pub open spec fn is_verb(tag: Tag) -> bool {
    match tag {
        Tag::Delegate { .. }
        | Tag::Action { .. }
        | Tag::ControlSubmit
        | Tag::ControlCancel { .. }
        | Tag::PermissionRule { .. }
        | Tag::Approval { .. }
        | Tag::PlanExit { .. }
        | Tag::PlanMode { .. }
        | Tag::SandboxMode { .. } => true,
        _ => shows_answer(tag),
    }
}

fn verb_tag(tag: &Tag) -> (r: bool)
    ensures
        r == is_verb(*tag),
{
    match tag {
        Tag::Delegate { .. }
        | Tag::Action { .. }
        | Tag::ControlSubmit
        | Tag::ControlCancel { .. }
        | Tag::PermissionRule { .. }
        | Tag::Approval { .. }
        | Tag::PlanExit { .. }
        | Tag::PlanMode { .. }
        | Tag::SandboxMode { .. }
        | Tag::Compact { .. }
        | Tag::Handoff { .. }
        | Tag::Context { .. }
        | Tag::RewindPoints { .. }
        | Tag::Rewind { .. }
        | Tag::Shell { .. }
        | Tag::Delegations { .. }
        | Tag::Artifact { .. }
        | Tag::McpList { .. }
        | Tag::EventDetail { .. } => true,
        _ => false,
    }
}

// ----- refused ----------------------------------------------------------------------

pub open spec fn options_refused_words(had_follow_up: bool) -> Seq<char> {
    if had_follow_up {
        "this gateway does not take a plan-exit choice; answering with approve/deny alone, which reaches the same three answers \u{2014} the follow-up prompt was dropped, so send it as an ordinary message"@
    } else {
        "this gateway does not take a plan-exit choice; answering with approve/deny alone, which reaches the same three answers"@
    }
}

pub open spec fn mcp_words(failure: Failure) -> Seq<char> {
    if failure.error is Rpc {
        "mcp.list: "@ + failure.refusal@
    } else {
        "mcp.list failed: "@ + failure.words()
    }
}

impl App {
    /// A verb was refused, and it is said.
    pub open spec fn said_failed(&self, after: App, label: Seq<char>, id: Seq<char>, failure: Failure) -> bool {
        self.noticed(
            after,
            failed_words(label, id, failure, self.hello.scope@),
            NoticeKind::Error,
        )
    }

    pub open spec fn said_native(&self, after: App, label: Seq<char>, id: Seq<char>, failure: Failure) -> bool {
        match failure.native {
            Some(sentence) => self.noticed(after, label + ": "@ + sentence@, NoticeKind::Info),
            None => self.said_failed(after, label, id, failure),
        }
    }

    /// An approval whose answer did not arrive waits again.
    pub open spec fn approval_returned(
        &self,
        after: App,
        plane: Plane,
        id: Seq<char>,
        request_id: Seq<char>,
    ) -> bool {
        let watches = self.sessions.watches@;
        let at = watch_at(watches, plane, id);
        if watched(watches, plane, id) {
            &&& after.wf()
            &&& watches[at].given_back(after.sessions.watches@[at], request_id)
            &&& after.sessions.watches@ == watches.update(at, after.sessions.watches@[at])
            &&& after == (App {
                sessions: SessionsTab { watches: after.sessions.watches, ..self.sessions },
                ..*self
            })
        } else {
            after == *self
        }
    }

    fn return_approval(&mut self, plane: Plane, id: &str, request_id: &str)
        requires
            old(self).wf(),
        ensures
            final(self).wf(),
            old(self).approval_returned(*final(self), plane, id@, request_id@),
    {
        let at: usize = match self.sessions.find(plane, id) {
            Some(at) => at,
            None => {
                return;
            },
        };
        let ghost watches = self.sessions.watches@;
        let mut watch = self.take_watch(at);
        watch.retry_approval_response(request_id);
        self.return_watch(at, watch, Ghost(watches));
    }

    pub open spec fn approval_refused(
        &self,
        after: App,
        plane: Plane,
        id: Seq<char>,
        request_id: Seq<char>,
        failure: Failure,
    ) -> bool {
        exists|back: App|
            #[trigger] self.approval_returned(back, plane, id, request_id) && back.said_failed(
                after,
                "respond_approval"@,
                id,
                failure,
            )
    }

    fn refuse_approval(&mut self, plane: Plane, id: &str, request_id: &str, failure: &Failure)
        requires
            old(self).wf(),
        ensures
            final(self).wf(),
            old(self).approval_refused(*final(self), plane, id@, request_id@, *failure),
    {
        let ghost start = *self;
        self.return_approval(plane, id, request_id);
        let ghost back = *self;
        self.action_failed("respond_approval", id, failure);
        assert(start.approval_returned(back, plane, id@, request_id@) && back.said_failed(
            *self,
            "respond_approval"@,
            id@,
            *failure,
        ));
    }

    /// A plan exit was refused. A gateway that takes no choice is answered again with the plain
    /// approval the choice stands for, once.
    pub open spec fn plan_exit_refused(
        &self,
        after: App,
        plane: Plane,
        id: String,
        request_id: String,
        choice: String,
        had_follow_up: bool,
        failure: Failure,
    ) -> bool {
        if failure.code() == Some(ErrorCode::InvalidParams) && !self.plan_options_refused {
            exists|back: App|
                {
                    &&& #[trigger] self.approval_returned(back, plane, id@, request_id@)
                    &&& (App { plan_options_refused: true, ..back }).told(
                        after,
                        options_refused_words(had_follow_up),
                        NoticeKind::Warn,
                        seq![Errand::AnswerPlan { plane, id, request_id, choice }],
                    )
                }
        } else {
            self.approval_refused(after, plane, id@, request_id@, failure)
        }
    }

    fn refuse_plan_exit(
        &mut self,
        plane: Plane,
        id: String,
        request_id: String,
        choice: String,
        had_follow_up: bool,
        failure: &Failure,
    )
        requires
            old(self).wf(),
        ensures
            final(self).wf(),
            old(self).plan_exit_refused(
                *final(self),
                plane,
                id,
                request_id,
                choice,
                had_follow_up,
                *failure,
            ),
    {
        let takes_none = match &failure.error {
            ClientError::Rpc(rpc) => rpc.code == ErrorCode::InvalidParams,
            _ => false,
        };
        if !takes_none || self.plan_options_refused {
            self.refuse_approval(plane, id.as_str(), request_id.as_str(), failure);
            return;
        }
        let ghost start = *self;
        self.return_approval(plane, id.as_str(), request_id.as_str());
        let ghost back = *self;
        assert(start.approval_returned(back, plane, id@, request_id@));
        self.plan_options_refused = true;
        let words = if had_follow_up {
            "this gateway does not take a plan-exit choice; answering with approve/deny alone, which reaches the same three answers \u{2014} the follow-up prompt was dropped, so send it as an ordinary message".to_owned()
        } else {
            "this gateway does not take a plan-exit choice; answering with approve/deny alone, which reaches the same three answers".to_owned()
        };
        self.inform(words, NoticeKind::Warn);
        let ghost before = self.errands@;
        self.hand(Errand::AnswerPlan { plane, id, request_id, choice });
        assert(self.errands@ =~= before + seq![
            Errand::AnswerPlan { plane, id, request_id, choice },
        ]);
    }

    /// A refusal that says itself what is wrong, or else the ordinary sentence.
    pub open spec fn said_itself(
        &self,
        after: App,
        sentence: Option<Seq<char>>,
        label: Seq<char>,
        id: Seq<char>,
        failure: Failure,
    ) -> bool {
        match sentence {
            Some(sentence) => self.noticed(after, sentence, NoticeKind::Warn),
            None => self.said_failed(after, label, id, failure),
        }
    }

    fn say_itself(&mut self, sentence: Option<String>, label: &str, id: &str, failure: &Failure)
        requires
            old(self).wf(),
        ensures
            final(self).wf(),
            old(self).said_itself(*final(self), said(sentence), label@, id@, *failure),
    {
        match sentence {
            Some(sentence) => self.inform(sentence, NoticeKind::Warn),
            None => self.action_failed(label, id, failure),
        }
    }

    /// An action was refused. A session that is not there any more counts as removed.
    pub open spec fn action_refused(
        &self,
        after: App,
        label: Seq<char>,
        plane: Plane,
        id: String,
        failure: Failure,
    ) -> bool {
        if label == "remove"@ && failure.code() == Some(ErrorCode::NotFound) {
            self.handed(after, Errand::Removed { plane, id })
        } else {
            exists|cleared: App|
                {
                    &&& #[trigger] self.reply_cleared(
                        cleared,
                        plane,
                        id@,
                        ends_wait(label, failure),
                    )
                    &&& cleared.told(
                        after,
                        failed_words(label, id@, failure, cleared.hello.scope@),
                        NoticeKind::Error,
                        seq![Errand::ResumePicker],
                    )
                }
        }
    }

    fn fail_and_resume(&mut self, label: &str, id: &str, failure: &Failure)
        requires
            old(self).wf(),
        ensures
            final(self).wf(),
            old(self).told(
                *final(self),
                failed_words(label@, id@, *failure, old(self).hello.scope@),
                NoticeKind::Error,
                seq![Errand::ResumePicker],
            ),
    {
        let ghost before = self.errands@;
        self.action_failed(label, id, failure);
        self.hand(Errand::ResumePicker);
        assert(self.errands@ =~= before + seq![Errand::ResumePicker]);
    }

    fn fail_action(&mut self, label: &str, plane: Plane, id: &str, failure: &Failure, ends: bool)
        requires
            old(self).wf(),
            ends == ends_wait(label@, *failure),
        ensures
            final(self).wf(),
            exists|cleared: App|
                {
                    &&& #[trigger] old(self).reply_cleared(
                        cleared,
                        plane,
                        id@,
                        ends_wait(label@, *failure),
                    )
                    &&& cleared.told(
                        *final(self),
                        failed_words(label@, id@, *failure, cleared.hello.scope@),
                        NoticeKind::Error,
                        seq![Errand::ResumePicker],
                    )
                },
    {
        let ghost start = *self;
        self.clear_reply(plane, id, ends);
        let ghost cleared = *self;
        assert(start.reply_cleared(cleared, plane, id@, ends_wait(label@, *failure)));
        self.fail_and_resume(label, id, failure);
    }

    fn refuse_action(&mut self, label: &str, plane: Plane, id: String, failure: &Failure)
        requires
            old(self).wf(),
        ensures
            final(self).wf(),
            old(self).action_refused(*final(self), label@, plane, id, *failure),
    {
        let missing = match &failure.error {
            ClientError::Rpc(rpc) => rpc.code == ErrorCode::NotFound,
            _ => false,
        };
        if same(label, "remove") && missing {
            self.hand(Errand::Removed { plane, id });
            return;
        }
        let ends = (same(label, "send_message") || same(label, "follow_up"))
            && !failure.reply_outcome_unknown();
        self.fail_action(label, plane, id.as_str(), failure, ends);
    }

    /// A verb beside the turns of a session was refused.
    pub open spec fn aside_refused(&self, after: App, tag: Tag, failure: Failure) -> bool {
        match tag {
            Tag::Compact { id, .. } => self.said_native(after, "compact"@, id@, failure),
            Tag::Handoff { id, .. } => self.said_native(after, "handoff"@, id@, failure),
            // A refresh nobody asked for says nothing.
            Tag::Context { id, show, .. } => if show {
                self.said_native(after, "context"@, id@, failure)
            } else {
                after == *self
            },
            Tag::RewindPoints { id, .. } => self.said_native(after, "rewind"@, id@, failure),
            Tag::Rewind { id, .. } => self.said_native(after, "rewind"@, id@, failure),
            Tag::Shell { .. } => {
                &&& after.errands@.len() == self.errands@.len() + 1
                &&& after.errands@.drop_last() == self.errands@
                &&& after.errands@.last() matches Errand::Refused { tag: t, words }
                &&& t == tag && words@ == failure.words()
                &&& after == (App { errands: after.errands, ..*self })
            },
            Tag::Delegate { id, .. } => (App { delegating: false, ..*self }).said_failed(
                after,
                "delegate"@,
                id@,
                failure,
            ),
            Tag::Delegations { id, show, .. } => if show {
                self.said_failed(after, "delegations"@, id@, failure)
            } else {
                after == *self
            },
            Tag::EventDetail { sequence, .. } => self.noticed(
                after,
                "event "@ + decimal(sequence as nat) + " could not be fetched whole: "@
                    + failure.words(),
                NoticeKind::Error,
            ),
            Tag::McpList { .. } => self.noticed(after, mcp_words(failure), NoticeKind::Error),
            _ => after == *self,
        }
    }

    fn refuse_aside(&mut self, tag: Tag, failure: &Failure)
        requires
            old(self).wf(),
        ensures
            final(self).wf(),
            old(self).aside_refused(*final(self), tag, *failure),
    {
        match &tag {
            Tag::Compact { id, .. } => self.native_verb_failed("compact", id.as_str(), failure),
            Tag::Handoff { id, .. } => self.native_verb_failed("handoff", id.as_str(), failure),
            Tag::Context { id, show, .. } => {
                if *show {
                    self.native_verb_failed("context", id.as_str(), failure);
                }
            },
            Tag::RewindPoints { id, .. } => self.native_verb_failed("rewind", id.as_str(), failure),
            Tag::Rewind { id, .. } => self.native_verb_failed("rewind", id.as_str(), failure),
            Tag::Shell { .. } => {
                let ghost before = self.errands@;
                self.hand(Errand::Refused { tag, words: failure.error.message() });
                assert(self.errands@.drop_last() =~= before);
            },
            Tag::Delegate { id, .. } => {
                self.delegating = false;
                self.action_failed("delegate", id.as_str(), failure);
            },
            Tag::Delegations { id, show, .. } => {
                if *show {
                    self.action_failed("delegations", id.as_str(), failure);
                }
            },
            Tag::EventDetail { sequence, .. } => {
                let words = failure.error.message();
                self.inform(
                    cat4(
                        "event ",
                        number(*sequence).as_str(),
                        " could not be fetched whole: ",
                        words.as_str(),
                    ),
                    NoticeKind::Error,
                );
            },
            Tag::McpList { .. } => {
                let words = match &failure.error {
                    ClientError::Rpc(_) => cat2("mcp.list: ", failure.refusal.as_str()),
                    _ => cat2("mcp.list failed: ", failure.error.message().as_str()),
                };
                self.inform(words, NoticeKind::Error);
            },
            _ => {},
        }
    }

    /// A verb was refused.
    pub open spec fn verb_refused(&self, after: App, tag: Tag, failure: Failure) -> bool {
        match tag {
            Tag::Action { label, plane, id, .. } => self.action_refused(
                after,
                label@,
                plane,
                id,
                failure,
            ),
            Tag::ControlSubmit => self.noticed(
                after,
                "control submit was refused: "@ + failure.diagnosis(),
                NoticeKind::Error,
            ),
            Tag::ControlCancel { id } => self.noticed(
                after,
                "cancel of control run "@ + id@ + " was refused: "@ + failure.diagnosis(),
                NoticeKind::Error,
            ),
            // The approval it came with was sent and is reported by itself.
            Tag::PermissionRule { pattern } => self.noticed(
                after,
                "the approval was sent; the rule "@ + pattern@ + " was not saved: "@
                    + failure.diagnosis(),
                NoticeKind::Error,
            ),
            Tag::Approval { plane, id, request_id } => self.approval_refused(
                after,
                plane,
                id@,
                request_id@,
                failure,
            ),
            Tag::PlanExit { plane, id, request_id, choice, had_follow_up } =>
                self.plan_exit_refused(after, plane, id, request_id, choice, had_follow_up, failure),
            Tag::PlanMode { id, .. } => self.said_itself(
                after,
                plan_words(failure.error),
                "plan mode"@,
                id@,
                failure,
            ),
            Tag::SandboxMode { id, .. } => self.said_itself(
                after,
                sandbox_words(failure.error),
                "file access"@,
                id@,
                failure,
            ),
            _ => self.aside_refused(after, tag, failure),
        }
    }

    fn refuse_verb(&mut self, tag: Tag, failure: &Failure)
        requires
            old(self).wf(),
        ensures
            final(self).wf(),
            old(self).verb_refused(*final(self), tag, *failure),
    {
        match tag {
            Tag::Action { label, plane, id, .. } => self.refuse_action(label, plane, id, failure),
            Tag::ControlSubmit => {
                let words = failure.diagnostic();
                self.inform(
                    cat2("control submit was refused: ", words.as_str()),
                    NoticeKind::Error,
                );
            },
            Tag::ControlCancel { id } => {
                let words = failure.diagnostic();
                self.inform(
                    cat4(
                        "cancel of control run ",
                        id.as_str(),
                        " was refused: ",
                        words.as_str(),
                    ),
                    NoticeKind::Error,
                );
            },
            Tag::PermissionRule { pattern } => {
                let words = failure.diagnostic();
                self.inform(
                    cat4(
                        "the approval was sent; the rule ",
                        pattern.as_str(),
                        " was not saved: ",
                        words.as_str(),
                    ),
                    NoticeKind::Error,
                );
            },
            Tag::Approval { plane, id, request_id } => {
                self.refuse_approval(plane, id.as_str(), request_id.as_str(), failure);
            },
            Tag::PlanExit { plane, id, request_id, choice, had_follow_up } => {
                self.refuse_plan_exit(plane, id, request_id, choice, had_follow_up, failure);
            },
            Tag::PlanMode { id, .. } => {
                self.say_itself(plan_refusal(&failure.error), "plan mode", id.as_str(), failure);
            },
            Tag::SandboxMode { id, .. } => {
                self.say_itself(
                    sandbox_refusal(&failure.error),
                    "file access",
                    id.as_str(),
                    failure,
                );
            },
            tag => self.refuse_aside(tag, failure),
        }
    }

    /// A question was refused, by the gateway or by the way there.
    pub open spec fn refused(&self, after: App, tag: Tag, failure: Failure) -> bool {
        match tag {
            Tag::AccountLogin => self.login_answered(after, Err(failure)),
            Tag::AccountCancel => self.cancel_refused(after, failure.words()),
            Tag::AccountLogout => self.signed_out(
                after,
                "disconnecting ChatGPT failed: "@ + failure.words(),
                NoticeKind::Error,
            ),
            Tag::Resync { plane, id, cursor, subscribe } => if failure.floor() is Some {
                self.resync_settled(
                    after,
                    plane,
                    id@,
                    cursor,
                    subscribe,
                    Replay::Pruned { floor: failure.floor()->0 },
                )
            } else {
                exists|reason: String|
                    #[trigger] reason@ == failure.words() && self.resync_settled(
                        after,
                        plane,
                        id@,
                        cursor,
                        subscribe,
                        Replay::Refused { reason },
                    )
            },
            Tag::ComposerAction {
                label,
                verb,
                plane,
                id,
                turn_id,
                input,
                reconciling,
                submission_sequence,
            } => self.turn_refused(
                after,
                (Turn {
                    label,
                    verb,
                    plane,
                    id,
                    turn_id,
                    input,
                    reconciling,
                    submission_sequence,
                }),
                failure,
            ),
            Tag::FirstMessage { plane, id, turn_id, input, .. } => self.first_refused(
                after,
                plane,
                id@,
                turn_id@,
                input@,
                failure,
            ),
            Tag::Start { id, .. } => self.start_refused(
                after,
                said(id),
                failure.unknown(),
                failure.diagnosis(),
            ),
            Tag::Inventory => self.inventory_refused(after, failure.error),
            Tag::FleetStatus => self.subset_refused(after, failure.error),
            _ => if is_verb(tag) {
                self.verb_refused(after, tag, failure)
            } else {
                self.panel_refused(after, tag, failure.words())
            },
        }
    }

    fn refuse(&mut self, tag: Tag, failure: Failure)
        requires
            old(self).wf(),
        ensures
            final(self).wf(),
            old(self).refused(*final(self), tag, failure),
    {
        match tag {
            Tag::AccountLogin => self.account_login_answered(Err(failure)),
            Tag::AccountCancel => {
                let words = failure.error.message();
                self.cancel_failed(words.as_str());
            },
            Tag::AccountLogout => {
                let words = failure.error.message();
                self.sign_out(
                    cat2("disconnecting ChatGPT failed: ", words.as_str()),
                    NoticeKind::Error,
                );
            },
            Tag::Resync { plane, id, cursor, subscribe } => {
                let replay = match failure.pruned_floor() {
                    Some(floor) => Replay::Pruned { floor },
                    None => {
                        let reason = failure.error.message();
                        assert(reason@ == failure.words());
                        Replay::Refused { reason }
                    },
                };
                self.resync_answered(plane, id.as_str(), cursor, subscribe, replay);
            },
            Tag::ComposerAction {
                label,
                verb,
                plane,
                id,
                turn_id,
                input,
                reconciling,
                submission_sequence,
            } => {
                let turn = Turn {
                    label,
                    verb,
                    plane,
                    id,
                    turn_id,
                    input,
                    reconciling,
                    submission_sequence,
                };
                self.turn_failed(turn, &failure);
            },
            Tag::FirstMessage { plane, id, turn_id, input, .. } => {
                self.first_failed(
                    plane,
                    id.as_str(),
                    turn_id.as_str(),
                    input.as_str(),
                    &failure,
                );
            },
            Tag::Start { id, .. } => {
                let unknown = failure.reply_outcome_unknown();
                let words = failure.diagnostic();
                self.start_failed(&id, unknown, words);
            },
            Tag::Inventory => self.refuse_inventory(&failure.error),
            Tag::FleetStatus => self.refuse_fleet_status(&failure.error),
            tag => {
                if verb_tag(&tag) {
                    self.refuse_verb(tag, &failure);
                } else {
                    let words = failure.error.message();
                    self.refuse_panel(&tag, words);
                }
            },
        }
    }

    // ----- an answer ------------------------------------------------------------------

    /// The question is no longer outstanding, and a lost connection is known.
    pub open spec fn freed(&self, after: App, tag: TagView, result: Result<Reply, Failure>) -> bool {
        &&& after.wf()
        &&& after.queue@ == self.queue@.without(tag)
        &&& match result {
            Err(failure) => if failure.disconnects() {
                after.connection matches Connection::Lost { reason } && reason@ == failure.words()
            } else {
                after.connection == self.connection
            },
            Ok(_) => after.connection == self.connection,
        }
        &&& after == (App { queue: after.queue, connection: after.connection, ..*self })
    }

    /// What an answer comes to.
    pub open spec fn answered(&self, after: App, tag: Tag, result: Result<Reply, Failure>) -> bool {
        exists|mid: App|
            #[trigger] self.freed(mid, tag@, result) && match result {
                Ok(reply) => mid.accepted(after, tag, reply),
                Err(failure) => mid.refused(after, tag, failure),
            }
    }

    fn free(&mut self, tag: &Tag, result: &Result<Reply, Failure>)
        requires
            old(self).wf(),
        ensures
            old(self).freed(*final(self), tag@, *result),
    {
        self.queue.answered(tag);
        if let Err(failure) = result {
            match &failure.error {
                ClientError::ConnectionClosed | ClientError::Stopped(_) => {
                    self.connection = Connection::Lost { reason: failure.error.message() };
                },
                _ => {},
            }
        }
    }

    /// An answer to the question `tag` came in.
    pub fn answer(&mut self, tag: Tag, result: Result<Reply, Failure>)
        requires
            old(self).wf(),
        ensures
            final(self).wf(),
            old(self).answered(*final(self), tag, result),
    {
        let ghost start = *self;
        self.free(&tag, &result);
        let ghost mid = *self;
        assert(start.freed(mid, tag@, result));
        match result {
            Ok(reply) => self.accept(tag, reply),
            Err(failure) => self.refuse(tag, failure),
        }
    }

    /// A call went out; or the gateway does not serve it, and it was answered here so that the
    /// place that wanted the answer says which method is missing.
    pub open spec fn issued(&self, after: App, call: Call) -> bool {
        if self.hello.lists(call.method@) {
            &&& after.queue@ == self.queue@.with(call@)
            &&& after == (App { queue: after.queue, ..*self })
        } else {
            exists|failure: Failure|
                #[trigger] failure.is_unserved(call.method@) && self.answered(
                    after,
                    call.tag,
                    Err(failure),
                )
        }
    }

    pub fn issue(&mut self, call: Call)
        requires
            old(self).wf(),
        ensures
            final(self).wf(),
            old(self).issued(*final(self), call),
    {
        if self.hello.serves(call.method.as_str()) {
            self.queue.put(call);
        } else {
            let failure = Failure::unserved(call.method.as_str());
            self.answer(call.tag, Err(failure));
        }
    }
}

pub open spec fn ends_wait(label: Seq<char>, failure: Failure) -> bool {
    (label == "send_message"@ || label == "follow_up"@) && !failure.unknown()
}

// ----- laws -------------------------------------------------------------------------

/// Whatever an answer says, its question can be asked again: it is no longer outstanding when the
/// answer is acted on.
pub proof fn lemma_an_answer_frees_its_question(
    before: App,
    after: App,
    tag: Tag,
    result: Result<Reply, Failure>,
)
    requires
        before.answered(after, tag, result),
    ensures
        exists|mid: App|
            #[trigger] before.freed(mid, tag@, result) && !mid.queue@.in_flight.contains(tag@),
{
    let mid = choose|mid: App|
        #[trigger] before.freed(mid, tag@, result) && match result {
            Ok(reply) => mid.accepted(after, tag, reply),
            Err(failure) => mid.refused(after, tag, failure),
        };
    assert(!mid.queue@.in_flight.contains(tag@));
}

/// A panel that is refused keeps the last value it had, and so does every other.
pub proof fn lemma_a_refused_panel_keeps_its_value(before: App, after: App, tag: Tag, words: Seq<char>)
    requires
        before.panel_refused(after, tag, words),
    ensures
        after.account.value == before.account.value,
        after.status.value == before.status.value,
        after.providers.value == before.providers.value,
        after.models.value == before.models.value,
        after.sessions.interactive.value == before.sessions.interactive.value,
        after.sessions.coding.value == before.sessions.coding.value,
        after.agents.rows.value == before.agents.rows.value,
        after.agents.detail.value == before.agents.detail.value,
        after.teams.rows.value == before.teams.rows.value,
        after.teams.detail.value == before.teams.detail.value,
        after.plans.rows.value == before.plans.rows.value,
        after.plans.detail.value == before.plans.detail.value,
        after.control.rows.value == before.control.rows.value,
        after.control.detail.value == before.control.detail.value,
        after.upgrade.status.value == before.upgrade.status.value,
        after.upgrade.rollouts.value == before.upgrade.rollouts.value,
        after.upgrade.history.value == before.upgrade.history.value,
        after.upgrade.signing.value == before.upgrade.signing.value,
        after.upgrade.grants.value == before.upgrade.grants.value,
{
}

/// An action changes neither the dialog that is open nor the way out, whether it goes out or the
/// gateway does not serve it.
pub proof fn lemma_an_action_keeps_the_dialog(before: App, after: App, call: Call)
    requires
        call.tag is Action,
        before.issued(after, call),
    ensures
        after.overlay == before.overlay,
        after.quit == before.quit,
{
    if !before.hello.lists(call.method@) {
        let failure = choose|failure: Failure|
            #[trigger] failure.is_unserved(call.method@) && before.answered(
                after,
                call.tag,
                Err(failure),
            );
        let result: Result<Reply, Failure> = Err(failure);
        let mid = choose|mid: App|
            #[trigger] before.freed(mid, call.tag@, result) && match result {
                Ok(reply) => mid.accepted(after, call.tag, reply),
                Err(failure) => mid.refused(after, call.tag, failure),
            };
        assert(mid.refused(after, call.tag, failure));
        assert(mid.verb_refused(after, call.tag, failure));
    }
}

} // verus!
