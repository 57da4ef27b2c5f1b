//! What an operator can do: the dialogs that open, and what they ask for when they close.

use vstd::prelude::*;

use crate::answering::lemma_an_action_keeps_the_dialog;
use crate::app::{
    lemma_only_the_visible_tab_is_polled, unserved_words, App, NoticeKind, Overlay, PromptKind, Tab,
};
use crate::explorer::{Pane, UpgradeTab};
use crate::json::{Json, JsonView};
use crate::model::{ApprovalDecision, ApprovalScope, Plane};
use crate::ownership::{Mode, Quit};
use crate::panel::Loadable;
use crate::sessions::{
    but_for_session, find_saved, key_of, saved_at, watch_at, watched, Composer, SessionsTab,
};
use crate::tags::{
    by_id, id_params, plain_call, text_param, Call, CallView, ComposerVerb, Params, Tag, TagView,
};
use crate::text::{cat2, cat3, copy_text, decimal, number, said, same, trim, trimmed};
use crate::watch::Watch;

verus! {

/// The answers an approval takes, in the order they are listed.
pub const APPROVAL_CHOICES: [(ApprovalDecision, ApprovalScope); 4] = [
    (ApprovalDecision::Approve, ApprovalScope::Once),
    (ApprovalDecision::Approve, ApprovalScope::Session),
    (ApprovalDecision::Deny, ApprovalScope::Once),
    (ApprovalDecision::Deny, ApprovalScope::Session),
];

pub open spec fn quit_rows(options: Seq<(String, Quit)>) -> Seq<(Seq<char>, Quit)> {
    Seq::new(options.len(), |i: int| (options[i].0@, options[i].1))
}

/// The ways to leave. A runtime this client did not start is not its to stop.
pub open spec fn ways_out(mode: Mode, can_ask: bool) -> Seq<(Seq<char>, Quit)> {
    match mode {
        Mode::Spawned { pid } => seq![
            (
                "detach \u{2014} leave the runtime running (pid "@ + decimal(pid as nat) + ")"@,
                Quit::Detach,
            ),
            (
                if can_ask {
                    "shut down \u{2014} runtime.shutdown, then SIGTERM, then SIGKILL"@
                } else {
                    "shut down \u{2014} this gateway does not serve runtime.shutdown, so SIGTERM"@
                },
                Quit::Shutdown,
            ),
        ],
        Mode::Attached => seq![
            ("disconnect \u{2014} the runtime keeps running"@, Quit::Disconnect),
        ],
    }
}

pub open spec fn confirm_rows(options: Seq<(String, Option<Call>)>) -> Seq<(
    Seq<char>,
    Option<CallView>,
)> {
    Seq::new(
        options.len(),
        |i: int|
            (
                options[i].0@,
                match options[i].1 {
                    Some(call) => Some(call@),
                    None => None,
                },
            ),
    )
}

pub open spec fn action_call(label: Seq<char>, plane: Plane, id: Seq<char>, method: Seq<char>) -> CallView {
    plain_call(TagView::Action { label, plane, id, turn_id: None }, method, id_params(id))
}

fn action_request(label: &'static str, plane: Plane, id: &str, method: &str) -> (r: Call)
    ensures
        r@ == action_call(label@, plane, id@, method@),
{
    Call::new(
        Tag::Action { label, plane, id: id.to_owned(), turn_id: None },
        method,
        by_id(id),
    )
}

/// The ways to end a session. The least destructive one comes first.
pub open spec fn ways_to_end(plane: Plane, id: Seq<char>) -> Seq<(Seq<char>, Option<CallView>)> {
    match plane {
        Plane::Interactive => seq![
            (
                "close (let the provider finish and shut down)"@,
                Some(action_call("close"@, plane, id, "interactive.close"@)),
            ),
            (
                "kill (stop it now)"@,
                Some(action_call("kill"@, plane, id, "interactive.kill"@)),
            ),
            ("cancel"@, None),
        ],
        Plane::Coding => seq![
            (
                "cancel the task"@,
                Some(action_call("cancel"@, plane, id, "coding.cancel"@)),
            ),
            ("leave it running"@, None),
        ],
    }
}

impl SessionsTab {
    /// The composer of a session is open. Text it holds stays, and a turn that is sent again keeps
    /// its verb; an empty one takes the draft saved for the session, which is then no longer kept
    /// aside.
    pub open spec fn composer_opened(
        &self,
        after: SessionsTab,
        plane: Plane,
        id: Seq<char>,
        verb: ComposerVerb,
    ) -> bool {
        if self.composer is Some && !self.composer->0.editor.blank() {
            let held = self.composer->0;
            &&& after.composer == Some(
                Composer {
                    verb: if held.next_turn_id is Some {
                        held.verb
                    } else {
                        verb
                    },
                    ..held
                },
            )
            &&& after.composer_drafts == self.composer_drafts
        } else {
            match saved_at(self.composer_drafts@, plane, id, 0) {
                Some(at) => {
                    let saved = self.composer_drafts@[at];
                    &&& after.composer is Some
                    &&& after.composer->0.editor.text@ == saved.input@
                    &&& !after.composer->0.editor.completing
                    &&& after.composer->0.verb == verb
                    &&& after.composer->0.next_turn_id is None
                    &&& after.composer->0.generation == saved.generation
                    &&& after.composer->0.reconciliation_owner is None
                    &&& after.composer_drafts@ == but_for_session(
                        self.composer_drafts@,
                        plane,
                        id,
                    )
                },
                None => {
                    &&& after.composer is Some
                    &&& after.composer->0.is_fresh(verb)
                    &&& after.composer_drafts == self.composer_drafts
                },
            }
        }
    }

    fn open_composer(&mut self, plane: Plane, id: &str, verb: ComposerVerb)
        ensures
            old(self).composer_opened(*final(self), plane, id@, verb),
            *final(self) == (SessionsTab {
                composer: final(self).composer,
                composer_drafts: final(self).composer_drafts,
                ..*old(self)
            }),
    {
        let mut held: Option<Composer> = None;
        std::mem::swap(&mut self.composer, &mut held);
        if let Some(composer) = held {
            if !composer.editor.text.as_str().is_empty() {
                let mut composer = composer;
                if composer.next_turn_id.is_none() {
                    composer.verb = verb;
                }
                self.composer = Some(composer);
                return;
            }
        }
        let mut composer = Composer::new(verb);
        if let Some(at) = find_saved(&self.composer_drafts, plane, id) {
            composer.editor.hold(self.composer_drafts[at].input.as_str());
            composer.generation = self.composer_drafts[at].generation;
            self.drop_saved(plane, id);
        }
        self.composer = Some(composer);
    }
}

impl App {
    /// A call was issued.
    pub open spec fn sent(&self, after: App, call: CallView) -> bool {
        exists|c: Call| c@ == call && #[trigger] self.issued(after, c)
    }

    pub(crate) fn send_call(&mut self, call: Call)
        requires
            old(self).wf(),
        ensures
            final(self).wf(),
            old(self).sent(*final(self), call@),
    {
        let ghost start = *self;
        self.issue(call);
        assert(start.issued(*self, call));
    }

    /// Only the overlay changed.
    pub open spec fn overlaid(&self, after: App) -> bool {
        after == (App { overlay: after.overlay, ..*self })
    }

    // ----- leaving --------------------------------------------------------------------

    pub fn open_quit(&mut self)
        requires
            old(self).wf(),
        ensures
            final(self).wf(),
            old(self).quit_opened(*final(self)),
    {
        let mut options: Vec<(String, Quit)> = Vec::new();
        match self.mode {
            Mode::Spawned { pid } => {
                options.push(
                    (
                        cat3(
                            "detach \u{2014} leave the runtime running (pid ",
                            number(pid as u64).as_str(),
                            ")",
                        ),
                        Quit::Detach,
                    ),
                );
                let words = if self.shutdown_served() {
                    "shut down \u{2014} runtime.shutdown, then SIGTERM, then SIGKILL".to_owned()
                } else {
                    "shut down \u{2014} this gateway does not serve runtime.shutdown, so SIGTERM".to_owned()
                };
                options.push((words, Quit::Shutdown));
            },
            Mode::Attached => {
                options.push(
                    (
                        "disconnect \u{2014} the runtime keeps running".to_owned(),
                        Quit::Disconnect,
                    ),
                );
            },
        }
        assert(quit_rows(options@) =~= ways_out(
            self.mode,
            self.hello.lists("runtime.shutdown"@) && self.hello.can_operate(),
        ));
        self.overlay = Some(Overlay::Quit { options, choice: 0 });
    }

    pub open spec fn quit_opened(&self, after: App) -> bool {
        &&& after.overlay matches Some(Overlay::Quit { options, choice })
        &&& choice == 0
        &&& quit_rows(options@) == ways_out(
            self.mode,
            self.hello.lists("runtime.shutdown"@) && self.hello.can_operate(),
        )
        &&& self.overlaid(after)
    }

    pub fn open_help(&mut self)
        requires
            old(self).wf(),
        ensures
            final(self).wf(),
            *final(self) == (App { overlay: Some(Overlay::Help), ..*old(self) }),
    {
        self.overlay = Some(Overlay::Help);
    }

    // ----- writing to a session -------------------------------------------------------

    /// The verb a composer opens with: a session that is not idle takes follow-ups.
    pub open spec fn fitting_verb(&self, wanted: ComposerVerb) -> ComposerVerb {
        match self.sessions.open_row() {
            Some(info) => if wanted == ComposerVerb::Message && info.status.word@ != "idle"@ {
                ComposerVerb::FollowUp
            } else {
                wanted
            },
            None => wanted,
        }
    }

    pub open spec fn coding_words(id: Seq<char>) -> Seq<char> {
        id
            + " is a coding task: it runs one objective to completion and takes no input. `x` cancels it"@
    }

    /// A composer is open, or it is said why none is.
    pub open spec fn composing(&self, after: App, wanted: ComposerVerb) -> bool {
        let verb = self.fitting_verb(wanted);
        if self.tab != Tab::Sessions {
            after == *self
        } else {
            match key_of(self.sessions.open) {
                None => self.noticed(
                    after,
                    "open a session with Enter before writing to it"@,
                    NoticeKind::Info,
                ),
                Some((Plane::Coding, id)) => self.noticed(
                    after,
                    App::coding_words(id),
                    NoticeKind::Info,
                ),
                Some((plane, id)) => if !self.hello.lists(plane.method_of(verb.verb())) {
                    self.noticed(
                        after,
                        crate::app::unserved_words(plane.method_of(verb.verb())),
                        NoticeKind::Warn,
                    )
                } else {
                    &&& self.sessions.composer_opened(after.sessions, plane, id, verb)
                    &&& after == (App {
                        sessions: SessionsTab {
                            focus: Pane::Detail,
                            composer: after.sessions.composer,
                            composer_drafts: after.sessions.composer_drafts,
                            ..self.sessions
                        },
                        ..*self
                    })
                },
            }
        }
    }

    pub fn compose(&mut self, wanted: ComposerVerb)
        requires
            old(self).wf(),
        ensures
            final(self).wf(),
            old(self).composing(*final(self), wanted),
    {
        if self.tab != Tab::Sessions {
            return;
        }
        let (plane, id) = match &self.sessions.open {
            Some(key) => (key.plane, key.id.clone()),
            None => {
                self.inform(
                    "open a session with Enter before writing to it".to_owned(),
                    NoticeKind::Info,
                );
                return;
            },
        };
        if plane == Plane::Coding {
            self.inform(
                cat2(
                    id.as_str(),
                    " is a coding task: it runs one objective to completion and takes no input. `x` cancels it",
                ),
                NoticeKind::Info,
            );
            return;
        }
        let verb = match self.sessions.open_info() {
            Some(info) => if wanted == ComposerVerb::Message && !same(
                info.status.word.as_str(),
                "idle",
            ) {
                ComposerVerb::FollowUp
            } else {
                wanted
            },
            None => wanted,
        };
        let method = plane.method(verb.method());
        if !self.hello.serves(method.as_str()) {
            self.inform(
                cat2("this gateway does not serve ", method.as_str()),
                NoticeKind::Warn,
            );
            return;
        }
        self.sessions.focus = Pane::Detail;
        self.sessions.open_composer(plane, id.as_str(), verb);
    }

    /// The ledger is shown in place of the conversation, or the other way round, from its newest
    /// row.
    pub open spec fn details_toggled(&self, after: App) -> bool {
        if self.tab != Tab::Sessions || self.sessions.open is None {
            self.noticed(
                after,
                "open a session before viewing its event details"@,
                NoticeKind::Info,
            )
        } else {
            &&& after.sessions.watches@ == match self.sessions.open_index() {
                Some(at) => self.sessions.watches@.update(
                    at,
                    Watch { follow: true, scroll: 0, ..self.sessions.watches@[at] },
                ),
                None => self.sessions.watches@,
            }
            &&& after == (App {
                sessions: SessionsTab {
                    show_event_details: !self.sessions.show_event_details,
                    watches: after.sessions.watches,
                    ..self.sessions
                },
                ..*self
            })
        }
    }

    pub fn toggle_session_details(&mut self)
        requires
            old(self).wf(),
        ensures
            final(self).wf(),
            old(self).details_toggled(*final(self)),
    {
        if self.tab != Tab::Sessions || self.sessions.open.is_none() {
            self.inform(
                "open a session before viewing its event details".to_owned(),
                NoticeKind::Info,
            );
            return;
        }
        if let Some(at) = self.sessions.open_at() {
            let ghost watches = self.sessions.watches@;
            let mut watch = self.take_watch(at);
            watch.follow = true;
            watch.scroll = 0;
            self.return_watch(at, watch, Ghost(watches));
        }
        self.sessions.show_event_details = !self.sessions.show_event_details;
    }

    // ----- interrupting ---------------------------------------------------------------

    /// The login a dialog that closes has to cancel.
    pub open spec fn abandoned_login(&self) -> Option<Seq<char>> {
        match self.overlay {
            Some(Overlay::Account(dialog)) => dialog.abandoned(),
            _ => None,
        }
    }

    pub(crate) fn abandoned(&self) -> (r: Option<String>)
        ensures
            said(r) == self.abandoned_login(),
    {
        match &self.overlay {
            Some(Overlay::Account(dialog)) => if dialog.pending {
                copy_text(&dialog.login_id)
            } else {
                None
            },
            _ => None,
        }
    }

    /// The overlay is closed, and a sign-in it waited for is cancelled.
    pub open spec fn overlay_closed(&self, after: App) -> bool {
        let closed = App { overlay: None, ..*self };
        match self.abandoned_login() {
            Some(login_id) => closed.cancelled(after, login_id),
            None => after == closed,
        }
    }

    pub fn close_overlay(&mut self)
        requires
            old(self).wf(),
        ensures
            final(self).wf(),
            old(self).overlay_closed(*final(self)),
    {
        let login_id = self.abandoned();
        self.overlay = None;
        if let Some(login_id) = login_id {
            self.cancel_login(login_id.as_str());
        }
    }

    /// The active turn is interrupted, never this client.
    /// The turn of the open session was asked to stop, or it is said what would.
    pub open spec fn turn_interrupted(&self, after: App) -> bool {
        match key_of(self.sessions.open) {
            None => self.noticed(
                after,
                "ctrl-c interrupts a running turn; `q` opens the quit dialog"@,
                NoticeKind::Info,
            ),
            Some((Plane::Coding, id)) => self.noticed(
                after,
                id + " is a coding task; `x` cancels it"@,
                NoticeKind::Info,
            ),
            Some((plane, id)) => exists|mid: App|
                #[trigger] self.sent(
                    mid,
                    action_call("interrupt"@, plane, id, "interactive.interrupt"@),
                ) && mid.noticed(
                    after,
                    "interrupting the active turn of "@ + id,
                    NoticeKind::Info,
                ),
        }
    }

    /// What the key does: a dialog that is open closes, and the turn is left alone.
    pub open spec fn interrupted(&self, after: App) -> bool {
        if self.overlay is Some {
            self.overlay_closed(after)
        } else {
            self.turn_interrupted(after)
        }
    }

    pub fn interrupt(&mut self)
        requires
            old(self).wf(),
        ensures
            final(self).wf(),
            old(self).interrupted(*final(self)),
    {
        if self.overlay.is_some() {
            self.close_overlay();
            return;
        }
        self.interrupt_turn();
    }

    pub fn interrupt_turn(&mut self)
        requires
            old(self).wf(),
        ensures
            final(self).wf(),
            old(self).turn_interrupted(*final(self)),
    {
        let ghost start = *self;
        let (plane, id) = match &self.sessions.open {
            Some(key) => (key.plane, key.id.clone()),
            None => {
                self.inform(
                    "ctrl-c interrupts a running turn; `q` opens the quit dialog".to_owned(),
                    NoticeKind::Info,
                );
                return;
            },
        };
        if plane == Plane::Coding {
            self.inform(
                cat2(id.as_str(), " is a coding task; `x` cancels it"),
                NoticeKind::Info,
            );
            return;
        }
        self.send_call(action_request("interrupt", plane, id.as_str(), "interactive.interrupt"));
        let ghost mid = *self;
        self.inform(cat2("interrupting the active turn of ", id.as_str()), NoticeKind::Info);
        assert(start.sent(
            mid,
            action_call("interrupt"@, plane, id@, "interactive.interrupt"@),
        ) && mid.noticed(*self, "interrupting the active turn of "@ + id@, NoticeKind::Info));
    }

    // ----- approvals ------------------------------------------------------------------

    /// The approval the open session waits on is shown again.
    pub open spec fn approval_reopened(&self, after: App) -> bool {
        match key_of(self.sessions.open) {
            Some((plane, id)) => if self.tab != Tab::Sessions {
                after == *self
            } else if watched(self.sessions.watches@, plane, id) && self.sessions.watches@[watch_at(
                self.sessions.watches@,
                plane,
                id,
            )].open_request() is Some {
                self.approval_opened(after, plane, id)
            } else {
                self.noticed(after, id + " is not waiting on an approval"@, NoticeKind::Info)
            },
            None => after == *self,
        }
    }

    pub fn reopen_approval(&mut self)
        requires
            old(self).wf(),
        ensures
            final(self).wf(),
            old(self).approval_reopened(*final(self)),
    {
        if self.tab != Tab::Sessions {
            return;
        }
        let (plane, id) = match &self.sessions.open {
            Some(key) => (key.plane, key.id.clone()),
            None => {
                return;
            },
        };
        let waits = match self.sessions.find(plane, id.as_str()) {
            Some(at) => self.sessions.watches[at].next_approval().is_some(),
            None => false,
        };
        if waits {
            self.open_approval(plane, id.as_str());
        } else {
            self.inform(cat2(id.as_str(), " is not waiting on an approval"), NoticeKind::Info);
        }
    }

    pub open spec fn approval_call(
        plane: Plane,
        id: Seq<char>,
        request_id: Seq<char>,
        decision: ApprovalDecision,
        scope: ApprovalScope,
    ) -> CallView {
        plain_call(
            TagView::Approval { plane, id, request_id },
            plane.method_of("respond_approval"@),
            JsonView::Object(
                seq![
                    text_param("id"@, id),
                    text_param("request_id"@, request_id),
                    text_param("decision"@, decision.word()),
                    text_param("scope"@, scope.word()),
                ],
            ),
        )
    }

    /// A waiting approval is claimed for an answer.
    pub open spec fn approval_claimed(&self, after: App, plane: Plane, id: Seq<char>, request_id: Seq<char>) -> bool {
        let watches = self.sessions.watches@;
        let at = watch_at(watches, plane, id);
        &&& after.wf()
        &&& watches[at].claimed(after.sessions.watches@[at], request_id)
        &&& after.sessions.watches@ == watches.update(at, after.sessions.watches@[at])
        &&& after == (App {
            sessions: SessionsTab { watches: after.sessions.watches, ..self.sessions },
            ..*self
        })
    }

    pub open spec fn can_claim(&self, plane: Plane, id: Seq<char>, request_id: Seq<char>) -> bool {
        let watches = self.sessions.watches@;
        watched(watches, plane, id) && watches[watch_at(watches, plane, id)].awaits(request_id)
    }

    fn claim(&mut self, plane: Plane, id: &str, request_id: &str) -> (r: bool)
        requires
            old(self).wf(),
        ensures
            final(self).wf(),
            r == old(self).can_claim(plane, id@, request_id@),
            if r {
                old(self).approval_claimed(*final(self), plane, id@, request_id@)
            } else {
                *final(self) == *old(self)
            },
    {
        let at: usize = match self.sessions.find(plane, id) {
            Some(at) => at,
            None => {
                return false;
            },
        };
        if !self.sessions.watches[at].waits_for(request_id) {
            return false;
        }
        let ghost watches = self.sessions.watches@;
        let mut watch = self.take_watch(at);
        let _ = watch.mark_approval_response(request_id);
        self.return_watch(at, watch, Ghost(watches));
        true
    }

    /// The answer of an approval goes out, where the approval still waits for one.
    pub open spec fn approval_answered(
        &self,
        after: App,
        plane: Plane,
        id: Seq<char>,
        request_id: Seq<char>,
        decision: ApprovalDecision,
        scope: ApprovalScope,
    ) -> bool {
        if self.can_claim(plane, id, request_id) {
            exists|claimed: App|
                #[trigger] self.approval_claimed(claimed, plane, id, request_id) && claimed.sent(
                    after,
                    App::approval_call(plane, id, request_id, decision, scope),
                )
        } else {
            after == *self
        }
    }

    /// Answers an approval; whether it was there to be answered.
    pub(crate) fn answer_approval(
        &mut self,
        plane: Plane,
        id: &str,
        request_id: &str,
        decision: ApprovalDecision,
        scope: ApprovalScope,
    ) -> (r: bool)
        requires
            old(self).wf(),
        ensures
            final(self).wf(),
            r == old(self).can_claim(plane, id@, request_id@),
            old(self).approval_answered(*final(self), plane, id@, request_id@, decision, scope),
    {
        let ghost start = *self;
        if !self.claim(plane, id, request_id) {
            return false;
        }
        let ghost claimed = *self;
        assert(start.approval_claimed(claimed, plane, id@, request_id@));
        let params = Params::new().text("id", id).text("request_id", request_id).text(
            "decision",
            decision.as_str(),
        ).text("scope", scope.as_str());
        assert(params@ =~= seq![
            text_param("id"@, id@),
            text_param("request_id"@, request_id@),
            text_param("decision"@, decision.word()),
            text_param("scope"@, scope.word()),
        ]);
        let method = plane.method("respond_approval");
        self.send_call(
            Call::new(
                Tag::Approval { plane, id: id.to_owned(), request_id: request_id.to_owned() },
                method.as_str(),
                params.done(),
            ),
        );
        true
    }

    /// The answer under the cursor of an approval dialog goes out, and the dialog closes.
    pub open spec fn approval_submitted(&self, after: App) -> bool {
        match self.overlay {
            Some(Overlay::Approval { plane, id, request_id, choice, .. }) => {
                let at = if choice < 4 {
                    choice as int
                } else {
                    3
                };
                (App { overlay: None, ..*self }).approval_answered(
                    after,
                    plane,
                    id@,
                    request_id@,
                    APPROVAL_CHOICES@[at].0,
                    APPROVAL_CHOICES@[at].1,
                )
            },
            _ => after == (App { overlay: None, ..*self }),
        }
    }

    pub fn submit_approval(&mut self)
        requires
            old(self).wf(),
        ensures
            final(self).wf(),
            old(self).approval_submitted(*final(self)),
    {
        let mut overlay: Option<Overlay> = None;
        std::mem::swap(&mut self.overlay, &mut overlay);
        if let Some(Overlay::Approval { plane, id, request_id, subject: _, choice }) = overlay {
            let all = APPROVAL_CHOICES;
            let at: usize = if choice < 4 {
                choice
            } else {
                3
            };
            let (decision, scope) = all[at];
            let _ = self.answer_approval(plane, id.as_str(), request_id.as_str(), decision, scope);
        }
    }

    // ----- prompts --------------------------------------------------------------------

    /// The upgrade tab shows the history of a module, or the grants of a principal, afresh.
    pub open spec fn prompted(before: UpgradeTab, after: UpgradeTab, kind: PromptKind, value: Seq<char>) -> bool {
        &&& after.tree.is_fresh()
        &&& match kind {
            PromptKind::HistoryModule => {
                &&& said(after.history_module) == Some(value)
                &&& after == (UpgradeTab {
                    history_module: after.history_module,
                    history: Loadable::<Json>::blank(),
                    tree: after.tree,
                    ..before
                })
            },
            PromptKind::GrantsPrincipal => {
                &&& said(after.grants_principal) == Some(value)
                &&& after == (UpgradeTab {
                    grants_principal: after.grants_principal,
                    grants: Loadable::<Json>::blank(),
                    tree: after.tree,
                    ..before
                })
            },
        }
    }

    /// What was typed into a prompt is taken, and asked for.
    pub open spec fn prompt_submitted(&self, after: App) -> bool {
        match self.overlay {
            Some(Overlay::Prompt { kind, buffer, .. }) => if trimmed(buffer@).len() == 0 {
                after == (App { overlay: None, ..*self })
            } else {
                exists|named: App|
                    {
                        &&& App::prompted(
                            self.upgrade,
                            named.upgrade,
                            kind,
                            trimmed(buffer@),
                        )
                        &&& named == (App { overlay: None, upgrade: named.upgrade, ..*self })
                        &&& #[trigger] named.section_polled(after)
                    }
            },
            _ => after == (App { overlay: None, ..*self }),
        }
    }

    /// The upgrade section under the cursor was asked for, where it was due.
    pub open spec fn section_polled(&self, after: App) -> bool {
        &&& after.wf()
        &&& after.queue@ == self.section_queue(self.queue@)
        &&& self.section_asked(after.upgrade)
        &&& after == (App { queue: after.queue, upgrade: after.upgrade, ..*self })
    }

    pub fn submit_prompt(&mut self)
        requires
            old(self).wf(),
        ensures
            final(self).wf(),
            old(self).prompt_submitted(*final(self)),
    {
        let mut overlay: Option<Overlay> = None;
        std::mem::swap(&mut self.overlay, &mut overlay);
        if let Some(Overlay::Prompt { kind, label: _, buffer }) = overlay {
            let value = trim(buffer.as_str());
            if value.as_str().is_empty() {
                return;
            }
            match kind {
                PromptKind::HistoryModule => {
                    self.upgrade.history_module = Some(value);
                    self.upgrade.history = Loadable::default();
                },
                PromptKind::GrantsPrincipal => {
                    self.upgrade.grants_principal = Some(value);
                    self.upgrade.grants = Loadable::default();
                },
            }
            self.upgrade.tree.reset();
            let ghost named = *self;
            self.poll_upgrade_section();
            assert(named.section_polled(*self));
        }
    }

    // ----- ending a session -----------------------------------------------------------

    pub open spec fn end_asked(&self, after: App) -> bool {
        match key_of(self.sessions.open) {
            Some((plane, id)) => if self.tab != Tab::Sessions {
                after == *self
            } else {
                &&& after.overlay matches Some(Overlay::Confirm { title, detail, options, choice })
                &&& title@ == "end "@ + id + "?"@
                &&& detail@
                    == "this ends work the runtime is doing; it is not undone by reattaching"@
                &&& confirm_rows(options@) == ways_to_end(plane, id)
                &&& choice == 0
                &&& self.overlaid(after)
            },
            None => after == *self,
        }
    }

    pub fn open_close_confirm(&mut self)
        requires
            old(self).wf(),
        ensures
            final(self).wf(),
            old(self).end_asked(*final(self)),
    {
        if self.tab != Tab::Sessions {
            return;
        }
        let (plane, id) = match &self.sessions.open {
            Some(key) => (key.plane, key.id.clone()),
            None => {
                return;
            },
        };
        let options = end_options(plane, id.as_str());
        self.overlay = Some(
            Overlay::Confirm {
                title: cat3("end ", id.as_str(), "?"),
                detail: "this ends work the runtime is doing; it is not undone by reattaching".to_owned(),
                options,
                choice: 0,
            },
        );
    }
}

fn end_options(plane: Plane, id: &str) -> (r: Vec<(String, Option<Call>)>)
    ensures
        confirm_rows(r@) == ways_to_end(plane, id@),
{
    let mut options: Vec<(String, Option<Call>)> = Vec::new();
    match plane {
        Plane::Interactive => {
            options.push(
                (
                    "close (let the provider finish and shut down)".to_owned(),
                    Some(action_request("close", plane, id, "interactive.close")),
                ),
            );
            options.push(
                (
                    "kill (stop it now)".to_owned(),
                    Some(action_request("kill", plane, id, "interactive.kill")),
                ),
            );
            options.push(("cancel".to_owned(), None));
        },
        Plane::Coding => {
            options.push(
                (
                    "cancel the task".to_owned(),
                    Some(action_request("cancel", plane, id, "coding.cancel")),
                ),
            );
            options.push(("leave it running".to_owned(), None));
        },
    }
    assert(confirm_rows(options@) =~= ways_to_end(plane, id@));
    options
}

// ----- laws -------------------------------------------------------------------------

proof fn lemma_a_cancelled_login_keeps_the_dialog(before: App, after: App, login_id: Seq<char>)
    requires
        before.cancelled(after, login_id),
    ensures
        after.overlay == before.overlay,
        after.quit == before.quit,
{
    if !before.hello.lists("account.login.cancel"@) {
        let words = unserved_words("account.login.cancel"@);
        let freed = choose|freed: App|
            {
                &&& freed.queue@ == before.queue@.without(TagView::AccountCancel)
                &&& freed == (App { queue: freed.queue, ..before })
                &&& #[trigger] freed.cancel_refused(after, words)
            };
        let read = choose|read: App|
            {
                &&& #[trigger] freed.account_stale().polled(read)
                &&& after.wf()
                &&& after.says(
                    "cancelling ChatGPT sign-in failed: "@ + words,
                    NoticeKind::Error,
                )
                &&& after == (App { notice: after.notice, ..read })
            };
        lemma_only_the_visible_tab_is_polled(freed.account_stale(), read);
    }
}

/// Asking a turn to stop is never about this client: it changes no dialog and does not quit.
pub proof fn lemma_stopping_a_turn_keeps_the_dialog(before: App, after: App)
    requires
        before.turn_interrupted(after),
    ensures
        after.quit == before.quit,
        after.overlay == before.overlay,
{
    if let Some((Plane::Interactive, id)) = key_of(before.sessions.open) {
        let call = action_call("interrupt"@, Plane::Interactive, id, "interactive.interrupt"@);
        let mid = choose|mid: App|
            #[trigger] before.sent(mid, call) && mid.noticed(
                after,
                "interrupting the active turn of "@ + id,
                NoticeKind::Info,
            );
        let c = choose|c: Call| c@ == call && #[trigger] before.issued(mid, c);
        assert(c.tag is Action);
        lemma_an_action_keeps_the_dialog(before, mid, c);
    }
}

/// The key that interrupts is about the turn and never about this client: it opens no dialog and
/// does not quit.
pub proof fn lemma_interrupting_never_quits(before: App, after: App)
    requires
        before.interrupted(after),
    ensures
        after.quit == before.quit,
        after.overlay is None,
{
    if before.overlay is Some {
        let closed = App { overlay: None, ..before };
        if before.abandoned_login() is Some {
            lemma_a_cancelled_login_keeps_the_dialog(closed, after, before.abandoned_login()->0);
        }
    } else {
        lemma_stopping_a_turn_keeps_the_dialog(before, after);
    }
}

/// The dialog that ends a session opens on the mildest way to end it: Enter pressed by reflex
/// kills nothing.
pub proof fn lemma_enter_by_reflex_kills_nothing(before: App, after: App)
    requires
        before.tab == Tab::Sessions,
        before.sessions.open is Some,
        before.end_asked(after),
    ensures
        after.overlay matches Some(Overlay::Confirm { options, choice, .. }) && choice
            < options@.len() && (confirm_rows(options@)[choice as int].1 matches Some(call)
            && call.method != "interactive.kill"@),
{
    reveal_strlit("interactive.kill");
    reveal_strlit("interactive.close");
    reveal_strlit("coding.cancel");
    let (plane, id) = key_of(before.sessions.open)->0;
    let rows = ways_to_end(plane, id);
    assert(rows[0].1->0.method.len() != "interactive.kill"@.len());
    if let Some(Overlay::Confirm { options, .. }) = after.overlay {
        assert(confirm_rows(options@).len() == options@.len());
        assert(confirm_rows(options@)[0] == rows[0]);
    }
}

} // verus!
