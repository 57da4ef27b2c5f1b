//! A session that may edit the workspace, started beside the one that may not.

use vstd::prelude::*;

use crate::app::{App, NoticeKind};
use crate::forms::{
    lemma_a_start_states_each_field, lemma_a_word_is_written_whole, written, StartRequest,
};
use crate::model::Plane;
use crate::outgoing::{
    left, lemma_a_served_call_joins_the_queue, lemma_start_method, newest,
};
use crate::tags::{Call, Tag, TagView, START_TIMEOUT};
use crate::text::{cat2, cat3, said};

verus! {

/// The file access a writable session asks for.
pub const WORKSPACE_WRITE: &'static str = "workspace_write";

/// Text that states something.
pub open spec fn stated_or(text: Option<Seq<char>>, other: Seq<char>) -> Seq<char> {
    match text {
        Some(text) => if text.len() == 0 {
            other
        } else {
            text
        },
        None => other,
    }
}

impl App {
    pub open spec fn writable_provider(&self) -> Seq<char> {
        stated_or(
            match self.sessions.open_row() {
                Some(row) => said(row.provider),
                None => None,
            },
            self.provider(),
        )
    }

    pub open spec fn writable_workspace(&self) -> Seq<char> {
        stated_or(
            match self.sessions.open_row() {
                Some(row) => said(row.workspace),
                None => None,
            },
            self.workspace(),
        )
    }

    /// Why no writable session is started, and how loudly that is said. `open_writable` is what is
    /// known of the open session's file access, and `default_writable` what a new session gets.
    pub open spec fn writable_blocker(&self, open_writable: Option<bool>, default_writable: bool) -> Option<
        (Seq<char>, NoticeKind),
    > {
        if open_writable == Some(true) {
            Some(("this session can already edit files in the workspace"@, NoticeKind::Info))
        } else if self.sessions.open is None && default_writable {
            Some(
                (
                    "new sessions can already edit files; --sandbox-mode read_only or settings starts a read-only one"@,
                    NoticeKind::Info,
                ),
            )
        } else if !self.hello.lists("interactive.start"@) {
            Some(("this gateway does not serve interactive.start"@, NoticeKind::Warn))
        } else if !self.hello.can_operate() {
            Some((self.scope_words("starting a session mutates the runtime"@), NoticeKind::Warn))
        } else if self.writable_provider().len() == 0 {
            Some(("choose a provider before starting a writable session"@, NoticeKind::Warn))
        } else {
            None
        }
    }

    fn writable_refusal(&self, open_writable: Option<bool>, default_writable: bool) -> (r: Option<
        (String, NoticeKind),
    >)
        ensures
            match r {
                Some((words, kind)) => self.writable_blocker(open_writable, default_writable)
                    == Some((words@, kind)),
                None => self.writable_blocker(open_writable, default_writable) is None,
            },
    {
        if let Some(true) = open_writable {
            return Some(
                (
                    "this session can already edit files in the workspace".to_owned(),
                    NoticeKind::Info,
                ),
            );
        }
        if self.sessions.open.is_none() && default_writable {
            return Some(
                (
                    "new sessions can already edit files; --sandbox-mode read_only or settings starts a read-only one".to_owned(),
                    NoticeKind::Info,
                ),
            );
        }
        if !self.hello.serves("interactive.start") {
            return Some(
                ("this gateway does not serve interactive.start".to_owned(), NoticeKind::Warn),
            );
        }
        if !self.hello.operates() {
            let head = cat2(
                "starting a session mutates the runtime",
                ", and this listener runs at scope `",
            );
            return Some(
                (cat3(head.as_str(), self.hello.scope.as_str(), "`"), NoticeKind::Warn),
            );
        }
        if self.provider_for_writable().as_str().is_empty() {
            return Some(
                (
                    "choose a provider before starting a writable session".to_owned(),
                    NoticeKind::Warn,
                ),
            );
        }
        None
    }

    fn provider_for_writable(&self) -> (r: String)
        ensures
            r@ == self.writable_provider(),
    {
        if let Some(row) = self.sessions.open_info() {
            if let Some(provider) = &row.provider {
                if !provider.as_str().is_empty() {
                    return provider.clone();
                }
            }
        }
        self.home_provider().to_owned()
    }

    fn workspace_for_writable(&self) -> (r: String)
        ensures
            r@ == self.writable_workspace(),
    {
        if let Some(row) = self.sessions.open_info() {
            if let Some(workspace) = &row.workspace {
                if !workspace.as_str().is_empty() {
                    return workspace.clone();
                }
            }
        }
        self.default_workspace()
    }

    /// What a writable session asks for.
    pub open spec fn writable_request(&self, request: StartRequest, session_id: Seq<char>) -> bool {
        &&& request.id@ == session_id
        &&& request.plane == Plane::Interactive
        &&& request.provider@ == self.writable_provider()
        &&& request.machine@.len() == 0
        &&& said(request.model) == Some(self.model())
        &&& request.workspace@ == self.writable_workspace()
        &&& request.approval_mode == self.config.mode()
        &&& said(request.sandbox_mode) == Some(WORKSPACE_WRITE@)
        &&& request.reasoning_effort is None
        &&& request.objective@.len() == 0
    }

    /// It is said that a start goes out, the start is kept, and it goes out.
    pub open spec fn background_started(
        &self,
        after: App,
        request: StartRequest,
        words: Seq<char>,
        kind: NoticeKind,
    ) -> bool {
        exists|held: App|
            {
                &&& held.says(words, kind)
                &&& held.pending_background_start is Some
                &&& held.pending_background_start->0.same_as(request)
                &&& held == (App {
                    notice: held.notice,
                    pending_background_start: held.pending_background_start,
                    ..*self
                })
                &&& #[trigger] held.sent(after, App::start_call(request, Some(request.id@)))
            }
    }

    pub open spec fn reconciling_words(id: Seq<char>) -> Seq<char> {
        "reconciling the same writable session id "@ + id + "; no duplicate will be started"@
    }

    /// A writable session was started, or it was said why not. A start whose session is not known
    /// to exist goes out again as it was, and no second one is started.
    pub open spec fn writable_started(
        &self,
        after: App,
        open_writable: Option<bool>,
        default_writable: bool,
        session_id: Seq<char>,
    ) -> bool {
        match self.pending_background_start {
            Some(request) => if request.refusal() is Some {
                (App { pending_background_start: None, ..*self }).noticed(
                    after,
                    "the saved writable-session reconciliation was invalid; no request was sent"@,
                    NoticeKind::Error,
                )
            } else {
                self.background_started(
                    after,
                    request,
                    App::reconciling_words(request.id@),
                    NoticeKind::Warn,
                )
            },
            None => match self.writable_blocker(open_writable, default_writable) {
                Some((words, kind)) => self.noticed(after, words, kind),
                None => exists|request: StartRequest|
                    {
                        &&& #[trigger] self.writable_request(request, session_id)
                        &&& match request.refusal() {
                            Some(refusal) => self.noticed(
                                after,
                                refusal.words(),
                                NoticeKind::Warn,
                            ),
                            None => self.background_started(
                                after,
                                request,
                                "starting a session that can edit files in the workspace"@,
                                NoticeKind::Info,
                            ),
                        }
                    },
            },
        }
    }

    fn start_in_background(&mut self, request: StartRequest, words: String, kind: NoticeKind)
        requires
            old(self).wf(),
            request.refusal() is None,
        ensures
            final(self).wf(),
            old(self).background_started(*final(self), request, words@, kind),
    {
        if let Ok(params) = request.params() {
            self.inform(words, kind);
            let method = request.method();
            let call = Call::new(
                Tag::Start { plane: request.plane, id: Some(request.id.clone()) },
                method.as_str(),
                params,
            ).with_timeout(START_TIMEOUT);
            self.pending_background_start = Some(request);
            let ghost held = *self;
            self.send_call(call);
            assert(held.sent(*self, App::start_call(request, Some(request.id@))));
        }
    }

    /// Starts a session that can edit the workspace; `session_id` is a new one.
    pub fn start_writable_session(
        &mut self,
        open_writable: Option<bool>,
        default_writable: bool,
        session_id: &str,
    )
        requires
            old(self).wf(),
        ensures
            final(self).wf(),
            old(self).writable_started(
                *final(self),
                open_writable,
                default_writable,
                session_id@,
            ),
    {
        let mut held: Option<StartRequest> = None;
        if self.pending_background_start.is_some() {
            std::mem::swap(&mut self.pending_background_start, &mut held);
        }
        if let Some(request) = held {
            if request.params().is_err() {
                self.inform(
                    "the saved writable-session reconciliation was invalid; no request was sent".to_owned(),
                    NoticeKind::Error,
                );
                return;
            }
            let words = cat3(
                "reconciling the same writable session id ",
                request.id.as_str(),
                "; no duplicate will be started",
            );
            self.start_in_background(request, words, NoticeKind::Warn);
            return;
        }
        if let Some((words, kind)) = self.writable_refusal(open_writable, default_writable) {
            self.inform(words, kind);
            return;
        }
        let request = StartRequest {
            id: session_id.to_owned(),
            plane: Plane::Interactive,
            provider: self.provider_for_writable(),
            machine: String::new(),
            model: Some(self.home_model().to_owned()),
            workspace: self.workspace_for_writable(),
            approval_mode: self.config.approval(),
            objective: String::new(),
            sandbox_mode: Some(WORKSPACE_WRITE.to_owned()),
            reasoning_effort: None,
        };
        assert(old(self).writable_request(request, session_id@));
        match request.params() {
            Ok(_) => self.start_in_background(
                request,
                "starting a session that can edit files in the workspace".to_owned(),
                NoticeKind::Info,
            ),
            Err(refusal) => self.inform(refusal.message(), NoticeKind::Warn),
        }
    }
}

// ----- laws -------------------------------------------------------------------------

/// A start that is kept is not joined by a second one: whatever is asked for afterwards, the
/// session id that goes out is the one that is kept.
pub proof fn lemma_no_second_writable_session(
    before: App,
    after: App,
    open_writable: Option<bool>,
    default_writable: bool,
    session_id: Seq<char>,
)
    requires
        before.pending_background_start is Some,
        before.pending_background_start->0.refusal() is None,
        before.writable_started(after, open_writable, default_writable, session_id),
    ensures
        before.background_started(
            after,
            before.pending_background_start->0,
            App::reconciling_words(before.pending_background_start->0.id@),
            NoticeKind::Warn,
        ),
{
}

/// A writable session is asked for as one that may write to the workspace, where the open session
/// works, and under the id that was made for it.
#[verifier::rlimit(60)]
pub proof fn lemma_a_writable_session_is_asked_to_write(
    before: App,
    after: App,
    request: StartRequest,
    session_id: Seq<char>,
    words: Seq<char>,
    kind: NoticeKind,
)
    requires
        before.writable_request(request, session_id),
        before.background_started(after, request, words, kind),
        before.hello.lists("interactive.start"@),
        !before.queue@.in_flight.contains(
            TagView::Start { plane: Plane::Interactive, id: Some(session_id) },
        ),
    ensures
        left(before, after),
        newest(after).method == "interactive.start"@,
        newest(after).params.member_text("sandbox_mode"@) == Some("workspace_write"@),
        newest(after).params.member("workspace"@) == written(before.writable_workspace()),
        newest(after).params.member("provider"@) == written(before.writable_provider()),
        newest(after).params.member("id"@) == written(session_id),
        newest(after).tag == (TagView::Start { plane: Plane::Interactive, id: Some(session_id) }),
        after.pending_background_start is Some,
        after.pending_background_start->0.id@ == session_id,
{
    reveal_strlit("workspace_write");
    let call = App::start_call(request, Some(request.id@));
    let held = choose|held: App|
        {
            &&& held.says(words, kind)
            &&& held.pending_background_start is Some
            &&& held.pending_background_start->0.same_as(request)
            &&& held == (App {
                notice: held.notice,
                pending_background_start: held.pending_background_start,
                ..before
            })
            &&& #[trigger] held.sent(after, call)
        };
    lemma_start_method(request.plane);
    lemma_a_start_states_each_field(request);
    lemma_a_word_is_written_whole("workspace_write"@);
    lemma_a_served_call_joins_the_queue(held, after, call);
}

} // verus!
