//! The controls of a client that is no terminal, over the same state.
//!
//! A window and a terminal must not mean different things by sending, approving or starting. What
//! a window shows is read here, and what it asks for goes the way the terminal's keys go.

use std::sync::Arc;

use vstd::prelude::*;

use crate::app::{asked, asked_queue, App, Errand, Overlay, STATUS_TICKS};
use crate::cells::{Cell, ImageCell};
use crate::desktop::{approval_card, attach_passive_metadata, desktop_cell, face_of, shelved,
    shown_all, DesktopApproval, DesktopCell, DesktopCellKind, DesktopTone, Face, Shown};
use crate::forms::{written, AccountDialog, AccountFlow, ProviderEntry, StartRequest};
use crate::model::{ApprovalDecision, ApprovalScope, Capability, Effort, PlanChoice, Plane,
    SessionInfo};
use crate::outgoing::{answers_request, approval_method, delete_method, left,
    lemma_a_removal_names_its_session, lemma_a_rename_carries_the_title,
    lemma_a_sign_in_names_its_flow, lemma_a_window_starts_what_its_form_says,
    lemma_an_answer_says_what_was_decided, lemma_delete_method, newest};
use crate::sessions::{key_of, watch_at, watched, Composer, SessionsTab};
use crate::tags::{id_params, plain_call, text_param, Call, CallView, ComposerVerb, Params, Tag,
    TagView, START_TIMEOUT};
use crate::text::{as_deref, begins, cat2, cat3, chars_of, control, copy_text, heard, is_control,
    said, same, starts_with, trim, trim_end, trimmed, trimmed_end};
use crate::watch::Watch;

verus! {

// ----- the account ------------------------------------------------------------------

/// How an account and its sign-in stand, with no secret in it.
#[derive(Debug)]
pub struct DesktopAccount {
    pub resolved: bool,
    pub connected: bool,
    pub usable: bool,
    pub pending: bool,
    pub identity: Option<String>,
    pub url: Option<String>,
    pub code: Option<String>,
    pub error: Option<String>,
}

/// The first of two that is there.
pub open spec fn either(a: Option<Seq<char>>, b: Option<Seq<char>>) -> Option<Seq<char>> {
    if a is Some {
        a
    } else {
        b
    }
}

fn first_of(a: Option<String>, b: Option<String>) -> (r: Option<String>)
    ensures
        said(r) == either(said(a), said(b)),
{
    match a {
        Some(text) => Some(text),
        None => b,
    }
}

impl App {
    pub open spec fn account_dialog(&self) -> Option<AccountDialog> {
        match self.overlay {
            Some(Overlay::Account(dialog)) => Some(*dialog),
            _ => None,
        }
    }

    /// A sign-in waits, by the dialog or by what the runtime says.
    pub open spec fn login_waits(&self) -> bool {
        ||| self.account_dialog() is Some && self.account_dialog()->0.pending
        ||| self.account.value is Some && self.account.value->0.login_status@ == "pending"@
    }

    /// Who is signed in, as far as the runtime tells.
    pub open spec fn account_identity(&self) -> Option<Seq<char>> {
        match self.account.value {
            Some(state) => if state.known {
                either(
                    either(said(state.email), said(state.plan_label)),
                    Some("ChatGPT subscription"@),
                )
            } else {
                None
            },
            None => None,
        }
    }

    pub open spec fn reads_account(&self, r: DesktopAccount) -> bool {
        let dialog = self.account_dialog();
        let state = self.account.value;
        &&& r.resolved == (state is Some || self.account.error is Some)
        &&& r.connected == self.is_connected()
        &&& r.usable == (state is Some && state->0.usable)
        &&& r.pending == self.login_waits()
        &&& said(r.identity) == self.account_identity()
        &&& said(r.url) == match dialog {
            Some(dialog) => said(dialog.url),
            None => None,
        }
        &&& said(r.code) == match dialog {
            Some(dialog) => said(dialog.code),
            None => None,
        }
        &&& said(r.error) == either(
            either(
                match dialog {
                    Some(dialog) => said(dialog.error),
                    None => None,
                },
                match state {
                    Some(state) => said(state.login_error),
                    None => None,
                },
            ),
            said(self.account.error),
        )
    }

    pub fn desktop_account(&self) -> (r: DesktopAccount)
        ensures
            self.reads_account(r),
    {
        let (waits, url, code, dialog_error) = match &self.overlay {
            Some(Overlay::Account(dialog)) => (
                dialog.pending,
                copy_text(&dialog.url),
                copy_text(&dialog.code),
                copy_text(&dialog.error),
            ),
            _ => (false, None, None, None),
        };
        let (usable, login_waits, identity, login_error) = match &self.account.value {
            Some(state) => (
                state.usable,
                same(state.login_status.as_str(), "pending"),
                if state.known {
                    first_of(
                        first_of(copy_text(&state.email), copy_text(&state.plan_label)),
                        Some("ChatGPT subscription".to_owned()),
                    )
                } else {
                    None
                },
                copy_text(&state.login_error),
            ),
            None => (false, false, None, None),
        };
        DesktopAccount {
            resolved: self.account.value.is_some() || self.account.error.is_some(),
            connected: self.chatgpt_connected(),
            usable,
            pending: waits || login_waits,
            identity,
            url,
            code,
            error: first_of(
                first_of(dialog_error, login_error),
                copy_text(&self.account.error),
            ),
        }
    }

    /// Why a window's sign-in does not start.
    pub open spec fn window_login_blocker(&self) -> Option<Seq<char>> {
        match self.login_blocker() {
            Some(words) => Some(words),
            None => if self.login_waits() {
                Some("ChatGPT sign-in is already waiting for completion"@)
            } else {
                None
            },
        }
    }

    /// Starts a sign-in, unless an account is connected. A client on the runtime's own machine can
    /// receive the browser's answer; any other uses a code.
    pub fn desktop_start_chatgpt_login(&mut self, local_runtime: bool) -> (r: Result<(), String>)
        requires
            old(self).wf(),
        ensures
            final(self).wf(),
            if old(self).is_connected() {
                r is Ok && *final(self) == *old(self)
            } else {
                match old(self).window_login_blocker() {
                    Some(words) => r matches Err(said) && said@ == words && *final(self) == *old(
                        self,
                    ),
                    None => r is Ok && old(self).login_begun(
                        *final(self),
                        if local_runtime {
                            AccountFlow::Browser
                        } else {
                            AccountFlow::DeviceCode
                        },
                    ),
                }
            },
            r is Ok && !old(self).is_connected() && !old(self).queue@.in_flight.contains(
                TagView::AccountLogin,
            ) ==> {
                &&& left(*old(self), *final(self))
                &&& newest(*final(self)).params.member_text("flow"@) == Some("browser"@)
                    <==> local_runtime
                &&& newest(*final(self)).params.member_text("flow"@) == Some("device_code"@)
                    <==> !local_runtime
            },
    {
        if self.chatgpt_connected() {
            return Ok(());
        }
        if let Some(words) = self.login_refusal() {
            return Err(words);
        }
        if self.desktop_account().pending {
            return Err("ChatGPT sign-in is already waiting for completion".to_owned());
        }
        let flow = if local_runtime {
            AccountFlow::Browser
        } else {
            AccountFlow::DeviceCode
        };
        self.begin_login(flow);
        proof {
            if !old(self).queue@.in_flight.contains(TagView::AccountLogin) {
                lemma_a_sign_in_names_its_flow(*old(self), *self, flow);
            }
        }
        Ok(())
    }

    /// Gives a sign-in up, and leaves no request behind on the runtime's host.
    pub fn desktop_cancel_chatgpt_login(&mut self)
        requires
            old(self).wf(),
        ensures
            final(self).wf(),
            old(self).overlay_closed(*final(self)),
    {
        self.close_overlay();
    }
}

// ----- sessions ---------------------------------------------------------------------

/// A row of a window's session list.
#[derive(Debug)]
pub struct DesktopSession {
    pub plane: Plane,
    pub id: String,
    pub title: Option<String>,
    pub status: String,
    pub provider: Option<String>,
    pub model: Option<String>,
    pub workspace: Option<String>,
    /// Which group of the list the row stands in, from the top.
    pub triage: usize,
    pub depth: usize,
    pub selected: bool,
    pub pending_approvals: usize,
    pub last_known: bool,
    pub terminal: bool,
    pub can_rename: bool,
    pub can_delete: bool,
}

/// A session with its place in the list.
pub struct TriageRow<'a> {
    pub session: &'a SessionInfo,
    pub group: usize,
    pub depth: usize,
}

impl App {
    /// The approvals of a session that wait on a person, where it is watched.
    pub open spec fn waiting_approvals(&self, plane: Plane, id: Seq<char>) -> nat {
        let watches = self.sessions.watches@;
        if watched(watches, plane, id) {
            Watch::open_count(watches[watch_at(watches, plane, id)].approvals@)
        } else {
            0
        }
    }

    /// A session can be deleted once nothing more comes of it; where its owner is offline only the
    /// row goes.
    pub open spec fn deletable(&self, session: SessionInfo) -> bool {
        self.hello.can_operate() && (session.last_known || (session.status.terminal
            && self.hello.lists(session.plane.method_of("delete"@))))
    }

    pub open spec fn renamable(&self, session: SessionInfo) -> bool {
        session.plane == Plane::Interactive && !session.last_known && self.hello.can_operate()
            && self.hello.lists("interactive.rename"@)
    }

    pub open spec fn shows_session(&self, r: DesktopSession, session: SessionInfo, group: usize, depth: usize) -> bool {
        &&& r.plane == session.plane
        &&& r.id@ == session.id@
        &&& said(r.title) == said(session.title)
        &&& r.status@ == session.status.word@
        &&& said(r.provider) == said(session.provider)
        &&& said(r.model) == said(session.model)
        &&& said(r.workspace) == said(session.workspace)
        &&& r.triage == group && r.depth == depth
        &&& r.selected == (key_of(self.sessions.open) == Some((session.plane, session.id@)))
        &&& r.pending_approvals == self.waiting_approvals(session.plane, session.id@)
        &&& r.last_known == session.last_known
        &&& r.terminal == session.status.terminal
        &&& r.can_rename == self.renamable(session)
        &&& r.can_delete == self.deletable(session)
    }

    fn desktop_session(&self, session: &SessionInfo, group: usize, depth: usize) -> (r:
        DesktopSession)
        requires
            self.wf(),
        ensures
            self.shows_session(r, *session, group, depth),
    {
        let pending: usize = match self.sessions.find(session.plane, session.id.as_str()) {
            Some(at) => self.sessions.watches[at].unanswered_approvals(),
            None => 0,
        };
        let delete = session.plane.method("delete");
        DesktopSession {
            plane: session.plane,
            id: session.id.clone(),
            title: copy_text(&session.title),
            status: session.status.word.clone(),
            provider: copy_text(&session.provider),
            model: copy_text(&session.model),
            workspace: copy_text(&session.workspace),
            triage: group,
            depth,
            selected: crate::sessions::is_key(
                &self.sessions.open,
                session.plane,
                session.id.as_str(),
            ),
            pending_approvals: pending,
            last_known: session.last_known,
            terminal: session.status.terminal,
            can_rename: session.plane == Plane::Interactive && !session.last_known
                && self.hello.operates() && self.hello.serves("interactive.rename"),
            can_delete: self.hello.operates() && (session.last_known || (session.status.terminal
                && self.hello.serves(delete.as_str()))),
        }
    }

    /// The rows of a window's list, in the order and at the depth they were placed in.
    pub fn desktop_sessions(&self, rows: &Vec<TriageRow>) -> (r: Vec<DesktopSession>)
        requires
            self.wf(),
        ensures
            r@.len() == rows@.len(),
            forall|i: int|
                0 <= i < rows@.len() ==> self.shows_session(
                    #[trigger] r@[i],
                    *rows@[i].session,
                    rows@[i].group,
                    rows@[i].depth,
                ),
    {
        let mut out: Vec<DesktopSession> = Vec::new();
        let mut i: usize = 0;
        while i < rows.len()
            invariant
                self.wf(),
                i <= rows@.len(),
                out@.len() == i,
                forall|k: int|
                    0 <= k < i ==> self.shows_session(
                        #[trigger] out@[k],
                        *rows@[k].session,
                        rows@[k].group,
                        rows@[k].depth,
                    ),
            decreases rows@.len() - i,
        {
            let row = &rows[i];
            out.push(self.desktop_session(row.session, row.group, row.depth));
            i += 1;
        }
        out
    }
}

// ----- the transcript ---------------------------------------------------------------

/// A picture that was fetched, under the hash it is known by.
#[derive(Debug)]
pub struct Artifact {
    pub sha: String,
    pub bytes: Arc<Vec<u8>>,
}

pub open spec fn holds_artifact(artifacts: Seq<Artifact>, sha: Seq<char>) -> bool {
    exists|i: int| 0 <= i < artifacts.len() && (#[trigger] artifacts[i]).sha@ == sha
}

/// An image cell with its picture, where that was fetched and the cell has none.
pub open spec fn with_picture(before: Cell, after: Cell, artifacts: Seq<Artifact>) -> bool {
    match before {
        Cell::Image(image) => if image.bytes is None && image.sha is Some && holds_artifact(
            artifacts,
            image.sha->0@,
        ) {
            exists|i: int|
                0 <= i < artifacts.len() && (#[trigger] artifacts[i]).sha@ == image.sha->0@ && after
                    == Cell::Image(ImageCell { bytes: Some(artifacts[i].bytes), ..image })
        } else {
            after == before
        },
        _ => after == before,
    }
}

fn with_desktop_artifact_bytes(cell: Cell, artifacts: &Vec<Artifact>) -> (r: Cell)
    ensures
        with_picture(cell, r, artifacts@),
{
    match cell {
        Cell::Image(image) => {
            let mut image = image;
            if image.bytes.is_none() {
                if let Some(sha) = &image.sha {
                    let mut i: usize = 0;
                    let mut found: Option<usize> = None;
                    while i < artifacts.len()
                        invariant
                            i <= artifacts@.len(),
                            match found {
                                Some(at) => at < artifacts@.len() && artifacts@[at as int].sha@
                                    == sha@,
                                None => forall|k: int|
                                    0 <= k < i ==> (#[trigger] artifacts@[k]).sha@ != sha@,
                            },
                        decreases artifacts@.len() - i,
                    {
                        if found.is_none() && same(artifacts[i].sha.as_str(), sha.as_str()) {
                            found = Some(i);
                        }
                        i += 1;
                    }
                    if let Some(at) = found {
                        image.bytes = Some(Arc::clone(&artifacts[at].bytes));
                    }
                }
            }
            Cell::Image(image)
        },
        other => other,
    }
}

/// The row that says a reply is on its way, which no transcript can say by itself.
pub open spec fn working_face() -> Face {
    Face {
        key: None,
        kind: DesktopCellKind::Activity,
        label: "Agent is working"@,
        body: Seq::empty(),
        tone: DesktopTone::Accent,
        streaming: true,
    }
}

/// Each cell as a window draws it, with the pictures that were fetched.
pub open spec fn projected(cells: Seq<Cell>, artifacts: Seq<Artifact>, r: Seq<DesktopCell>) -> bool {
    &&& r.len() == cells.len()
    &&& forall|i: int| 0 <= i < cells.len() ==> drawn_from(cells[i], #[trigger] r[i], artifacts)
}

pub open spec fn drawn_from(cell: Cell, r: DesktopCell, artifacts: Seq<Artifact>) -> bool {
    exists|pictured: Cell|
        #[trigger] with_picture(cell, pictured, artifacts) && r.face() == face_of(pictured)
            && r.metadata@.len() == 0
}

impl App {
    /// The conversation as a window shows it: `cells` are those of the open transcript, and nothing
    /// is shown where none is open.
    pub fn desktop_transcript(&self, cells: Vec<Cell>, artifacts: &Vec<Artifact>) -> (r: Vec<
        DesktopCell,
    >)
        requires
            self.wf(),
        ensures
            if self.sessions.open_index() is None {
                r@.len() == 0
            } else {
                exists|rows: Seq<DesktopCell>|
                    #[trigger] projected(cells@, artifacts@, rows) && shown_all(r@) == shelved(
                        rows,
                    ).visible + if self.waits() {
                        seq![Shown { face: working_face(), metadata: Seq::empty() }]
                    } else {
                        Seq::empty()
                    }
            },
    {
        if self.sessions.open_at().is_none() {
            return Vec::new();
        }
        let mut rows: Vec<DesktopCell> = Vec::new();
        for cell in it: cells.into_iter()
            invariant
                rows@.len() == it.index(),
                it.seq() == cells@,
                forall|i: int|
                    0 <= i < it.index() ==> drawn_from(cells@[i], #[trigger] rows@[i], artifacts@),
        {
            let pictured = with_desktop_artifact_bytes(cell, artifacts);
            assert(with_picture(cell, pictured, artifacts@));
            let row = desktop_cell(pictured);
            assert(drawn_from(cell, row, artifacts@));
            rows.push(row);
        }
        assert(projected(cells@, artifacts@, rows@));
        let ghost shown = rows@;
        let mut out = attach_passive_metadata(rows);
        if self.waiting_for_open_agent_reply() {
            let ghost before = out@;
            let row = DesktopCell {
                key: None,
                kind: DesktopCellKind::Activity,
                label: "Agent is working".to_owned(),
                body: String::new(),
                tone: DesktopTone::Accent,
                streaming: true,
                metadata: Vec::new(),
            };
            assert(row.body@ =~= Seq::empty());
            assert(crate::text::texts(row.metadata@) =~= Seq::empty());
            out.push(row);
            assert(shown_all(out@) =~= shown_all(before).push(row.shown()));
            assert(shown_all(out@) =~= shown_all(before) + seq![
                Shown { face: working_face(), metadata: Seq::empty() },
            ]);
        } else {
            assert(shown_all(out@) =~= shelved(shown).visible + Seq::empty());
        }
        out
    }
}

// ----- approvals --------------------------------------------------------------------

impl App {
    /// The request the open session waits on.
    pub open spec fn open_approval_request(&self) -> Option<crate::desktop::ApprovalRequest> {
        match self.sessions.open_index() {
            Some(at) => self.sessions.watches@[at].open_request(),
            None => None,
        }
    }

    /// The machine the open session is on, where its row says.
    pub open spec fn open_node(&self) -> Option<Seq<char>> {
        match self.sessions.open_row() {
            Some(row) => said(row.node),
            None => None,
        }
    }

    /// The approval card of the open session.
    pub fn desktop_approval(&self) -> (r: Option<DesktopApproval>)
        requires
            self.wf(),
        ensures
            match self.open_approval_request() {
                Some(request) => r is Some && r->0.presents(
                    self.sessions.open->0.plane,
                    self.sessions.open->0.id@,
                    request,
                    self.open_node(),
                ),
                None => r is None,
            },
    {
        let key = match &self.sessions.open {
            Some(key) => key,
            None => {
                return None;
            },
        };
        let at: usize = match self.sessions.open_at() {
            Some(at) => at,
            None => {
                return None;
            },
        };
        match self.sessions.watches[at].next_approval() {
            Some(request) => {
                let home = match self.sessions.open_info() {
                    Some(row) => as_deref(&row.node),
                    None => None,
                };
                Some(approval_card(key.plane, key.id.as_str(), request, home))
            },
            None => None,
        }
    }

    /// Why a button does not answer: the request it was drawn for has to be the one that waits.
    pub open spec fn stale_button(
        &self,
        request_id: Seq<char>,
        idle: Seq<char>,
        changed: Seq<char>,
    ) -> Option<Seq<char>> {
        if self.sessions.open is None {
            Some("no session is open"@)
        } else {
            match self.open_approval_request() {
                None => Some(idle),
                Some(request) => if request.request_id@ != request_id {
                    Some(changed)
                } else {
                    None
                },
            }
        }
    }

    fn button_refusal(&self, request_id: &str, idle: &str, changed: &str) -> (r: Option<String>)
        requires
            self.wf(),
        ensures
            said(r) == self.stale_button(request_id@, idle@, changed@),
    {
        if self.sessions.open.is_none() {
            return Some("no session is open".to_owned());
        }
        let at: usize = match self.sessions.open_at() {
            Some(at) => at,
            None => {
                return Some(idle.to_owned());
            },
        };
        match self.sessions.watches[at].next_approval() {
            None => Some(idle.to_owned()),
            Some(request) => if same(request.request_id.as_str(), request_id) {
                None
            } else {
                Some(changed.to_owned())
            },
        }
    }

    pub open spec fn approval_blocker(&self, request_id: Seq<char>) -> Option<Seq<char>> {
        self.stale_button(
            request_id,
            "this session is not waiting on approval"@,
            "the approval changed; review the new request before answering"@,
        )
    }

    /// Answers the approval that is shown. A button of an earlier one answers nothing.
    pub fn desktop_respond_approval(
        &mut self,
        request_id: &str,
        decision: ApprovalDecision,
        scope: ApprovalScope,
    ) -> (r: Result<(), String>)
        requires
            old(self).wf(),
        ensures
            final(self).wf(),
            match old(self).approval_blocker(request_id@) {
                Some(words) => r matches Err(said) && said@ == words && *final(self) == *old(self),
                None => {
                    let (plane, id) = (old(self).sessions.open->0.plane, old(
                        self,
                    ).sessions.open->0.id@);
                    &&& old(self).approval_answered(
                        *final(self),
                        plane,
                        id,
                        request_id@,
                        decision,
                        scope,
                    )
                    &&& if old(self).can_claim(plane, id, request_id@) {
                        r is Ok
                    } else {
                        r matches Err(said) && said@ == "this approval is already being answered"@
                    }
                },
            },
            r is Ok ==> ({
                let (plane, id) = (old(self).sessions.open->0.plane, old(
                    self,
                ).sessions.open->0.id@);
                old(self).hello.lists(approval_method(plane)) && !old(self).queue@.in_flight.contains(
                    TagView::Approval { plane, id, request_id: request_id@ },
                ) ==> left(*old(self), *final(self)) && answers_request(
                    newest(*final(self)),
                    plane,
                    id,
                    request_id@,
                    decision,
                    scope,
                )
            }),
    {
        if let Some(words) = self.button_refusal(
            request_id,
            "this session is not waiting on approval",
            "the approval changed; review the new request before answering",
        ) {
            return Err(words);
        }
        let (plane, id) = match &self.sessions.open {
            Some(key) => (key.plane, key.id.clone()),
            None => {
                return Err("no session is open".to_owned());
            },
        };
        if self.answer_approval(plane, id.as_str(), request_id, decision, scope) {
            proof {
                if old(self).hello.lists(approval_method(plane))
                    && !old(self).queue@.in_flight.contains(
                    TagView::Approval { plane, id: id@, request_id: request_id@ },
                ) {
                    lemma_an_answer_says_what_was_decided(
                        *old(self),
                        *self,
                        plane,
                        id@,
                        request_id@,
                        decision,
                        scope,
                    );
                }
            }
            Ok(())
        } else {
            Err("this approval is already being answered".to_owned())
        }
    }

    pub open spec fn plan_blocker(&self, request_id: Seq<char>) -> Option<Seq<char>> {
        self.stale_button(
            request_id,
            "this session is not waiting on a plan decision"@,
            "the plan decision changed; review it before answering"@,
        )
    }

    /// The plan exit of the open session is left to be answered with `choice`.
    pub open spec fn plan_handed(&self, after: App, request_id: Seq<char>, choice: Seq<char>) -> bool {
        exists|errand: Errand|
            {
                &&& #[trigger] self.handed(after, errand)
                &&& errand matches Errand::AnswerPlan { plane, id, request_id: r, choice: c }
                &&& plane == self.sessions.open->0.plane
                &&& id@ == self.sessions.open->0.id@
                &&& r@ == request_id
                &&& c@ == choice
            }
    }

    pub fn desktop_respond_plan(&mut self, request_id: &str, choice: &PlanChoice) -> (r: Result<
        (),
        String,
    >)
        requires
            old(self).wf(),
        ensures
            final(self).wf(),
            match old(self).plan_blocker(request_id@) {
                Some(words) => r matches Err(said) && said@ == words && *final(self) == *old(self),
                None => r is Ok && old(self).plan_handed(
                    *final(self),
                    request_id@,
                    choice.word@,
                ),
            },
    {
        if let Some(words) = self.button_refusal(
            request_id,
            "this session is not waiting on a plan decision",
            "the plan decision changed; review it before answering",
        ) {
            return Err(words);
        }
        let (plane, id) = match &self.sessions.open {
            Some(key) => (key.plane, key.id.clone()),
            None => {
                return Err("no session is open".to_owned());
            },
        };
        let ghost start = *self;
        let errand = Errand::AnswerPlan {
            plane,
            id,
            request_id: request_id.to_owned(),
            choice: choice.word.clone(),
        };
        self.hand(errand);
        assert(start.handed(*self, errand));
        Ok(())
    }

    /// Interrupts the turn that runs, whatever dialog is open.
    pub fn desktop_interrupt(&mut self)
        requires
            old(self).wf(),
        ensures
            final(self).wf(),
            old(self).turn_interrupted(*final(self)),
    {
        self.interrupt_turn();
    }

    /// The prompt of a refused start, once.
    pub fn desktop_take_restored_draft(&mut self) -> (r: Option<String>)
        ensures
            r == old(self).desktop_restored_draft,
            *final(self) == (App { desktop_restored_draft: None, ..*old(self) }),
    {
        let mut out: Option<String> = None;
        std::mem::swap(&mut self.desktop_restored_draft, &mut out);
        out
    }

    /// What the open session may do to files, as the runtime listed it. Where the runtime has not
    /// said, nothing is: a default here would be a safety fact that nobody stated.
    pub fn desktop_sandbox_mode(&self) -> (r: Option<String>)
        ensures
            said(r) == match self.sessions.open_row() {
                Some(row) => said(row.sandbox_mode),
                None => None,
            },
    {
        match self.sessions.open_info() {
            Some(info) => copy_text(&info.sandbox_mode),
            None => None,
        }
    }

    /// Whether this client answers the open session's approvals by itself.
    pub fn desktop_auto_approve(&self) -> (r: Option<bool>)
        ensures
            r == match key_of(self.sessions.open) {
                Some(key) => Some(self.sessions.auto_approve@.contains(key)),
                None => None,
            },
    {
        match &self.sessions.open {
            Some(key) => Some(self.sessions.auto_approve.contains(key.plane, key.id.as_str())),
            None => None,
        }
    }

    /// Asks that the open session's approvals be answered by this client, or no longer.
    pub fn desktop_set_auto_approve(&mut self, on: bool) -> (r: Result<(), String>)
        requires
            old(self).wf(),
        ensures
            final(self).wf(),
            if old(self).sessions.open is None {
                r matches Err(said) && said@ == "no session is open"@ && *final(self) == *old(self)
            } else {
                r is Ok && old(self).handed(*final(self), Errand::AutoApprove { on })
            },
    {
        if self.sessions.open.is_none() {
            return Err("no session is open".to_owned());
        }
        self.hand(Errand::AutoApprove { on });
        Ok(())
    }
}

// ----- messages ---------------------------------------------------------------------

impl App {
    /// The open session runs on a model that needs an account.
    pub open spec fn session_needs_account(&self) -> bool {
        match self.sessions.open_row() {
            Some(row) => said(row.provider) == Some("native"@) && row.model is Some && begins(
                row.model->0@,
                "openai_codex:"@,
            ),
            None => false,
        }
    }

    fn session_requires_chatgpt(&self) -> (r: bool)
        ensures
            r == self.session_needs_account(),
    {
        match self.sessions.open_info() {
            Some(row) => crate::text::is_text(&row.provider, "native") && match &row.model {
                Some(model) => starts_with(model.as_str(), "openai_codex:"),
                None => false,
            },
            None => false,
        }
    }

    /// Why a message is not sent.
    pub open spec fn message_blocker(&self, text: Seq<char>) -> Option<Seq<char>> {
        if trimmed(trimmed_end(text)).len() == 0 {
            Some("write a message before sending"@)
        } else {
            match key_of(self.sessions.open) {
                None => Some("open an interactive session before sending"@),
                Some((Plane::Coding, id)) => Some(
                    id + " is a coding task and does not accept follow-up messages"@,
                ),
                Some(_) => if self.session_needs_account() && !self.is_usable() {
                    Some("connect ChatGPT before sending to this session"@)
                } else {
                    None
                },
            }
        }
    }

    fn message_refusal(&self, text: &str) -> (r: Option<String>)
        ensures
            said(r) == self.message_blocker(text@),
    {
        if trim(trim_end(text).as_str()).as_str().is_empty() {
            return Some("write a message before sending".to_owned());
        }
        let key = match &self.sessions.open {
            Some(key) => key,
            None => {
                return Some("open an interactive session before sending".to_owned());
            },
        };
        if key.plane != Plane::Interactive {
            return Some(
                cat2(
                    key.id.as_str(),
                    " is a coding task and does not accept follow-up messages",
                ),
            );
        }
        if self.session_requires_chatgpt() && !self.codex_usable() {
            return Some("connect ChatGPT before sending to this session".to_owned());
        }
        None
    }

    /// Why a composer does not take a window's message: a draft that was put back is not replaced.
    pub open spec fn composer_blocker(&self, text: Seq<char>) -> Option<Seq<char>> {
        match self.sessions.composer {
            None => Some(
                match self.notice {
                    Some(notice) => notice.text@,
                    None => "this session cannot accept a message"@,
                },
            ),
            Some(composer) => if trimmed(composer.editor.text@).len() > 0 && composer.editor.text@
                != text {
                Some(
                    "this session has a restored terminal draft; submit or clear it in the TUI before replacing it from desktop"@,
                )
            } else {
                None
            },
        }
    }

    fn composer_refusal(&self, text: &str) -> (r: Option<String>)
        ensures
            said(r) == self.composer_blocker(text@),
    {
        match &self.sessions.composer {
            None => match &self.notice {
                Some(notice) => Some(notice.text.clone()),
                None => Some("this session cannot accept a message".to_owned()),
            },
            Some(composer) => {
                let held = composer.editor.text.as_str();
                if !trim(held).as_str().is_empty() && !same(held, text) {
                    Some(
                        "this session has a restored terminal draft; submit or clear it in the TUI before replacing it from desktop".to_owned(),
                    )
                } else {
                    None
                }
            },
        }
    }

    /// The composer holds a window's message.
    pub open spec fn message_written(&self, after: App, text: Seq<char>) -> bool {
        match self.sessions.composer {
            Some(composer) => {
                &&& after.sessions.composer is Some
                &&& ({
                    let now = after.sessions.composer->0;
                    &&& now.editor.text@ == text && !now.editor.completing
                    &&& now == (Composer {
                        editor: now.editor,
                        generation: if composer.generation == u64::MAX {
                            u64::MAX
                        } else {
                            (composer.generation + 1) as u64
                        },
                        ..composer
                    })
                })
                &&& after == (App {
                    sessions: SessionsTab { composer: after.sessions.composer, ..self.sessions },
                    ..*self
                })
            },
            None => after == *self,
        }
    }

    fn write_message(&mut self, text: &str)
        requires
            old(self).wf(),
        ensures
            final(self).wf(),
            old(self).message_written(*final(self), text@),
    {
        let mut held: Option<Composer> = None;
        std::mem::swap(&mut self.sessions.composer, &mut held);
        if let Some(composer) = held {
            let mut composer = composer;
            composer.editor.hold(text);
            composer.generation = composer.generation.saturating_add(1);
            self.sessions.composer = Some(composer);
        }
    }

    /// A message went through a composer, the way a typed one goes.
    pub open spec fn message_sent(&self, after: App, text: Seq<char>, fresh: Seq<char>) -> bool {
        exists|written: App|
            #[trigger] self.message_written(written, text) && written.composer_submitted(
                after,
                fresh,
            )
    }

    /// A message was sent, or `refusal` says why it was not.
    pub open spec fn message_offered(
        &self,
        after: App,
        text: Seq<char>,
        fresh: Seq<char>,
        refusal: Option<Seq<char>>,
    ) -> bool {
        match self.message_blocker(text) {
            Some(words) => refusal == Some(words) && after == *self,
            None => exists|composed: App|
                {
                    &&& #[trigger] self.composing(composed, ComposerVerb::Message)
                    &&& match composed.composer_blocker(trimmed_end(text)) {
                        Some(words) => refusal == Some(words) && after == composed,
                        None => refusal is None && composed.message_sent(
                            after,
                            trimmed_end(text),
                            fresh,
                        ),
                    }
                },
        }
    }

    /// Sends one message of a window; `fresh` is a new id, for a turn that has none.
    pub fn desktop_submit_message(&mut self, text: &str, fresh: &str) -> (r: Result<(), String>)
        requires
            old(self).wf(),
        ensures
            final(self).wf(),
            old(self).message_offered(
                *final(self),
                text@,
                fresh@,
                match r {
                    Ok(()) => None,
                    Err(words) => Some(words@),
                },
            ),
    {
        let ghost start = *self;
        if let Some(words) = self.message_refusal(text) {
            return Err(words);
        }
        let text = trim_end(text);
        self.compose(ComposerVerb::Message);
        let ghost composed = *self;
        assert(start.composing(composed, ComposerVerb::Message));
        if let Some(words) = self.composer_refusal(text.as_str()) {
            return Err(words);
        }
        self.write_message(text.as_str());
        let ghost written = *self;
        assert(composed.message_written(written, text@));
        self.submit_composer(fresh);
        assert(composed.message_sent(*self, text@, fresh@));
        Ok(())
    }
}

// ----- starting ---------------------------------------------------------------------

/// What a quick start would do.
#[derive(Debug)]
pub struct DesktopQuickStart {
    pub provider: String,
    pub model: String,
    /// Empty leaves it to the runtime.
    pub workspace: String,
    /// The gateway would take a start at all.
    pub ready: bool,
    /// A start or its first message is on its way. A start whose outcome is not known is something
    /// the operator can act on, and does not count.
    pub pending: bool,
}

impl App {
    pub open spec fn takes_starts(&self) -> bool {
        self.hello.lists("interactive.start"@) && self.hello.can_operate()
    }

    pub open spec fn start_waits(&self) -> bool {
        self.home_pending || (self.first_message is Some
            && !self.first_message->0.start_outcome_unknown)
    }

    pub fn desktop_quick_start_context(&self) -> (r: DesktopQuickStart)
        ensures
            r.provider@ == self.provider(),
            r.model@ == self.model(),
            r.workspace@ == self.workspace(),
            r.ready == self.takes_starts(),
            r.pending == self.start_waits(),
    {
        DesktopQuickStart {
            provider: self.home_provider().to_owned(),
            model: self.home_model().to_owned(),
            workspace: self.default_workspace(),
            ready: self.hello.serves("interactive.start") && self.hello.operates(),
            pending: self.home_pending || match &self.first_message {
                Some(message) => !message.start_outcome_unknown,
                None => false,
            },
        }
    }

    /// Why a quick start does not go out. A start whose outcome is not known is only made again as
    /// it was.
    pub open spec fn quick_blocker(&self, text: Seq<char>) -> Option<Seq<char>> {
        let prompt = trimmed(text);
        if !self.hello.lists("interactive.start"@) {
            Some("this gateway does not serve interactive.start"@)
        } else if !self.hello.can_operate() {
            Some(self.scope_words("starting a session mutates the runtime"@))
        } else if prompt.len() == 0 {
            Some("type what you want the agent to do"@)
        } else if self.needs_account() && !self.is_usable() {
            Some("connect ChatGPT before starting a session on "@ + self.model())
        } else if self.home_pending {
            Some("a session start is already in flight"@)
        } else {
            match self.first_message {
                Some(message) => if !message.start_outcome_unknown {
                    Some("a first message is already waiting for its session to start"@)
                } else if message.input@ != prompt {
                    Some(
                        "start "@ + message.start.id@
                            + " may already exist; send that same prompt again to reconcile its session id before changing it"@,
                    )
                } else {
                    None
                },
                None => None,
            }
        }
    }

    fn quick_refusal(&self, text: &str) -> (r: Option<String>)
        ensures
            said(r) == self.quick_blocker(text@),
    {
        if !self.hello.serves("interactive.start") {
            return Some("this gateway does not serve interactive.start".to_owned());
        }
        if !self.hello.operates() {
            let head = cat2(
                "starting a session mutates the runtime",
                ", and this listener runs at scope `",
            );
            return Some(cat3(head.as_str(), self.hello.scope.as_str(), "`"));
        }
        let prompt = trim(text);
        if prompt.as_str().is_empty() {
            return Some("type what you want the agent to do".to_owned());
        }
        if self.home_requires_chatgpt() && !self.codex_usable() {
            return Some(
                cat2("connect ChatGPT before starting a session on ", self.home_model()),
            );
        }
        if self.home_pending {
            return Some("a session start is already in flight".to_owned());
        }
        match &self.first_message {
            Some(message) => if !message.start_outcome_unknown {
                Some("a first message is already waiting for its session to start".to_owned())
            } else if !same(message.input.as_str(), prompt.as_str()) {
                Some(
                    cat3(
                        "start ",
                        message.start.id.as_str(),
                        " may already exist; send that same prompt again to reconcile its session id before changing it",
                    ),
                )
            } else {
                None
            },
            None => None,
        }
    }

    /// A quick start went out, or `refusal` says why it did not.
    pub open spec fn quick_offered(
        &self,
        after: App,
        text: Seq<char>,
        session_id: Seq<char>,
        turn_id: Seq<char>,
        refusal: Option<Seq<char>>,
    ) -> bool {
        match self.quick_blocker(text) {
            Some(words) => refusal == Some(words) && after == *self,
            None => exists|request: StartRequest|
                {
                    &&& #[trigger] self.quick_request(
                        request,
                        self.provider(),
                        trimmed(text),
                        session_id,
                    )
                    &&& refusal == match request.refusal() {
                        Some(refused) => Some(refused.words()),
                        None => None,
                    }
                    &&& self.quick_started(after, request, trimmed(text), turn_id)
                },
        }
    }

    /// Starts a session with the stored preferences, and `text` as its first message. A line that
    /// looks like a command is sent as it is.
    pub fn desktop_quick_start(&mut self, text: &str, session_id: &str, turn_id: &str) -> (r: Result<
        (),
        String,
    >)
        requires
            old(self).wf(),
        ensures
            final(self).wf(),
            old(self).quick_offered(
                *final(self),
                text@,
                session_id@,
                turn_id@,
                match r {
                    Ok(()) => None,
                    Err(words) => Some(words@),
                },
            ),
    {
        if let Some(words) = self.quick_refusal(text) {
            return Err(words);
        }
        let prompt = trim(text);
        let request = self.quick_start_request(self.home_provider(), prompt.as_str(), session_id);
        assert(old(self).quick_request(request, old(self).provider(), prompt@, session_id@));
        self.issue_quick_start_request(&request, prompt.as_str(), turn_id)
    }

    /// The panel of machines is open or closed; where it is open the runtime's status is asked for.
    pub fn desktop_machines_open(&mut self, open: bool)
        requires
            old(self).wf(),
        ensures
            final(self).wf(),
            if open {
                &&& final(self).queue@ == asked_queue(
                    old(self).queue@,
                    old(self).status.is_due(old(self).ticks),
                    old(self).hello.lists("runtime.status"@),
                    plain_call(TagView::Status, "runtime.status"@, crate::tags::no_params()),
                )
                &&& asked(
                    old(self).status,
                    final(self).status,
                    old(self).ticks,
                    old(self).hello.lists("runtime.status"@),
                    "runtime.status"@,
                    STATUS_TICKS,
                )
                &&& *final(self) == (App {
                    machines_open: true,
                    status: final(self).status,
                    queue: final(self).queue,
                    ..*old(self)
                })
            } else {
                *final(self) == (App { machines_open: false, ..*old(self) })
            },
    {
        self.machines_open = open;
        if open {
            self.ask_status();
        }
    }

    /// The model a window's start names.
    pub open spec fn stated_model(model: Option<Seq<char>>) -> Option<Seq<char>> {
        match model {
            Some(model) => if trimmed(model).len() == 0 {
                None
            } else {
                Some(trimmed(model))
            },
            None => None,
        }
    }

    /// Why a window's start does not go out before it is looked at.
    pub open spec fn start_blocker(&self, provider: Seq<char>, model: Option<Seq<char>>) -> Option<
        Seq<char>,
    > {
        if !self.hello.lists("interactive.start"@) {
            Some("this gateway does not serve interactive.start"@)
        } else if !self.hello.can_operate() {
            Some(
                "starting a session needs operate scope; this listener is "@ + self.hello.scope@,
            )
        } else if trimmed(provider) == "native"@ && App::stated_model(model) is Some && begins(
            App::stated_model(model)->0,
            "openai_codex:"@,
        ) && !self.is_usable() {
            Some("connect ChatGPT before starting this model"@)
        } else {
            None
        }
    }

    /// The request a window's form makes. A stated file access wins over the stored one.
    pub open spec fn window_request(
        &self,
        request: StartRequest,
        provider: Seq<char>,
        model: Option<Seq<char>>,
        workspace: Seq<char>,
        sandbox_mode: Option<Seq<char>>,
        effort: Option<Effort>,
        id: Seq<char>,
    ) -> bool {
        &&& request.id@ == id
        &&& request.plane == Plane::Interactive
        &&& request.provider@ == trimmed(provider)
        &&& request.machine@.len() == 0
        &&& said(request.model) == App::stated_model(model)
        &&& request.workspace@ == trimmed(workspace)
        &&& request.approval_mode == self.config.mode()
        &&& said(request.sandbox_mode) == either(sandbox_mode, said(self.config.sandbox_mode))
        &&& request.reasoning_effort == effort
        &&& request.objective@.len() == 0
    }

    /// A window's start went out, or `refusal` says why it did not.
    pub open spec fn start_offered(
        &self,
        after: App,
        request: StartRequest,
        refusal: Option<Seq<char>>,
    ) -> bool {
        match request.refusal() {
            Some(refused) => refusal == Some(refused.words()) && after == *self,
            None => refusal is None && self.sent(
                after,
                App::start_call(request, Some(request.id@)),
            ),
        }
    }

    /// Starts a session as a window's form reads; `id` is a new one, and comes back.
    pub fn desktop_start_session(
        &mut self,
        provider: &str,
        model: Option<String>,
        workspace: &str,
        sandbox_mode: Option<String>,
        reasoning_effort: Option<Effort>,
        id: &str,
    ) -> (r: Result<String, String>)
        requires
            old(self).wf(),
        ensures
            final(self).wf(),
            match old(self).start_blocker(provider@, said(model)) {
                Some(words) => r matches Err(said) && said@ == words && *final(self) == *old(self),
                None => exists|request: StartRequest|
                    {
                        &&& #[trigger] old(self).window_request(
                            request,
                            provider@,
                            said(model),
                            workspace@,
                            said(sandbox_mode),
                            reasoning_effort,
                            id@,
                        )
                        &&& old(self).start_offered(
                            *final(self),
                            request,
                            match r {
                                Ok(_) => None,
                                Err(words) => Some(words@),
                            },
                        )
                    },
            },
            r matches Ok(started) ==> started@ == id@,
            r is Ok && !old(self).queue@.in_flight.contains(
                TagView::Start { plane: Plane::Interactive, id: Some(id@) },
            ) ==> {
                let params = newest(*final(self)).params;
                &&& left(*old(self), *final(self))
                &&& newest(*final(self)).method == "interactive.start"@
                &&& params.member("provider"@) == written(trimmed(provider@))
                &&& params.member("workspace"@) == written(trimmed(workspace@))
                &&& params.member("id"@) == written(id@)
                &&& model is None ==> params.member("model"@) is None
                &&& model is Some && trimmed(model->0@).len() > 0 ==> params.member("model"@)
                    == written(trimmed(model->0@))
                &&& sandbox_mode is Some ==> params.member("sandbox_mode"@) == written(
                    sandbox_mode->0@,
                )
            },
    {
        if !self.hello.serves("interactive.start") {
            return Err("this gateway does not serve interactive.start".to_owned());
        }
        if !self.hello.operates() {
            return Err(
                cat2(
                    "starting a session needs operate scope; this listener is ",
                    self.hello.scope.as_str(),
                ),
            );
        }
        let provider_name = trim(provider);
        let stated: Option<String> = match &model {
            Some(model) => {
                let model = trim(model.as_str());
                if model.as_str().is_empty() {
                    None
                } else {
                    Some(model)
                }
            },
            None => None,
        };
        if same(provider_name.as_str(), "native") && match &stated {
            Some(model) => starts_with(model.as_str(), "openai_codex:"),
            None => false,
        } && !self.codex_usable() {
            return Err("connect ChatGPT before starting this model".to_owned());
        }
        let request = StartRequest {
            id: id.to_owned(),
            plane: Plane::Interactive,
            provider: provider_name,
            machine: String::new(),
            model: stated,
            workspace: trim(workspace),
            approval_mode: self.config.approval(),
            objective: String::new(),
            sandbox_mode: first_of(sandbox_mode, copy_text(&self.config.sandbox_mode)),
            reasoning_effort,
        };
        assert(old(self).window_request(
            request,
            provider@,
            said(model),
            workspace@,
            said(sandbox_mode),
            reasoning_effort,
            id@,
        ));
        let params = match request.params() {
            Ok(params) => params,
            Err(refusal) => {
                return Err(refusal.message());
            },
        };
        let method = request.method();
        let call = Call::new(
            Tag::Start { plane: Plane::Interactive, id: Some(id.to_owned()) },
            method.as_str(),
            params,
        ).with_timeout(START_TIMEOUT);
        self.send_call(call);
        proof {
            if !old(self).queue@.in_flight.contains(
                TagView::Start { plane: Plane::Interactive, id: Some(id@) },
            ) {
                lemma_a_window_starts_what_its_form_says(
                    *old(self),
                    *self,
                    request,
                    provider@,
                    said(model),
                    workspace@,
                    said(sandbox_mode),
                    reasoning_effort,
                    id@,
                );
            }
        }
        Ok(id.to_owned())
    }
}

// ----- renaming and deleting --------------------------------------------------------

/// How long a session's name may be.
pub const TITLE_LIMIT: usize = 120;

pub open spec fn has_control(text: Seq<char>) -> bool {
    exists|i: int| 0 <= i < text.len() && is_control(#[trigger] text[i])
}

fn holds_control(text: &Vec<char>) -> (r: bool)
    ensures
        r == has_control(text@),
{
    let mut i: usize = 0;
    while i < text.len()
        invariant
            i <= text@.len(),
            forall|k: int| 0 <= k < i ==> !is_control(#[trigger] text@[k]),
        decreases text@.len() - i,
    {
        if control(text[i]) {
            return true;
        }
        i += 1;
    }
    false
}

pub open spec fn gone_words(id: Seq<char>) -> Seq<char> {
    id + " is no longer in the session list"@
}

impl App {
    /// Why a name is not given.
    pub open spec fn rename_blocker(&self, plane: Plane, id: Seq<char>, title: Seq<char>) -> Option<
        Seq<char>,
    > {
        let title = trimmed(title);
        if plane != Plane::Interactive {
            Some("coding tasks use their objective as their name"@)
        } else if !self.hello.lists("interactive.rename"@) {
            Some("this gateway does not serve interactive.rename"@)
        } else if !self.hello.can_operate() {
            Some("renaming a session needs operate scope; this listener is "@ + self.hello.scope@)
        } else {
            match self.sessions.row(plane, id) {
                None => Some(gone_words(id)),
                Some(row) => if row.last_known {
                    Some("the session owner is offline, so its durable title cannot be changed"@)
                } else if title.len() == 0 {
                    Some("enter a session name"@)
                } else if title.len() > TITLE_LIMIT {
                    Some("a session name can be at most 120 characters"@)
                } else if has_control(title) {
                    Some("a session name cannot contain control characters"@)
                } else {
                    None
                },
            }
        }
    }

    pub open spec fn rename_call(id: Seq<char>, title: Seq<char>) -> CallView {
        plain_call(
            TagView::Action { label: "rename"@, plane: Plane::Interactive, id, turn_id: None },
            "interactive.rename"@,
            crate::json::JsonView::Object(seq![text_param("id"@, id), text_param("title"@, title)]),
        )
    }

    fn rename_refusal(&self, plane: Plane, id: &str, title: &str) -> (r: Option<String>)
        ensures
            said(r) == self.rename_blocker(plane, id@, title@),
    {
        if plane != Plane::Interactive {
            return Some("coding tasks use their objective as their name".to_owned());
        }
        if !self.hello.serves("interactive.rename") {
            return Some("this gateway does not serve interactive.rename".to_owned());
        }
        if !self.hello.operates() {
            return Some(
                cat2(
                    "renaming a session needs operate scope; this listener is ",
                    self.hello.scope.as_str(),
                ),
            );
        }
        let offline = match self.sessions.get(plane, id) {
            Some(row) => row.last_known,
            None => {
                return Some(cat2(id, " is no longer in the session list"));
            },
        };
        if offline {
            return Some(
                "the session owner is offline, so its durable title cannot be changed".to_owned(),
            );
        }
        let title = chars_of(trim(title).as_str());
        if title.len() == 0 {
            return Some("enter a session name".to_owned());
        }
        if title.len() > TITLE_LIMIT {
            return Some("a session name can be at most 120 characters".to_owned());
        }
        if holds_control(&title) {
            return Some("a session name cannot contain control characters".to_owned());
        }
        None
    }

    /// Renames a session.
    pub fn desktop_rename_session(&mut self, plane: Plane, id: &str, title: &str) -> (r: Result<
        (),
        String,
    >)
        requires
            old(self).wf(),
        ensures
            final(self).wf(),
            match old(self).rename_blocker(plane, id@, title@) {
                Some(words) => r matches Err(said) && said@ == words && *final(self) == *old(self),
                None => r is Ok && old(self).sent(
                    *final(self),
                    App::rename_call(id@, trimmed(title@)),
                ),
            },
            r is Ok && !old(self).queue@.in_flight.contains(
                TagView::Action {
                    label: "rename"@,
                    plane: Plane::Interactive,
                    id: id@,
                    turn_id: None,
                },
            ) ==> {
                &&& left(*old(self), *final(self))
                &&& newest(*final(self)).params.member_text("id"@) == Some(id@)
                &&& newest(*final(self)).params.member_text("title"@) == Some(trimmed(title@))
            },
    {
        if let Some(words) = self.rename_refusal(plane, id, title) {
            return Err(words);
        }
        let name = trim(title);
        let params = Params::new().text("id", id).text("title", name.as_str());
        assert(params@ =~= seq![text_param("id"@, id@), text_param("title"@, name@)]);
        let tag = Tag::Action { label: "rename", plane, id: id.to_owned(), turn_id: None };
        self.send_call(Call::new(tag, "interactive.rename", params.done()));
        proof {
            if !old(self).queue@.in_flight.contains(tag@) {
                lemma_a_rename_carries_the_title(*old(self), *self, id@, name@);
            }
        }
        Ok(())
    }

    /// Why a session is not deleted.
    pub open spec fn delete_blocker(&self, plane: Plane, id: Seq<char>) -> Option<Seq<char>> {
        if !self.hello.can_operate() {
            Some("deleting a session needs operate scope; this listener is "@ + self.hello.scope@)
        } else {
            match self.sessions.row(plane, id) {
                None => Some(gone_words(id)),
                Some(row) => if !row.status.terminal && !row.last_known {
                    Some("finish or stop this session before deleting it"@)
                } else if !row.last_known && !self.hello.lists(plane.method_of("delete"@)) {
                    Some(crate::app::unserved_words(plane.method_of("delete"@)))
                } else {
                    None
                },
            }
        }
    }

    /// The row of a session is left to be taken away.
    pub open spec fn removal_handed(&self, after: App, plane: Plane, id: Seq<char>) -> bool {
        exists|errand: Errand|
            {
                &&& #[trigger] self.handed(after, errand)
                &&& errand matches Errand::Removed { plane: p, id: i }
                &&& p == plane && i@ == id
            }
    }

    pub open spec fn delete_call(plane: Plane, id: Seq<char>) -> CallView {
        plain_call(
            TagView::Action { label: "remove"@, plane, id, turn_id: None },
            plane.method_of("delete"@),
            id_params(id),
        )
    }

    /// Deletes a session nothing more comes of, or hides one whose owner is offline.
    pub fn desktop_delete_session(&mut self, plane: Plane, id: &str) -> (r: Result<(), String>)
        requires
            old(self).wf(),
        ensures
            final(self).wf(),
            match old(self).delete_blocker(plane, id@) {
                Some(words) => r matches Err(said) && said@ == words && *final(self) == *old(self),
                None => r is Ok && if old(self).sessions.row(plane, id@)->0.last_known {
                    old(self).removal_handed(*final(self), plane, id@)
                } else {
                    old(self).sent(*final(self), App::delete_call(plane, id@))
                },
            },
            r is Ok && !old(self).sessions.row(plane, id@)->0.last_known && !old(
                self,
            ).queue@.in_flight.contains(
                TagView::Action { label: "remove"@, plane, id: id@, turn_id: None },
            ) ==> {
                &&& left(*old(self), *final(self))
                &&& newest(*final(self)).method == delete_method(plane)
                &&& newest(*final(self)).params.member_text("id"@) == Some(id@)
            },
    {
        if !self.hello.operates() {
            return Err(
                cat2(
                    "deleting a session needs operate scope; this listener is ",
                    self.hello.scope.as_str(),
                ),
            );
        }
        let (last_known, terminal) = match self.sessions.get(plane, id) {
            Some(row) => (row.last_known, row.status.terminal),
            None => {
                return Err(cat2(id, " is no longer in the session list"));
            },
        };
        if !terminal && !last_known {
            return Err("finish or stop this session before deleting it".to_owned());
        }
        if last_known {
            let ghost start = *self;
            let errand = Errand::Removed { plane, id: id.to_owned() };
            self.hand(errand);
            assert(start.handed(*self, errand));
            return Ok(());
        }
        let method = plane.method("delete");
        if !self.hello.serves(method.as_str()) {
            return Err(cat2("this gateway does not serve ", method.as_str()));
        }
        let tag = Tag::Action { label: "remove", plane, id: id.to_owned(), turn_id: None };
        self.send_call(Call::new(tag, method.as_str(), crate::tags::by_id(id)));
        proof {
            lemma_delete_method(plane);
            if !old(self).queue@.in_flight.contains(tag@) {
                lemma_a_removal_names_its_session(*old(self), *self, plane, id@);
            }
        }
        Ok(())
    }
}

// ----- reasoning --------------------------------------------------------------------

/// A model of the catalogue, and the efforts it offers.
#[derive(Debug)]
pub struct ModelEntry {
    pub id: String,
    pub efforts: Vec<Effort>,
}

/// What the catalogue says of a provider.
#[derive(Debug)]
pub struct CatalogueRow {
    pub provider: String,
    pub default: Option<String>,
    pub models: Vec<ModelEntry>,
}

/// The reasoning control of an open session.
#[derive(Debug)]
pub struct DesktopReasoning {
    /// What the runtime last confirmed. Nothing is not a guess at a default.
    pub current: Option<Effort>,
    pub choices: Vec<Effort>,
}

/// Those of `offered` that are taken, in the order they are offered.
pub open spec fn shared(offered: Seq<Effort>, taken: Seq<Effort>) -> Seq<Effort> {
    offered.filter(|effort: Effort| taken.contains(effort))
}

fn takes(list: &Vec<Effort>, effort: Effort) -> (r: bool)
    ensures
        r == list@.contains(effort),
{
    let mut i: usize = 0;
    while i < list.len()
        invariant
            i <= list@.len(),
            forall|k: int| 0 <= k < i ==> #[trigger] list@[k] != effort,
        decreases list@.len() - i,
    {
        if list[i] == effort {
            return true;
        }
        i += 1;
    }
    false
}

/// The efforts both the model and the provider's transport can use.
pub fn desktop_reasoning_choices(model: &ModelEntry, provider: &ProviderEntry) -> (r: Vec<Effort>)
    ensures
        r@ == shared(model.efforts@, provider.efforts@),
{
    let mut out: Vec<Effort> = Vec::new();
    let mut i: usize = 0;
    proof {
        reveal(Seq::filter);
        assert(model.efforts@.take(0) =~= Seq::empty());
    }
    while i < model.efforts.len()
        invariant
            i <= model.efforts@.len(),
            out@ == shared(model.efforts@.take(i as int), provider.efforts@),
        decreases model.efforts@.len() - i,
    {
        proof {
            reveal(Seq::filter);
            assert(model.efforts@.take(i + 1).drop_last() =~= model.efforts@.take(i as int));
        }
        if takes(&provider.efforts, model.efforts[i]) {
            out.push(model.efforts[i]);
        }
        i += 1;
    }
    assert(model.efforts@.take(i as int) =~= model.efforts@);
    out
}

/// The first row of the catalogue for a provider.
pub open spec fn catalogue_row(rows: Seq<CatalogueRow>, provider: Seq<char>) -> Option<CatalogueRow>
    decreases rows.len(),
{
    if rows.len() == 0 {
        None
    } else if rows[0].provider@ == provider {
        Some(rows[0])
    } else {
        catalogue_row(rows.drop_first(), provider)
    }
}

pub open spec fn model_row(rows: Seq<ModelEntry>, id: Seq<char>) -> Option<ModelEntry>
    decreases rows.len(),
{
    if rows.len() == 0 {
        None
    } else if rows[0].id@ == id {
        Some(rows[0])
    } else {
        model_row(rows.drop_first(), id)
    }
}

pub open spec fn provider_row(rows: Seq<ProviderEntry>, name: Seq<char>) -> Option<ProviderEntry>
    decreases rows.len(),
{
    if rows.len() == 0 {
        None
    } else if rows[0].provider@ == name {
        Some(rows[0])
    } else {
        provider_row(rows.drop_first(), name)
    }
}

fn find_catalogue_row<'a>(rows: &'a Vec<CatalogueRow>, provider: &str) -> (r: Option<&'a CatalogueRow>)
    ensures
        match r {
            Some(row) => catalogue_row(rows@, provider@) == Some(*row),
            None => catalogue_row(rows@, provider@) is None,
        },
{
    let mut i: usize = 0;
    assert(rows@.skip(0) =~= rows@);
    while i < rows.len()
        invariant
            i <= rows@.len(),
            catalogue_row(rows@, provider@) == catalogue_row(rows@.skip(i as int), provider@),
        decreases rows@.len() - i,
    {
        assert(rows@.skip(i as int)[0] == rows@[i as int]);
        assert(rows@.skip(i as int).drop_first() =~= rows@.skip(i + 1));
        if same(rows[i].provider.as_str(), provider) {
            return Some(&rows[i]);
        }
        i += 1;
    }
    None
}

fn find_model_row<'a>(rows: &'a Vec<ModelEntry>, id: &str) -> (r: Option<&'a ModelEntry>)
    ensures
        match r {
            Some(row) => model_row(rows@, id@) == Some(*row),
            None => model_row(rows@, id@) is None,
        },
{
    let mut i: usize = 0;
    assert(rows@.skip(0) =~= rows@);
    while i < rows.len()
        invariant
            i <= rows@.len(),
            model_row(rows@, id@) == model_row(rows@.skip(i as int), id@),
        decreases rows@.len() - i,
    {
        assert(rows@.skip(i as int)[0] == rows@[i as int]);
        assert(rows@.skip(i as int).drop_first() =~= rows@.skip(i + 1));
        if same(rows[i].id.as_str(), id) {
            return Some(&rows[i]);
        }
        i += 1;
    }
    None
}

fn find_provider_row<'a>(rows: &'a Vec<ProviderEntry>, name: &str) -> (r: Option<&'a ProviderEntry>)
    ensures
        match r {
            Some(row) => provider_row(rows@, name@) == Some(*row),
            None => provider_row(rows@, name@) is None,
        },
{
    let mut i: usize = 0;
    assert(rows@.skip(0) =~= rows@);
    while i < rows.len()
        invariant
            i <= rows@.len(),
            provider_row(rows@, name@) == provider_row(rows@.skip(i as int), name@),
        decreases rows@.len() - i,
    {
        assert(rows@.skip(i as int)[0] == rows@[i as int]);
        assert(rows@.skip(i as int).drop_first() =~= rows@.skip(i + 1));
        if same(rows[i].provider.as_str(), name) {
            return Some(&rows[i]);
        }
        i += 1;
    }
    None
}

impl App {
    /// The efforts a provider and a model offer together. Where the catalogue or the provider says
    /// nothing there are none: silence is no proof.
    pub open spec fn reasoning_for(
        &self,
        catalogue: Option<Vec<CatalogueRow>>,
        provider: Seq<char>,
        model: Option<Seq<char>>,
    ) -> Seq<Effort> {
        let name = trimmed(provider);
        let row = match catalogue {
            Some(rows) => catalogue_row(rows@, name),
            None => None,
        };
        match row {
            None => Seq::empty(),
            Some(row) => {
                let wanted = either(App::stated_model(model), said(row.default));
                match wanted {
                    None => Seq::empty(),
                    Some(wanted) => match (
                        model_row(row.models@, wanted),
                        provider_row(self.known_providers(), name),
                    ) {
                        (Some(model), Some(entry)) => shared(model.efforts@, entry.efforts@),
                        _ => Seq::empty(),
                    },
                }
            },
        }
    }

    pub fn desktop_reasoning_choices_for(
        &self,
        catalogue: &Option<Vec<CatalogueRow>>,
        provider: &str,
        model: Option<&str>,
    ) -> (r: Vec<Effort>)
        ensures
            r@ == self.reasoning_for(*catalogue, provider@, heard(model)),
    {
        let name = trim(provider);
        let row = match catalogue {
            Some(rows) => match find_catalogue_row(rows, name.as_str()) {
                Some(row) => row,
                None => {
                    return Vec::new();
                },
            },
            None => {
                return Vec::new();
            },
        };
        let stated: Option<String> = match model {
            Some(model) => {
                let model = trim(model);
                if model.as_str().is_empty() {
                    None
                } else {
                    Some(model)
                }
            },
            None => None,
        };
        let wanted = match first_of(stated, copy_text(&row.default)) {
            Some(wanted) => wanted,
            None => {
                return Vec::new();
            },
        };
        let model = match find_model_row(&row.models, wanted.as_str()) {
            Some(model) => model,
            None => {
                return Vec::new();
            },
        };
        let entry = match &self.providers.value {
            Some(rows) => find_provider_row(rows, name.as_str()),
            None => None,
        };
        match entry {
            Some(entry) => desktop_reasoning_choices(model, entry),
            None => Vec::new(),
        }
    }

    /// The model the open session runs on, by its row or by what a run said.
    pub open spec fn open_model(&self) -> Option<Seq<char>> {
        either(
            match self.sessions.open_row() {
                Some(row) => said(row.model),
                None => None,
            },
            match self.sessions.open_index() {
                Some(at) => said(self.sessions.watches@[at].model),
                None => None,
            },
        )
    }

    /// The reasoning control of the open session, where there is anything to choose.
    pub open spec fn reasons(&self, catalogue: Option<Vec<CatalogueRow>>) -> Option<(
        Option<Effort>,
        Seq<Effort>,
    )> {
        match self.sessions.open_row() {
            Some(row) => if row.plane != Plane::Interactive
                || row.capabilities.dynamic_configuration == Capability::No || row.provider is None {
                None
            } else {
                let choices = self.reasoning_for(catalogue, row.provider->0@, self.open_model());
                if choices.len() == 0 {
                    None
                } else {
                    Some((row.reasoning_effort, choices))
                }
            },
            None => None,
        }
    }

    pub fn desktop_reasoning(&self, catalogue: &Option<Vec<CatalogueRow>>) -> (r: Option<
        DesktopReasoning,
    >)
        requires
            self.wf(),
        ensures
            match r {
                Some(control) => self.reasons(*catalogue) == Some(
                    (control.current, control.choices@),
                ),
                None => self.reasons(*catalogue) is None,
            },
    {
        let row = match self.sessions.open_info() {
            Some(row) => row,
            None => {
                return None;
            },
        };
        if row.plane != Plane::Interactive || row.capabilities.dynamic_configuration
            == Capability::No {
            return None;
        }
        let provider = match &row.provider {
            Some(provider) => provider,
            None => {
                return None;
            },
        };
        let model = match &row.model {
            Some(model) => Some(model.as_str()),
            None => match self.sessions.open_at() {
                Some(at) => as_deref(&self.sessions.watches[at].model),
                None => None,
            },
        };
        let choices = self.desktop_reasoning_choices_for(catalogue, provider.as_str(), model);
        if choices.len() == 0 {
            None
        } else {
            Some(DesktopReasoning { current: row.reasoning_effort, choices })
        }
    }
}

// ----- laws -------------------------------------------------------------------------

/// What a window shows of a quick start is what happens: a start that would be taken and does not
/// wait is refused only for its text, its account, or a start that may exist already; and one that
/// would not be taken, or waits, is refused.
pub proof fn lemma_a_live_start_button_starts(app: App, text: Seq<char>)
    ensures
        !app.takes_starts() || app.start_waits() ==> app.quick_blocker(text) is Some,
        app.takes_starts() && !app.start_waits() && trimmed(text).len() > 0 && (
        !app.needs_account() || app.is_usable()) && (app.first_message is None
            || app.first_message->0.input@ == trimmed(text)) ==> app.quick_blocker(text) is None,
{
}

/// A row that offers to be deleted or renamed can be.
pub proof fn lemma_what_a_row_offers_is_taken(
    app: App,
    shown: DesktopSession,
    session: SessionInfo,
    group: usize,
    depth: usize,
    title: Seq<char>,
)
    requires
        app.shows_session(shown, session, group, depth),
        app.sessions.row(session.plane, session.id@) == Some(session),
        0 < trimmed(title).len() <= TITLE_LIMIT,
        !has_control(trimmed(title)),
    ensures
        shown.can_delete <==> app.delete_blocker(session.plane, session.id@) is None,
        shown.can_rename <==> app.rename_blocker(session.plane, session.id@, title) is None,
{
}

/// No effort is offered that either side did not state.
pub proof fn lemma_offered_efforts_are_shared(offered: Seq<Effort>, taken: Seq<Effort>, effort: Effort)
    requires
        shared(offered, taken).contains(effort),
    ensures
        offered.contains(effort),
        taken.contains(effort),
{
    let keep = |e: Effort| taken.contains(e);
    offered.lemma_filter_contains_rev(keep, effort);
    let i = choose|i: int| 0 <= i < shared(offered, taken).len() && shared(offered, taken)[i] == effort;
    broadcast use vstd::seq_lib::group_filter_ensures;
    assert(keep(offered.filter(keep)[i]));
}

/// A window never replaces another draft: where the composer holds different text, the message is
/// refused and the text stays.
pub proof fn lemma_a_window_replaces_no_other_draft(
    before: App,
    after: App,
    text: Seq<char>,
    fresh: Seq<char>,
    refusal: Option<Seq<char>>,
)
    requires
        before.message_offered(after, text, fresh, refusal),
        before.sessions.composer is Some,
        trimmed(before.sessions.composer->0.editor.text@).len() > 0,
        before.sessions.composer->0.editor.text@ != trimmed_end(text),
    ensures
        refusal is Some,
        after.sessions.composer is Some,
        after.sessions.composer->0.editor == before.sessions.composer->0.editor,
{
    if before.message_blocker(text) is None {
        let composed = choose|composed: App|
            {
                &&& #[trigger] before.composing(composed, ComposerVerb::Message)
                &&& match composed.composer_blocker(trimmed_end(text)) {
                    Some(words) => refusal == Some(words) && after == composed,
                    None => refusal is None && composed.message_sent(
                        after,
                        trimmed_end(text),
                        fresh,
                    ),
                }
            };
        assert(!before.sessions.composer->0.editor.blank());
        assert(composed.sessions.composer is Some);
        assert(composed.sessions.composer->0.editor == before.sessions.composer->0.editor);
    }
}

} // verus!
