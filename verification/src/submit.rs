//! Submitting what was written: on the home, and to a session.

use vstd::prelude::*;

use crate::app::{App, Config, NoticeKind, Overlay, PendingFirstMessage, Tab};
use crate::devices::DevicesState;
use crate::embed::{hex, hex_text};
use crate::forms::{slash, slash_of, Command, NewSession, Settings, Slash, StartRequest};
use crate::model::Plane;
use crate::sessions::{
    find_unsettled, key_of, unsettled_at, Composer, Draft, Key, SessionsTab, Unsettled,
};
use crate::starts::{message_params, message_request};
use crate::tags::{plain_call, Call, CallView, ComposerVerb, Tag, TagView, START_TIMEOUT};
use crate::text::{cat2, copy_text, join, joined, pieces, said, same, split, texts, trim, trimmed};

verus! {

// ----- ids --------------------------------------------------------------------------

/// How many random bytes an id is made of.
pub const ID_BYTES: usize = 16;

/// Bytes from the operating system's source of randomness, where it answers. Calls
/// `try_fill_bytes` of `rand::rngs::OsRng`, which fills the whole buffer or fails. Nothing is
/// claimed of the bytes themselves: no two calls need agree.
#[verifier::external_body]
fn random_bytes(count: usize) -> (r: Option<Vec<u8>>)
    ensures
        r is Some ==> r->0@.len() == count,
{
    let mut bytes = vec![0u8; count];
    match rand::TryRngCore::try_fill_bytes(&mut rand::rngs::OsRng, &mut bytes) {
        Ok(()) => Some(bytes),
        Err(_) => None,
    }
}

/// The id made of random bytes.
pub open spec fn id_of(bytes: Seq<u8>) -> Seq<char> {
    "ouro-"@ + hex_text(bytes)
}

pub fn format_id(bytes: &Vec<u8>) -> (r: String)
    ensures
        r@ == id_of(bytes@),
{
    cat2("ouro-", hex(bytes.as_slice()).as_str())
}

/// An id for a turn or a session, which nobody else has. `fallback` is used where the operating
/// system has no randomness to give, and has to be one this process has not used before.
pub fn new_turn_id(fallback: &str) -> (r: String)
    ensures
        r@ == "ouro-"@ + fallback@ || exists|bytes: Seq<u8>|
            bytes.len() == ID_BYTES && r@ == #[trigger] id_of(bytes),
{
    match random_bytes(ID_BYTES) {
        Some(bytes) => {
            let r = format_id(&bytes);
            assert(r@ == id_of(bytes@));
            r
        },
        None => cat2("ouro-", fallback),
    }
}

// ----- commands ---------------------------------------------------------------------

impl App {
    /// The session picker is open over lists that were just asked for.
    pub open spec fn picker_opened(&self, after: App) -> bool {
        (App {
            overlay: Some(Overlay::SessionPicker { choice: 0 }),
            sessions: App::stale_lists(self.sessions),
            ..*self
        }).polled(after)
    }

    /// A tab is shown with nothing over it.
    pub open spec fn tab_shown(&self, after: App, tab: Tab) -> bool {
        (App { overlay: None, tab, ..*self }).polled(after)
    }

    /// A command was carried out.
    pub open spec fn commanded(&self, after: App, command: Command) -> bool {
        let bare = App { overlay: None, ..*self };
        match command {
            Command::NewSession => self.home_shown(after),
            Command::SwitchSession => self.picker_opened(after),
            Command::SessionDetails => bare.details_toggled(after),
            Command::ConnectChatGpt => bare.account_opened(after),
            Command::Runtime | Command::Nodes => self.tab_shown(after, Tab::Dashboard),
            Command::Agents => self.tab_shown(after, Tab::Agents),
            Command::Teams => self.tab_shown(after, Tab::Teams),
            Command::Plans => self.tab_shown(after, Tab::Plans),
            Command::Upgrades => self.tab_shown(after, Tab::Upgrade),
            Command::Logs => self.tab_shown(after, Tab::Logs),
            Command::Settings => bare.settings_opened(after),
        }
    }

    fn open_picker(&mut self)
        requires
            old(self).wf(),
        ensures
            final(self).wf(),
            old(self).picker_opened(*final(self)),
    {
        self.overlay = Some(Overlay::SessionPicker { choice: 0 });
        self.sessions.interactive.invalidate();
        self.sessions.coding.invalidate();
        self.poll();
    }

    fn show_tab(&mut self, tab: Tab)
        requires
            old(self).wf(),
        ensures
            final(self).wf(),
            old(self).tab_shown(*final(self), tab),
    {
        self.overlay = None;
        self.select_tab(tab);
    }

    pub fn activate_command(&mut self, command: Command)
        requires
            old(self).wf(),
        ensures
            final(self).wf(),
            old(self).commanded(*final(self), command),
    {
        match command {
            Command::NewSession => self.new_home(),
            Command::SwitchSession => self.open_picker(),
            Command::SessionDetails => {
                self.overlay = None;
                self.toggle_session_details();
            },
            Command::ConnectChatGpt => {
                self.overlay = None;
                self.open_account();
            },
            Command::Runtime | Command::Nodes => self.show_tab(Tab::Dashboard),
            Command::Agents => self.show_tab(Tab::Agents),
            Command::Teams => self.show_tab(Tab::Teams),
            Command::Plans => self.show_tab(Tab::Plans),
            Command::Upgrades => self.show_tab(Tab::Upgrade),
            Command::Logs => self.show_tab(Tab::Logs),
            Command::Settings => {
                self.overlay = None;
                self.open_settings();
            },
        }
    }

    /// A line of input was run as a command, where it is one.
    pub open spec fn slashed(&self, after: App, input: Seq<char>) -> bool {
        match slash_of(input) {
            Some(Slash::Run(command)) => self.commanded(after, command),
            Some(Slash::Help) => after == (App { overlay: Some(Overlay::Help), ..*self }),
            Some(Slash::Quit) => self.quit_opened(after),
            Some(Slash::Clear) => after == *self,
            None => after == *self,
        }
    }

    /// Runs a line of input as a command. Whether it was one.
    pub fn activate_slash_command(&mut self, input: &str) -> (r: bool)
        requires
            old(self).wf(),
        ensures
            final(self).wf(),
            r == (slash_of(input@) is Some),
            old(self).slashed(*final(self), input@),
    {
        match slash(input) {
            Some(Slash::Run(command)) => {
                self.activate_command(command);
                true
            },
            Some(Slash::Help) => {
                self.open_help();
                true
            },
            Some(Slash::Quit) => {
                self.open_quit();
                true
            },
            Some(Slash::Clear) => true,
            None => false,
        }
    }

    // ----- a quick start --------------------------------------------------------------

    /// The request a prompt on the home makes. A start whose outcome is not known is made again as
    /// it was, so that no second session comes of it.
    pub open spec fn quick_request(
        &self,
        request: StartRequest,
        provider: Seq<char>,
        prompt: Seq<char>,
        session_id: Seq<char>,
    ) -> bool {
        if self.reconciling() && self.first_message->0.input@ == prompt {
            request.same_as(self.first_message->0.start)
        } else {
            &&& request.id@ == session_id
            &&& request.plane == Plane::Interactive
            &&& request.provider@ == provider
            &&& request.machine@.len() == 0
            &&& said(request.model) == Some(self.model())
            &&& request.workspace@ == self.workspace()
            &&& request.approval_mode == self.config.mode()
            &&& request.objective@.len() == 0
            &&& said(request.sandbox_mode) == said(self.config.sandbox_mode)
            &&& request.reasoning_effort is None
        }
    }

    pub fn quick_start_request(&self, provider: &str, prompt: &str, session_id: &str) -> (r:
        StartRequest)
        ensures
            self.quick_request(r, provider@, prompt@, session_id@),
    {
        if let Some(message) = &self.first_message {
            if message.start_outcome_unknown && same(message.input.as_str(), prompt) {
                return message.start.copy();
            }
        }
        StartRequest {
            id: session_id.to_owned(),
            plane: Plane::Interactive,
            provider: provider.to_owned(),
            machine: String::new(),
            model: Some(self.home_model().to_owned()),
            workspace: self.default_workspace(),
            approval_mode: self.config.approval(),
            objective: String::new(),
            sandbox_mode: copy_text(&self.config.sandbox_mode),
            reasoning_effort: None,
        }
    }

    /// The first message a start holds. A start that is made again keeps the one it had.
    pub open spec fn first_held(
        before: Option<PendingFirstMessage>,
        after: Option<PendingFirstMessage>,
        request: StartRequest,
        prompt: Seq<char>,
        turn_id: Seq<char>,
    ) -> bool {
        if before is Some && before->0.start_outcome_unknown && before->0.input@ == prompt
            && before->0.start.id@ == request.id@ {
            after == Some(PendingFirstMessage { start_outcome_unknown: false, ..before->0 })
        } else {
            &&& after is Some
            &&& after->0.input@ == prompt
            &&& after->0.turn_id@ == turn_id
            &&& after->0.start.same_as(request)
            &&& !after->0.start_outcome_unknown
        }
    }

    /// The home waits for a start, and holds its first message. The provider that is stored is the
    /// one the start used.
    pub open spec fn start_held(
        &self,
        after: App,
        request: StartRequest,
        prompt: Seq<char>,
        turn_id: Seq<char>,
    ) -> bool {
        &&& App::first_held(self.first_message, after.first_message, request, prompt, turn_id)
        &&& said(after.config.provider) == Some(request.provider@)
        &&& after.config == (Config {
            provider: after.config.provider,
            welcomed: true,
            ..self.config
        })
        &&& after == (App {
            home_pending: true,
            home_error: None,
            first_message: after.first_message,
            config: after.config,
            save_pending: true,
            ..*self
        })
    }

    fn hold_start(&mut self, request: &StartRequest, prompt: &str, turn_id: &str)
        requires
            old(self).wf(),
        ensures
            final(self).wf(),
            old(self).start_held(*final(self), *request, prompt@, turn_id@),
    {
        self.home_pending = true;
        self.home_error = None;
        let mut held: Option<PendingFirstMessage> = None;
        std::mem::swap(&mut self.first_message, &mut held);
        let again = match &held {
            Some(message) => message.start_outcome_unknown && same(
                message.input.as_str(),
                prompt,
            ) && same(message.start.id.as_str(), request.id.as_str()),
            None => false,
        };
        self.first_message = Some(
            match held {
                Some(message) if again => PendingFirstMessage {
                    start_outcome_unknown: false,
                    ..message
                },
                _ => PendingFirstMessage {
                    input: prompt.to_owned(),
                    turn_id: turn_id.to_owned(),
                    start: request.copy(),
                    start_outcome_unknown: false,
                },
            },
        );
        self.config.provider = Some(request.provider.clone());
        self.config.welcomed = true;
        self.save_pending = true;
    }

    /// A start goes out with a first message to follow it, or is refused before it does.
    pub open spec fn quick_started(
        &self,
        after: App,
        request: StartRequest,
        prompt: Seq<char>,
        turn_id: Seq<char>,
    ) -> bool {
        if request.refusal() is Some {
            after == *self
        } else {
            exists|held: App|
                #[trigger] self.start_held(held, request, prompt, turn_id) && held.sent(
                    after,
                    App::start_call(request, Some(request.id@)),
                )
        }
    }

    pub fn issue_quick_start_request(&mut self, request: &StartRequest, prompt: &str, turn_id: &str) -> (r:
        Result<(), String>)
        requires
            old(self).wf(),
        ensures
            final(self).wf(),
            match r {
                Ok(()) => request.refusal() is None,
                Err(words) => request.refusal() is Some && words@ == request.refusal()->0.words(),
            },
            old(self).quick_started(*final(self), *request, prompt@, turn_id@),
    {
        let ghost start = *self;
        let params = match request.params() {
            Ok(params) => params,
            Err(refusal) => {
                return Err(refusal.message());
            },
        };
        self.hold_start(request, prompt, turn_id);
        let ghost held = *self;
        assert(start.start_held(held, *request, prompt@, turn_id@));
        let method = request.method();
        let call = Call::new(
            Tag::Start { plane: request.plane, id: Some(request.id.clone()) },
            method.as_str(),
            params,
        ).with_timeout(START_TIMEOUT);
        self.send_call(call);
        Ok(())
    }

    // ----- the home is submitted ------------------------------------------------------

    /// Only what the home says went wrong changed.
    pub open spec fn home_said(&self, after: App, words: Seq<char>) -> bool {
        said(after.home_error) == Some(words) && after == (App {
            home_error: after.home_error,
            ..*self
        })
    }

    /// The draft is let go of.
    pub open spec fn draft_taken(&self, after: App) -> bool {
        &&& after.home_draft.blank() && !after.home_draft.completing
        &&& after == (App { home_draft: after.home_draft, ..*self })
    }

    /// A start waits for the sign-in it needs.
    pub open spec fn login_captured(
        &self,
        after: App,
        prompt: Option<Seq<char>>,
        session_id: Seq<char>,
    ) -> bool {
        exists|opened: App|
            {
                &&& #[trigger] self.account_opened(opened)
                &&& match opened.overlay {
                    Some(Overlay::Account(_)) => {
                        &&& match prompt {
                            Some(prompt) => {
                                &&& after.home_login_start is Some
                                &&& self.quick_request(
                                    (after.home_login_start->0).0,
                                    self.provider(),
                                    prompt,
                                    session_id,
                                )
                                &&& (after.home_login_start->0).1@ == prompt
                            },
                            None => after.home_login_start is None,
                        }
                        &&& after == (App { home_login_start: after.home_login_start, ..opened })
                    },
                    _ => after == opened,
                }
            }
    }

    fn capture_login(&mut self, prompt: Option<String>, session_id: &str)
        requires
            old(self).wf(),
        ensures
            final(self).wf(),
            old(self).login_captured(*final(self), said(prompt), session_id@),
    {
        let ghost start = *self;
        let captured = match prompt {
            Some(prompt) => {
                let request = self.quick_start_request(
                    self.home_provider(),
                    prompt.as_str(),
                    session_id,
                );
                Some((request, prompt))
            },
            None => None,
        };
        self.open_account();
        let ghost opened = *self;
        assert(start.account_opened(opened));
        if matches!(self.overlay, Some(Overlay::Account(_))) {
            self.home_login_start = captured;
        }
    }

    /// A prompt was started, or the home says why not.
    pub open spec fn prompt_started(
        &self,
        after: App,
        prompt: Seq<char>,
        session_id: Seq<char>,
        turn_id: Seq<char>,
    ) -> bool {
        exists|request: StartRequest|
            {
                &&& #[trigger] self.quick_request(request, self.provider(), prompt, session_id)
                &&& match request.refusal() {
                    Some(refusal) => self.home_said(after, refusal.words()),
                    None => self.quick_started(after, request, prompt, turn_id),
                }
            }
    }

    fn start_prompt(&mut self, prompt: &str, session_id: &str, turn_id: &str)
        requires
            old(self).wf(),
        ensures
            final(self).wf(),
            old(self).prompt_started(*final(self), prompt@, session_id@, turn_id@),
    {
        let request = self.quick_start_request(self.home_provider(), prompt, session_id);
        assert(old(self).quick_request(request, old(self).provider(), prompt@, session_id@));
        match self.issue_quick_start_request(&request, prompt, turn_id) {
            Ok(()) => {},
            Err(words) => {
                self.home_error = Some(words);
            },
        }
    }

    /// The home was submitted. Commands stay usable before anything can be started; then whether a
    /// start is possible is checked before anyone is sent through a sign-in.
    pub open spec fn home_submitted(&self, after: App, session_id: Seq<char>, turn_id: Seq<char>) -> bool {
        let prompt = self.home_draft.submission_of();
        if prompt is Some && slash_of(prompt->0) is Some {
            exists|ran: App|
                #[trigger] self.slashed(ran, prompt->0) && ran.draft_taken(after)
        } else {
            match self.blocker() {
                Some(words) => self.home_said(after, words),
                None => if self.needs_account() && !self.is_usable() {
                    self.login_captured(after, prompt, session_id)
                } else {
                    match prompt {
                        None => self.home_said(
                            after,
                            "Describe a task, or choose an example below."@,
                        ),
                        Some(prompt) => self.prompt_started(after, prompt, session_id, turn_id),
                    }
                },
            }
        }
    }

    fn run_line(&mut self, line: &str)
        requires
            old(self).wf(),
        ensures
            final(self).wf(),
            exists|ran: App|
                #[trigger] old(self).slashed(ran, line@) && ran.draft_taken(*final(self)),
    {
        let ghost start = *self;
        let _ = self.activate_slash_command(line);
        let ghost ran = *self;
        assert(start.slashed(ran, line@));
        self.home_draft.clear();
    }

    /// `session_id` and `turn_id` are new ones, for the session and its first turn if one comes of
    /// this.
    pub fn submit_home(&mut self, session_id: &str, turn_id: &str)
        requires
            old(self).wf(),
        ensures
            final(self).wf(),
            old(self).home_submitted(*final(self), session_id@, turn_id@),
    {
        let prompt = self.home_draft.submission();
        if let Some(line) = &prompt {
            if slash(line.as_str()).is_some() {
                self.run_line(line.as_str());
                return;
            }
        }
        if let Some(words) = self.home_start_blocker() {
            self.home_error = Some(words);
            return;
        }
        if self.home_requires_chatgpt() && !self.codex_usable() {
            self.capture_login(prompt, session_id);
            return;
        }
        match prompt {
            None => {
                self.home_error = Some(
                    "Describe a task, or choose an example below.".to_owned(),
                );
            },
            Some(prompt) => self.start_prompt(prompt.as_str(), session_id, turn_id),
        }
    }

    // ----- a sign-in completes --------------------------------------------------------

    /// A sign-in grants access, not permission to start something else: what was captured goes out
    /// only while it is still what the home shows.
    pub open spec fn still_wanted(&self) -> bool {
        &&& self.home_login_start is Some
        &&& self.tab == Tab::Sessions
        &&& self.sessions.open is None
        &&& self.home_draft.submission_of() == Some((self.home_login_start->0).1@)
    }

    pub open spec fn login_finished(&self, after: App, turn_id: Seq<char>) -> bool {
        let active = match self.overlay {
            Some(Overlay::Account(dialog)) => dialog.error is None,
            _ => false,
        };
        let closed = App {
            overlay: None,
            open_url_pending: None,
            home_login_start: None,
            ..*self
        };
        if !active || self.queue@.in_flight.contains(TagView::AccountLogin) {
            after == *self
        } else if self.still_wanted() {
            let (request, input) = self.home_login_start->0;
            match self.blocker() {
                Some(words) => closed.home_said(after, words),
                None => match request.refusal() {
                    Some(refusal) => closed.home_said(after, refusal.words()),
                    None => closed.quick_started(after, request, input@, turn_id),
                },
            }
        } else {
            closed.noticed(
                after,
                if self.home_draft.blank() {
                    "Connected. Describe a task or choose an example to begin."@
                } else {
                    "Connected. Your draft is ready; press Enter to start."@
                },
                NoticeKind::Info,
            )
        }
    }

    fn wants_still(&self) -> (r: bool)
        ensures
            r == self.still_wanted(),
    {
        match &self.home_login_start {
            Some((_, input)) => self.tab == Tab::Sessions && self.sessions.open.is_none()
                && match self.home_draft.submission() {
                Some(text) => same(text.as_str(), input.as_str()),
                None => false,
            },
            None => false,
        }
    }

    pub fn finish_home_login(&mut self, turn_id: &str)
        requires
            old(self).wf(),
        ensures
            final(self).wf(),
            old(self).login_finished(*final(self), turn_id@),
    {
        let active = match &self.overlay {
            Some(Overlay::Account(dialog)) => dialog.error.is_none(),
            _ => false,
        };
        if !active || self.queue.holds(&Tag::AccountLogin) {
            return;
        }
        let wanted = self.wants_still();
        self.overlay = None;
        self.open_url_pending = None;
        let mut captured: Option<(StartRequest, String)> = None;
        std::mem::swap(&mut self.home_login_start, &mut captured);
        if wanted {
            if let Some((request, input)) = captured {
                match self.home_start_blocker() {
                    Some(words) => {
                        self.home_error = Some(words);
                    },
                    None => {
                        match self.issue_quick_start_request(&request, input.as_str(), turn_id) {
                            Ok(()) => {},
                            Err(words) => {
                                self.home_error = Some(words);
                            },
                        }
                    },
                }
            }
            return;
        }
        let words = if self.home_draft.text.as_str().is_empty() {
            "Connected. Describe a task or choose an example to begin.".to_owned()
        } else {
            "Connected. Your draft is ready; press Enter to start.".to_owned()
        };
        self.inform(words, NoticeKind::Info);
    }
}

// ----- examples ---------------------------------------------------------------------

/// Prompts that ask to inspect a workspace: a name, and what choosing it writes into the draft.
pub const HOME_EXAMPLES: [(&'static str, &'static str); 3] = [
    (
        "Understand this project",
        "Explore this project and explain what it does, where the main code lives, and how to run it. Read the available documentation first. Don't change any files.",
    ),
    (
        "Review my local changes",
        "Review the uncommitted changes in this workspace for bugs and missing tests. Explain the most important findings with file references. Don't change any files.",
    ),
    (
        "Find a small first improvement",
        "Explore this project and suggest one small, useful improvement. Explain why it matters and give me a short plan. Don't change any files yet.",
    ),
];

impl App {
    /// What a blank home offers. Choosing one only fills the draft.
    pub fn home_examples() -> (r: [(&'static str, &'static str); 3])
        ensures
            r@ == HOME_EXAMPLES@,
    {
        HOME_EXAMPLES
    }
}

// ----- editing ----------------------------------------------------------------------

/// What an editor makes of a key.
#[derive(Debug, Clone, Copy, PartialEq, Eq, Structural)]
pub enum EditorAction {
    Submit,
    /// The second way to submit, which steers where there is a session to steer.
    SubmitAlternate,
    Cancel,
    /// The key was the editor's own.
    Edited,
    /// Pages of the transcript.
    Scroll(i8),
}

/// An editor after it took a key.
#[derive(Debug)]
pub struct Edit {
    pub action: EditorAction,
    pub draft: Draft,
}

pub open spec fn unknown_start_words() -> Seq<char> {
    "Your task may already exist. Press Enter to check and retry safely before editing this prompt."@
}

impl App {
    /// The home holds another draft, and no longer says what went wrong with the last.
    pub open spec fn drafted(&self, after: App, text: Seq<char>) -> bool {
        &&& after.home_draft.text@ == text
        &&& !after.home_draft.completing
        &&& after == (App { home_draft: after.home_draft, home_error: None, ..*self })
    }

    /// A key reached the home's composer.
    pub open spec fn home_keyed(
        &self,
        after: App,
        enter: bool,
        example: Option<usize>,
        edit: Edit,
        session_id: Seq<char>,
        turn_id: Seq<char>,
    ) -> bool {
        if self.home_pending {
            after == *self
        } else if self.reconciling() {
            if enter {
                self.home_submitted(after, session_id, turn_id)
            } else {
                self.home_said(after, unknown_start_words())
            }
        } else if self.home_draft.blank() && example is Some && example->0 < 3 {
            self.drafted(after, HOME_EXAMPLES@[example->0 as int].1@)
        } else {
            let edited = App { home_draft: edit.draft, ..*self };
            match edit.action {
                EditorAction::Submit => edited.home_submitted(after, session_id, turn_id),
                EditorAction::SubmitAlternate => edited.drafted(after, edit.draft.text@ + "\n"@),
                EditorAction::Cancel => edited.drafted(after, Seq::empty()),
                EditorAction::Edited => after == (App { home_error: None, ..edited }),
                EditorAction::Scroll(_) => after == edited,
            }
        }
    }

    /// `enter` where the key was Enter, `example` the example the key chooses, and `edit` what the
    /// editor made of it.
    pub fn home_key(
        &mut self,
        enter: bool,
        example: Option<usize>,
        edit: Edit,
        session_id: &str,
        turn_id: &str,
    )
        requires
            old(self).wf(),
        ensures
            final(self).wf(),
            old(self).home_keyed(
                *final(self),
                enter,
                example,
                edit,
                session_id@,
                turn_id@,
            ),
    {
        if self.home_pending {
            return;
        }
        if self.home_reconciling() {
            if enter {
                self.submit_home(session_id, turn_id);
            } else {
                self.home_error = Some(
                    "Your task may already exist. Press Enter to check and retry safely before editing this prompt.".to_owned(),
                );
            }
            return;
        }
        if self.home_draft.text.as_str().is_empty() {
            if let Some(i) = example {
                if i < 3 {
                    let all = App::home_examples();
                    self.home_draft.hold(all[i].1);
                    self.home_error = None;
                    return;
                }
            }
        }
        self.home_draft = edit.draft;
        match edit.action {
            EditorAction::Submit => self.submit_home(session_id, turn_id),
            EditorAction::SubmitAlternate => {
                let text = cat2(self.home_draft.text.as_str(), "\n");
                self.home_draft.hold(text.as_str());
                self.home_error = None;
            },
            EditorAction::Cancel => {
                self.home_draft.clear();
                self.home_error = None;
                assert(self.home_draft.text@ =~= Seq::empty());
            },
            EditorAction::Edited => {
                self.home_error = None;
            },
            EditorAction::Scroll(_) => {},
        }
    }

    // ----- a composer is submitted ----------------------------------------------------

    /// A turn as it leaves a composer, with what it takes to put its draft back.
    pub open spec fn turn_call(
        verb: ComposerVerb,
        plane: Plane,
        id: Seq<char>,
        input: Seq<char>,
        turn_id: Seq<char>,
        reconciling: bool,
        sequence: u64,
    ) -> CallView {
        plain_call(
            TagView::ComposerAction {
                label: verb.verb(),
                verb,
                plane,
                id,
                turn_id: Some(turn_id),
                input,
                reconciling,
                submission_sequence: sequence,
            },
            plane.method_of(verb.verb()),
            message_params(id, input, turn_id),
        )
    }

    /// The number the next submission goes by.
    pub open spec fn next_submission(&self) -> u64 {
        if self.submissions == u64::MAX {
            u64::MAX
        } else {
            (self.submissions + 1) as u64
        }
    }

    /// A composer after its text left: it stays open as a queue of follow-ups, so that a fast
    /// second message does not run into a busy session.
    pub open spec fn emptied(before: Composer, after: Composer) -> bool {
        &&& after.editor.blank() && !after.editor.completing
        &&& after == (Composer {
            editor: after.editor,
            next_turn_id: None,
            verb: if before.verb == ComposerVerb::Message {
                ComposerVerb::FollowUp
            } else {
                before.verb
            },
            ..before
        })
    }

    /// The composer let go of its text, and the reply to it is waited for.
    pub open spec fn text_left(&self, after: App, composer: Composer) -> bool {
        &&& after.sessions.composer is Some
        &&& App::emptied(composer, after.sessions.composer->0)
        &&& match key_of(self.sessions.open) {
            Some(key) => after.sessions.pending_replies@ == if composer.verb
                == ComposerVerb::Steer {
                self.sessions.pending_replies@
            } else {
                self.sessions.pending_replies@.insert(key)
            },
            None => after.sessions.pending_replies == self.sessions.pending_replies,
        }
        &&& after == (App {
            sessions: SessionsTab {
                composer: after.sessions.composer,
                pending_replies: after.sessions.pending_replies,
                ..self.sessions
            },
            submissions: self.next_submission(),
            ..*self
        })
    }

    /// The place of the turn of the open session that is reconciled before newer input goes out.
    pub open spec fn turn_to_reconcile(&self) -> Option<int> {
        match key_of(self.sessions.open) {
            Some((plane, id)) => unsettled_at(
                self.sessions.pending_reconciliations@,
                plane,
                id,
                0,
            ),
            None => None,
        }
    }

    /// A turn whose outcome is not known was sent again as it was.
    pub open spec fn turn_repeated(&self, after: App, turn: Unsettled) -> bool {
        self.sent(
            after,
            App::turn_call(
                turn.verb,
                turn.key.plane,
                turn.key.id@,
                turn.input@,
                turn.turn_id@,
                true,
                turn.submission_sequence,
            ),
        )
    }

    /// The id a composer's text goes under: the one it had, or a new one.
    pub open spec fn outgoing_id(composer: Composer, fresh: Seq<char>) -> Seq<char> {
        match composer.next_turn_id {
            Some(turn_id) => turn_id@,
            None => fresh,
        }
    }

    /// A composer's text went out to the open session.
    pub open spec fn text_sent(&self, after: App, composer: Composer, input: Seq<char>, fresh: Seq<char>) -> bool {
        exists|left: App|
            {
                &&& #[trigger] self.text_left(left, composer)
                &&& match key_of(self.sessions.open) {
                    Some((plane, id)) => left.sent(
                        after,
                        App::turn_call(
                            composer.verb,
                            plane,
                            id,
                            input,
                            App::outgoing_id(composer, fresh),
                            composer.next_turn_id is Some,
                            self.next_submission(),
                        ),
                    ),
                    None => after == left,
                }
            }
    }

    /// A composer was submitted. A turn of the session whose outcome is not known goes first.
    pub open spec fn composer_submitted(&self, after: App, fresh: Seq<char>) -> bool {
        match self.sessions.composer {
            None => after == *self,
            Some(composer) => {
                let input = composer.editor.submission_of();
                if input is Some && slash_of(input->0) is Some {
                    exists|ran: App|
                        #[trigger] self.slashed(ran, input->0) && ran.composer_cleared(after)
                } else {
                    match self.turn_to_reconcile() {
                        Some(at) => self.turn_repeated(
                            after,
                            self.sessions.pending_reconciliations@[at],
                        ),
                        None => match input {
                            Some(input) => self.text_sent(after, composer, input, fresh),
                            None => after == *self,
                        },
                    }
                }
            },
        }
    }

    /// The composer that is open, if one is, holds no text.
    pub open spec fn composer_cleared(&self, after: App) -> bool {
        match self.sessions.composer {
            Some(composer) => {
                &&& after.sessions.composer is Some
                &&& after.sessions.composer->0.editor.blank()
                &&& !after.sessions.composer->0.editor.completing
                &&& after.sessions.composer->0 == (Composer {
                    editor: after.sessions.composer->0.editor,
                    ..composer
                })
                &&& after == (App {
                    sessions: SessionsTab {
                        composer: after.sessions.composer,
                        ..self.sessions
                    },
                    ..*self
                })
            },
            None => after == *self,
        }
    }

    fn clear_composer(&mut self)
        requires
            old(self).wf(),
        ensures
            final(self).wf(),
            old(self).composer_cleared(*final(self)),
    {
        let mut held: Option<Composer> = None;
        std::mem::swap(&mut self.sessions.composer, &mut held);
        if let Some(composer) = held {
            let mut composer = composer;
            composer.editor.clear();
            self.sessions.composer = Some(composer);
        }
    }

    fn run_composer_line(&mut self, line: &str)
        requires
            old(self).wf(),
        ensures
            final(self).wf(),
            exists|ran: App|
                #[trigger] old(self).slashed(ran, line@) && ran.composer_cleared(*final(self)),
    {
        let ghost start = *self;
        let _ = self.activate_slash_command(line);
        let ghost ran = *self;
        assert(start.slashed(ran, line@));
        self.clear_composer();
    }

    fn take_text(&mut self)
        requires
            old(self).wf(),
            old(self).sessions.composer is Some,
        ensures
            final(self).wf(),
            old(self).text_left(*final(self), old(self).sessions.composer->0),
    {
        let ghost start = *self;
        let mut held: Option<Composer> = None;
        std::mem::swap(&mut self.sessions.composer, &mut held);
        if let Some(composer) = held {
            let mut composer = composer;
            let verb = composer.verb;
            composer.editor.clear();
            composer.next_turn_id = None;
            if verb == ComposerVerb::Message {
                composer.verb = ComposerVerb::FollowUp;
            }
            self.sessions.composer = Some(composer);
            if verb != ComposerVerb::Steer {
                let key = match &self.sessions.open {
                    Some(key) => Some(Key::new(key.plane, key.id.as_str())),
                    None => None,
                };
                if let Some(key) = key {
                    self.sessions.mark_reply_pending(key.plane, key.id.as_str());
                }
            }
        }
        self.submissions = self.submissions.saturating_add(1);
    }

    fn send_turn(
        &mut self,
        verb: ComposerVerb,
        plane: Plane,
        id: &str,
        input: &str,
        turn_id: &str,
        reconciling: bool,
        sequence: u64,
    )
        requires
            old(self).wf(),
        ensures
            final(self).wf(),
            old(self).sent(
                *final(self),
                App::turn_call(verb, plane, id@, input@, turn_id@, reconciling, sequence),
            ),
    {
        let method = plane.method(verb.method());
        let tag = Tag::ComposerAction {
            label: verb.method(),
            verb,
            plane,
            id: id.to_owned(),
            turn_id: Some(turn_id.to_owned()),
            input: input.to_owned(),
            reconciling,
            submission_sequence: sequence,
        };
        self.send_call(Call::new(tag, method.as_str(), message_request(id, input, turn_id)));
    }

    /// Sends the turn of the open session that waits to be reconciled, where there is one.
    fn reconcile_first(&mut self) -> (r: bool)
        requires
            old(self).wf(),
        ensures
            final(self).wf(),
            r == (old(self).turn_to_reconcile() is Some),
            if r {
                old(self).turn_repeated(
                    *final(self),
                    old(self).sessions.pending_reconciliations@[old(self).turn_to_reconcile()->0],
                )
            } else {
                *final(self) == *old(self)
            },
    {
        let at: usize = match &self.sessions.open {
            Some(key) => match find_unsettled(
                &self.sessions.pending_reconciliations,
                key.plane,
                key.id.as_str(),
            ) {
                Some(at) => at,
                None => {
                    return false;
                },
            },
            None => {
                return false;
            },
        };
        let turn = &self.sessions.pending_reconciliations[at];
        let (verb, plane, sequence) = (turn.verb, turn.key.plane, turn.submission_sequence);
        let (id, input, turn_id) = (turn.key.id.clone(), turn.input.clone(), turn.turn_id.clone());
        self.send_turn(
            verb,
            plane,
            id.as_str(),
            input.as_str(),
            turn_id.as_str(),
            true,
            sequence,
        );
        true
    }

    fn send_text(&mut self, input: &str, fresh: &str)
        requires
            old(self).wf(),
            old(self).sessions.composer is Some,
        ensures
            final(self).wf(),
            old(self).text_sent(*final(self), old(self).sessions.composer->0, input@, fresh@),
    {
        let ghost start = *self;
        let (verb, turn_id, again) = match &self.sessions.composer {
            Some(composer) => match &composer.next_turn_id {
                Some(turn_id) => (composer.verb, turn_id.clone(), true),
                None => (composer.verb, fresh.to_owned(), false),
            },
            None => (ComposerVerb::Message, fresh.to_owned(), false),
        };
        self.take_text();
        let ghost left = *self;
        assert(start.text_left(left, start.sessions.composer->0));
        let key = match &self.sessions.open {
            Some(key) => Some(Key::new(key.plane, key.id.as_str())),
            None => None,
        };
        let sequence: u64 = self.submissions;
        if let Some(key) = key {
            self.send_turn(
                verb,
                key.plane,
                key.id.as_str(),
                input,
                turn_id.as_str(),
                again,
                sequence,
            );
        }
    }

    /// `fresh` is a new id, for a turn that has none.
    pub fn submit_composer(&mut self, fresh: &str)
        requires
            old(self).wf(),
        ensures
            final(self).wf(),
            old(self).composer_submitted(*final(self), fresh@),
    {
        let input = match &self.sessions.composer {
            Some(composer) => composer.editor.submission(),
            None => {
                return;
            },
        };
        if let Some(line) = &input {
            if slash(line.as_str()).is_some() {
                self.run_composer_line(line.as_str());
                return;
            }
        }
        if self.reconcile_first() {
            return;
        }
        if let Some(input) = input {
            self.send_text(input.as_str(), fresh);
        }
    }

    /// The first message of the open session is on its way, so its composer takes no keys.
    pub open spec fn first_is_away(&self) -> bool {
        match key_of(self.sessions.open) {
            Some((plane, id)) => self.queue@.awaits_first_of(plane, id),
            None => false,
        }
    }

    pub fn first_message_in_flight(&self) -> (r: bool)
        ensures
            r == self.first_is_away(),
    {
        match &self.sessions.open {
            Some(key) => self.queue.awaits_first(key.plane, key.id.as_str()),
            None => false,
        }
    }
}

// ----- pasting ----------------------------------------------------------------------

/// The pieces that say something, without the white space around them.
pub open spec fn said_pieces(parts: Seq<Seq<char>>) -> Seq<Seq<char>>
    decreases parts.len(),
{
    if parts.len() == 0 {
        Seq::empty()
    } else {
        let rest = said_pieces(parts.drop_last());
        let last = trimmed(parts.last());
        if last.len() == 0 {
            rest
        } else {
            rest.push(last)
        }
    }
}

/// A text of several lines on one.
pub open spec fn flat(text: Seq<char>) -> Seq<char> {
    joined(said_pieces(split(crate::text::replaced(text, '\r', '\n'), '\n')), " "@)
}

pub fn flatten(text: &str) -> (r: String)
    ensures
        r@ == flat(text@),
{
    let lines = pieces(crate::text::replace(text, '\r', '\n').as_str(), '\n');
    let ghost whole = texts(lines@);
    let mut kept: Vec<String> = Vec::new();
    let mut i: usize = 0;
    assert(whole.take(0).len() == 0);
    assert(texts(kept@) =~= Seq::empty());
    while i < lines.len()
        invariant
            i <= lines@.len(),
            whole == texts(lines@),
            texts(kept@) == said_pieces(whole.take(i as int)),
        decreases lines@.len() - i,
    {
        let ghost before = texts(kept@);
        assert(whole.take(i + 1).drop_last() =~= whole.take(i as int));
        assert(whole.take(i + 1).last() == lines@[i as int]@);
        let line = trim(lines[i].as_str());
        if !line.as_str().is_empty() {
            kept.push(line);
            assert(texts(kept@) =~= before.push(line@));
        }
        i += 1;
    }
    assert(whole.take(i as int) =~= whole);
    join(&kept, " ")
}

impl App {
    /// A line pasted while an overlay has the keyboard goes into its text, or it is said that
    /// nothing takes text.
    pub open spec fn overlay_took(&self, after: App, line: Seq<char>) -> bool {
        let refused = self.noticed(
            after,
            "nothing here is taking text right now"@,
            NoticeKind::Info,
        );
        match self.overlay {
            Some(Overlay::New(form)) => if !form.pending && form.takes_text() {
                &&& after.overlay matches Some(Overlay::New(now))
                &&& form.holds(*now, form.text() + line)
                &&& self.overlaid(after)
            } else {
                refused
            },
            Some(Overlay::Settings(settings)) => if settings.field
                == crate::forms::SettingsField::Workspace {
                &&& after.overlay matches Some(Overlay::Settings(now))
                &&& now.workspace@ == settings.workspace@ + line
                &&& *now == (Settings {
                    workspace: now.workspace,
                    edited: true,
                    ..*settings
                })
                &&& self.overlaid(after)
            } else {
                refused
            },
            Some(Overlay::Commands(palette)) => {
                &&& after.overlay matches Some(Overlay::Commands(now))
                &&& now.query@ == palette.query@ + line
                &&& now.selected == 0
                &&& self.overlaid(after)
            },
            Some(Overlay::Prompt { kind, label, buffer }) => {
                &&& after.overlay matches Some(Overlay::Prompt { kind: k, label: l, buffer: b })
                &&& k == kind && l == label && b@ == buffer@ + line
                &&& self.overlaid(after)
            },
            Some(Overlay::Devices) => if self.devices.searching {
                &&& after.devices.query@ == self.devices.query@ + line
                &&& after == (App {
                    devices: DevicesState {
                        query: after.devices.query,
                        cursor: 0,
                        ..self.devices
                    },
                    ..*self
                })
            } else {
                refused
            },
            _ => refused,
        }
    }

    pub open spec fn overlay_pasted(&self, after: App, text: Seq<char>) -> bool {
        if flat(text).len() == 0 {
            after == *self
        } else {
            self.overlay_took(after, flat(text))
        }
    }

    fn overlay_paste(&mut self, text: &str)
        requires
            old(self).wf(),
        ensures
            final(self).wf(),
            old(self).overlay_pasted(*final(self), text@),
    {
        let line = flatten(text);
        if line.as_str().is_empty() {
            return;
        }
        let devices = match &self.overlay {
            Some(Overlay::Devices) => true,
            _ => false,
        };
        if devices {
            if !self.devices_paste(line.as_str()) {
                self.inform("nothing here is taking text right now".to_owned(), NoticeKind::Info);
            }
        } else {
            self.paste_into_overlay(line.as_str());
        }
    }

    fn paste_into_overlay(&mut self, line: &str)
        requires
            old(self).wf(),
            !(old(self).overlay matches Some(Overlay::Devices)),
        ensures
            final(self).wf(),
            old(self).overlay_took(*final(self), line@),
    {
        let takes = match &self.overlay {
            Some(Overlay::New(form)) => !form.pending && match form.field {
                crate::forms::NewField::Workspace | crate::forms::NewField::Objective => true,
                _ => false,
            },
            Some(Overlay::Settings(settings)) => settings.field
                == crate::forms::SettingsField::Workspace,
            Some(Overlay::Commands(_)) => true,
            Some(Overlay::Prompt { .. }) => true,
            _ => false,
        };
        if !takes {
            self.inform("nothing here is taking text right now".to_owned(), NoticeKind::Info);
            return;
        }
        let mut overlay: Option<Overlay> = None;
        std::mem::swap(&mut self.overlay, &mut overlay);
        self.overlay = match overlay {
            Some(Overlay::New(form)) => {
                let mut form = *form;
                let _ = form.type_in(line);
                Some(Overlay::New(Box::new(form)))
            },
            Some(Overlay::Settings(settings)) => {
                let mut settings = *settings;
                let _ = settings.type_in(line);
                Some(Overlay::Settings(Box::new(settings)))
            },
            Some(Overlay::Commands(palette)) => {
                let mut palette = palette;
                palette.query.append(line);
                palette.selected = 0;
                Some(Overlay::Commands(palette))
            },
            Some(Overlay::Prompt { kind, label, buffer }) => {
                let mut buffer = buffer;
                buffer.append(line);
                Some(Overlay::Prompt { kind, label, buffer })
            },
            other => other,
        };
    }

    /// A paste is one edit, of whatever has the keyboard.
    pub open spec fn pasted(&self, after: App, text: Seq<char>) -> bool {
        if self.overlay is Some {
            self.overlay_pasted(after, text)
        } else if self.tab != Tab::Sessions {
            after == *self
        } else {
            match self.sessions.composer {
                Some(composer) => {
                    &&& after.sessions.composer is Some
                    &&& ({
                        let now = after.sessions.composer->0;
                        &&& now.editor.text@ == composer.editor.text@ + text
                        &&& now.editor.completing == composer.editor.completing
                        &&& now.generation == if text.len() == 0 || composer.generation == u64::MAX {
                            composer.generation
                        } else {
                            (composer.generation + 1) as u64
                        }
                        &&& now == (Composer {
                            editor: now.editor,
                            generation: now.generation,
                            ..composer
                        })
                    })
                    &&& after == (App {
                        sessions: SessionsTab {
                            composer: after.sessions.composer,
                            ..self.sessions
                        },
                        ..*self
                    })
                },
                None => if self.sessions.open is None && !self.home_pending && !self.reconciling() {
                    &&& after.home_draft.text@ == self.home_draft.text@ + text
                    &&& after.home_draft.completing == self.home_draft.completing
                    &&& after == (App {
                        home_draft: after.home_draft,
                        home_error: None,
                        ..*self
                    })
                } else {
                    after == *self
                },
            }
        }
    }

    pub fn paste(&mut self, text: &str)
        requires
            old(self).wf(),
        ensures
            final(self).wf(),
            old(self).pasted(*final(self), text@),
    {
        if self.overlay.is_some() {
            self.overlay_paste(text);
            return;
        }
        if self.tab != Tab::Sessions {
            return;
        }
        if self.sessions.composer.is_some() {
            let mut held: Option<Composer> = None;
            std::mem::swap(&mut self.sessions.composer, &mut held);
            if let Some(composer) = held {
                let mut composer = composer;
                composer.editor.add(text);
                if !text.is_empty() {
                    composer.generation = composer.generation.saturating_add(1);
                }
                self.sessions.composer = Some(composer);
            }
            return;
        }
        if self.sessions.open.is_none() && !self.home_pending && !self.home_reconciling() {
            self.home_draft.add(text);
            self.home_error = None;
        }
    }
}

// ----- laws -------------------------------------------------------------------------

/// A start whose outcome is not known is made again under the id it had, and its first message
/// keeps its turn: no second session and no second turn comes of sending the prompt again.
pub proof fn lemma_an_unknown_start_is_made_again_as_it_was(
    before: App,
    held: App,
    request: StartRequest,
    provider: Seq<char>,
    prompt: Seq<char>,
    session_id: Seq<char>,
    turn_id: Seq<char>,
)
    requires
        before.reconciling(),
        before.first_message->0.input@ == prompt,
        before.quick_request(request, provider, prompt, session_id),
        before.start_held(held, request, prompt, turn_id),
    ensures
        request.same_as(before.first_message->0.start),
        held.first_message is Some,
        held.first_message->0.turn_id == before.first_message->0.turn_id,
        held.first_message->0.start == before.first_message->0.start,
{
}

/// Choosing an example, like any other key but the one that submits, changes the draft and what is
/// said of it and nothing else: no request is made before Enter.
pub proof fn lemma_only_a_submission_asks(
    before: App,
    after: App,
    example: Option<usize>,
    edit: Edit,
    session_id: Seq<char>,
    turn_id: Seq<char>,
)
    requires
        !(edit.action is Submit),
        before.home_keyed(after, false, example, edit, session_id, turn_id),
    ensures
        after == (App {
            home_draft: after.home_draft,
            home_error: after.home_error,
            ..before
        }),
{
}

} // verus!
