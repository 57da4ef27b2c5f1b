//! The keys of whatever lies over the screen.

use vstd::prelude::*;

use crate::app::{App, Overlay};
use crate::forms::{are_provider_rows, best, down, form_row, form_rows, next_row, prior_row, shorten,
    shortened, up, wrapped, Command, CommandPalette, NewField, NewSession, ProviderChoice, Settings,
    SettingsField};
use crate::model::{Plane, SessionInfo};
use crate::ownership::Quit;
use crate::press::{KeyCode, Press};
use crate::sessions::{seen_rows, Composer, SessionsTab};
use crate::tags::{no_params, nothing, plain_call, Call, ComposerVerb, Tag, TagView};
use crate::text::{said, same};

verus! {

/// One character as text.
fn letter(c: char) -> (r: String)
    ensures
        r@ == seq![c],
{
    let mut one = String::new();
    one.push(c);
    assert(one@ =~= seq![c]);
    one
}

// ----- forms ------------------------------------------------------------------------

impl Settings {
    pub open spec fn moved(&self, delta: int) -> Settings {
        Settings {
            field: SettingsField::ALL@[wrapped(self.field.rank(), delta, 4)],
            ..*self
        }
    }

    /// The workspace row holds another text.
    pub open spec fn rewritten(&self, after: Settings, text: Seq<char>) -> bool {
        &&& after.workspace@ == text
        &&& after == (Settings { workspace: after.workspace, edited: true, ..*self })
    }

    /// What a key changes in the rows. Enter goes on to the next row: to finish a text is no
    /// decision to write a file.
    pub open spec fn keyed(&self, after: Settings, code: KeyCode, providers: nat) -> bool {
        match code {
            KeyCode::Tab | KeyCode::Down | KeyCode::Enter => after == self.moved(1),
            KeyCode::BackTab | KeyCode::Up => after == self.moved(-1),
            KeyCode::Left => after == self.cycled(-1, providers),
            KeyCode::Right => after == self.cycled(1, providers),
            KeyCode::Backspace => if self.field is Workspace {
                self.rewritten(after, shortened(self.workspace@))
            } else {
                after == *self
            },
            KeyCode::Char(c) => if self.field is Workspace {
                self.rewritten(after, self.workspace@.push(c))
            } else {
                after == *self
            },
            _ => after == *self,
        }
    }

    fn key(&mut self, code: KeyCode, providers: usize)
        ensures
            old(self).keyed(*final(self), code, providers as nat),
    {
        match code {
            KeyCode::Tab | KeyCode::Down | KeyCode::Enter => self.move_field(1),
            KeyCode::BackTab | KeyCode::Up => self.move_field(-1),
            KeyCode::Left => self.cycle(-1, providers),
            KeyCode::Right => self.cycle(1, providers),
            KeyCode::Backspace => {
                let _ = self.erase();
            },
            KeyCode::Char(c) => {
                let ghost before = self.workspace@;
                let one = letter(c);
                let _ = self.type_in(one.as_str());
                assert(before + seq![c] =~= before.push(c));
            },
            _ => {},
        }
    }
}

impl NewSession {
    pub open spec fn moved(&self, delta: int) -> NewSession {
        let rows = form_rows(self.request.plane);
        NewSession {
            field: rows[wrapped(
                form_row(self.request.plane, self.field),
                delta,
                rows.len() as int,
            )],
            ..*self
        }
    }

    /// What a key changes in the form. Enter goes on to the next row: no session starts because a
    /// text was finished.
    pub open spec fn keyed(&self, after: NewSession, code: KeyCode, providers: nat) -> bool {
        match code {
            KeyCode::Tab | KeyCode::Down | KeyCode::Enter => after == self.moved(1),
            KeyCode::BackTab | KeyCode::Up => after == self.moved(-1),
            KeyCode::Left => after == self.cycled(-1, providers),
            KeyCode::Right => after == self.cycled(1, providers),
            KeyCode::Backspace => if self.takes_text() {
                self.holds(after, shortened(self.text()))
            } else {
                after == *self
            },
            KeyCode::Char(c) => if self.takes_text() {
                self.holds(after, self.text().push(c))
            } else {
                after == *self
            },
            _ => after == *self,
        }
    }

    fn key(&mut self, code: KeyCode, providers: usize)
        ensures
            old(self).keyed(*final(self), code, providers as nat),
    {
        match code {
            KeyCode::Tab | KeyCode::Down | KeyCode::Enter => self.move_field(1),
            KeyCode::BackTab | KeyCode::Up => self.move_field(-1),
            KeyCode::Left => self.cycle(-1, providers),
            KeyCode::Right => self.cycle(1, providers),
            KeyCode::Backspace => {
                let _ = self.erase();
            },
            KeyCode::Char(c) => {
                let ghost before = self.text();
                let one = letter(c);
                let _ = self.type_in(one.as_str());
                assert(before + seq![c] =~= before.push(c));
            },
            _ => {},
        }
    }
}

impl CommandPalette {
    /// What a key changes in the palette. A new query moves the cursor to what it could mean.
    pub open spec fn keyed(&self, after: CommandPalette, press: Press) -> bool {
        match press.code {
            KeyCode::Down => after == (CommandPalette {
                selected: next_row(self.selected, Command::ALL@.len()),
                ..*self
            }),
            KeyCode::Up => after == (CommandPalette { selected: prior_row(self.selected), ..*self }),
            KeyCode::Backspace => after.query@ == shortened(self.query@) && best(
                after.query@,
                after.selected,
            ),
            KeyCode::Char(c) => if press.ctrl {
                after == *self
            } else {
                after.query@ == self.query@.push(c) && best(after.query@, after.selected)
            },
            _ => after == *self,
        }
    }

    fn key(&mut self, press: Press)
        ensures
            old(self).keyed(*final(self), press),
    {
        match press.code {
            KeyCode::Down => {
                let rows = self.visible();
                self.selected = down(self.selected, rows.len());
            },
            KeyCode::Up => {
                self.selected = up(self.selected);
            },
            KeyCode::Backspace => {
                self.query = shorten(self.query.as_str());
                self.selected = self.first_match();
            },
            KeyCode::Char(c) => {
                if !press.ctrl {
                    self.query.push(c);
                    self.selected = self.first_match();
                }
            },
            _ => {},
        }
    }
}

impl App {
    pub open spec fn bare(&self) -> App {
        App { overlay: None, ..*self }
    }

    /// A key in the settings.
    pub open spec fn settings_keyed(&self, after: App, code: KeyCode) -> bool {
        match self.overlay {
            Some(Overlay::Settings(settings)) => if code == KeyCode::Esc {
                after == self.bare()
            } else if code == KeyCode::Enter && settings.field == SettingsField::Save {
                self.settings_saved(after)
            } else {
                exists|rows: Seq<ProviderChoice>|
                    {
                        &&& #[trigger] are_provider_rows(
                            rows,
                            self.known_providers(),
                            said(self.config.provider),
                        )
                        &&& after.overlay matches Some(Overlay::Settings(now))
                        &&& settings.keyed(*now, code, rows.len())
                        &&& self.overlaid(after)
                    }
            },
            _ => after == *self,
        }
    }

    pub fn settings_key(&mut self, code: KeyCode)
        requires
            old(self).wf(),
        ensures
            final(self).wf(),
            old(self).settings_keyed(*final(self), code),
    {
        let saves = match &self.overlay {
            Some(Overlay::Settings(settings)) => settings.field == SettingsField::Save,
            _ => {
                return;
            },
        };
        if code == KeyCode::Esc {
            self.overlay = None;
            return;
        }
        if code == KeyCode::Enter && saves {
            self.save_settings();
            return;
        }
        let rows = self.provider_rows();
        assert(are_provider_rows(rows@, self.known_providers(), said(self.config.provider)));
        let mut overlay: Option<Overlay> = None;
        std::mem::swap(&mut self.overlay, &mut overlay);
        if let Some(Overlay::Settings(settings)) = overlay {
            let mut settings = *settings;
            settings.key(code, rows.len());
            self.overlay = Some(Overlay::Settings(Box::new(settings)));
        }
    }

    /// A key in the form. A form whose start is in flight takes no edits: the answer is about what
    /// was sent.
    pub open spec fn form_keyed(&self, after: App, code: KeyCode) -> bool {
        match self.overlay {
            Some(Overlay::New(form)) => if code == KeyCode::Esc {
                after == self.bare()
            } else if form.pending {
                after == *self
            } else if code == KeyCode::Enter && form.field == NewField::Start {
                self.form_submitted(after)
            } else {
                &&& after.overlay matches Some(Overlay::New(now))
                &&& form.keyed(*now, code, self.known_providers().len())
                &&& self.overlaid(after)
            },
            _ => after == *self,
        }
    }

    pub fn new_session_key(&mut self, code: KeyCode)
        requires
            old(self).wf(),
        ensures
            final(self).wf(),
            old(self).form_keyed(*final(self), code),
    {
        let (pending, starts) = match &self.overlay {
            Some(Overlay::New(form)) => (form.pending, form.field == NewField::Start),
            _ => {
                return;
            },
        };
        if code == KeyCode::Esc {
            self.overlay = None;
            return;
        }
        if pending {
            return;
        }
        if code == KeyCode::Enter && starts {
            self.submit_new_session();
            return;
        }
        let providers: usize = match &self.providers.value {
            Some(list) => list.len(),
            None => 0,
        };
        let mut overlay: Option<Overlay> = None;
        std::mem::swap(&mut self.overlay, &mut overlay);
        if let Some(Overlay::New(form)) = overlay {
            let mut form = *form;
            form.key(code, providers);
            self.overlay = Some(Overlay::New(Box::new(form)));
        }
    }

    // ----- the palette ----------------------------------------------------------------

    /// A key in the command palette.
    pub open spec fn palette_keyed(&self, after: App, press: Press) -> bool {
        match self.overlay {
            Some(Overlay::Commands(palette)) => if press.code == KeyCode::Esc || (press.ctrl
                && press.code == KeyCode::Char('p')) {
                after == self.bare()
            } else if press.code == KeyCode::Enter && palette.selected < Command::ALL@.len() {
                self.commanded(after, Command::ALL@[palette.selected as int])
            } else {
                &&& after.overlay matches Some(Overlay::Commands(now))
                &&& palette.keyed(now, press)
                &&& self.overlaid(after)
            },
            _ => after == *self,
        }
    }

    pub fn command_palette_key(&mut self, press: Press)
        requires
            old(self).wf(),
        ensures
            final(self).wf(),
            old(self).palette_keyed(*final(self), press),
    {
        let command = match &self.overlay {
            Some(Overlay::Commands(palette)) => {
                let rows = palette.visible();
                if press.code == KeyCode::Enter && palette.selected < rows.len() {
                    Some(rows[palette.selected])
                } else {
                    None
                }
            },
            _ => {
                return;
            },
        };
        if press.code == KeyCode::Esc || (press.ctrl && press.code == KeyCode::Char('p')) {
            self.overlay = None;
            return;
        }
        if let Some(command) = command {
            self.activate_command(command);
            return;
        }
        let mut overlay: Option<Overlay> = None;
        std::mem::swap(&mut self.overlay, &mut overlay);
        if let Some(Overlay::Commands(palette)) = overlay {
            let mut palette = palette;
            palette.key(press);
            self.overlay = Some(Overlay::Commands(palette));
        }
    }

    // ----- the session picker ---------------------------------------------------------

    /// The verb a session that was picked is written to with.
    pub open spec fn picked_verb(session: SessionInfo) -> ComposerVerb {
        if session.status.word@ == "idle"@ {
            ComposerVerb::Message
        } else {
            ComposerVerb::FollowUp
        }
    }

    /// A composer for `verb` is open.
    pub open spec fn composer_set(&self, after: App, verb: ComposerVerb) -> bool {
        &&& after.sessions.composer is Some
        &&& after.sessions.composer->0.is_fresh(verb)
        &&& after == (App {
            sessions: SessionsTab { composer: after.sessions.composer, ..self.sessions },
            ..*self
        })
    }

    /// A session was picked: it is opened, and an interactive one can be written to at once.
    pub open spec fn picked(&self, after: App, session: SessionInfo) -> bool {
        exists|opened: App|
            {
                &&& #[trigger] self.bare().session_opened(opened, session.plane, session.id@)
                &&& if session.plane == Plane::Interactive {
                    opened.composer_set(after, App::picked_verb(session))
                } else {
                    after == opened
                }
            }
    }

    /// A key in the session picker.
    pub open spec fn picker_keyed(&self, after: App, code: KeyCode) -> bool {
        match self.overlay {
            Some(Overlay::SessionPicker { choice }) => {
                let rows = self.sessions.rows();
                match code {
                    KeyCode::Esc => after == self.bare(),
                    KeyCode::Down | KeyCode::Char('j') => after == (App {
                        overlay: Some(
                            Overlay::SessionPicker { choice: next_row(choice, rows.len()) },
                        ),
                        ..*self
                    }),
                    KeyCode::Up | KeyCode::Char('k') => after == (App {
                        overlay: Some(Overlay::SessionPicker { choice: prior_row(choice) }),
                        ..*self
                    }),
                    KeyCode::Enter => if choice < rows.len() {
                        self.picked(after, rows[choice as int])
                    } else {
                        after == self.bare()
                    },
                    _ => after == *self,
                }
            },
            _ => after == *self,
        }
    }

    pub fn session_picker_key(&mut self, code: KeyCode)
        requires
            old(self).wf(),
        ensures
            final(self).wf(),
            old(self).picker_keyed(*final(self), code),
    {
        let choice: usize = match &self.overlay {
            Some(Overlay::SessionPicker { choice }) => *choice,
            _ => {
                return;
            },
        };
        match code {
            KeyCode::Esc => {
                self.overlay = None;
            },
            KeyCode::Down | KeyCode::Char('j') => {
                let rows: usize = self.session_count();
                self.overlay = Some(Overlay::SessionPicker { choice: down(choice, rows) });
            },
            KeyCode::Up | KeyCode::Char('k') => {
                self.overlay = Some(Overlay::SessionPicker { choice: up(choice) });
            },
            KeyCode::Enter => self.pick(choice),
            _ => {},
        }
    }

    fn session_count(&self) -> (r: usize)
        ensures
            r == self.sessions.rows().len(),
    {
        let rows = self.sessions.merged();
        assert(rows@.len() == seen_rows(rows@).len());
        rows.len()
    }

    fn pick(&mut self, choice: usize)
        requires
            old(self).wf(),
        ensures
            final(self).wf(),
            if choice < old(self).sessions.rows().len() {
                old(self).picked(*final(self), old(self).sessions.rows()[choice as int])
            } else {
                *final(self) == old(self).bare()
            },
    {
        let ghost rows = self.sessions.rows();
        let picked: Option<(Plane, String, bool)> = {
            let merged = self.sessions.merged();
            assert(merged@.len() == seen_rows(merged@).len());
            if choice < merged.len() {
                let session = merged[choice];
                assert(seen_rows(merged@)[choice as int] == *session);
                Some(
                    (
                        session.plane,
                        session.id.clone(),
                        same(session.status.word.as_str(), "idle"),
                    ),
                )
            } else {
                None
            }
        };
        self.overlay = None;
        let ghost bare = *self;
        if let Some((plane, id, idle)) = picked {
            self.open_session(plane, id.as_str());
            let ghost opened = *self;
            assert(bare.session_opened(opened, plane, rows[choice as int].id@));
            if plane == Plane::Interactive {
                let verb = if idle {
                    ComposerVerb::Message
                } else {
                    ComposerVerb::FollowUp
                };
                self.sessions.composer = Some(Composer::new(verb));
            }
        }
    }

    // ----- the account ----------------------------------------------------------------

    /// A key in the account dialog. Only a connected account is dismissed by Enter or signed out.
    pub open spec fn account_keyed(&self, after: App, code: KeyCode) -> bool {
        match code {
            KeyCode::Esc => self.account_cancelled(after),
            KeyCode::Enter => after == if self.is_connected() {
                self.bare()
            } else {
                *self
            },
            KeyCode::Char('l') => if self.is_connected() && self.hello.lists("account.logout"@) {
                self.bare().sent(
                    after,
                    plain_call(TagView::AccountLogout, "account.logout"@, no_params()),
                )
            } else {
                after == *self
            },
            _ => after == *self,
        }
    }

    pub fn account_key(&mut self, code: KeyCode)
        requires
            old(self).wf(),
        ensures
            final(self).wf(),
            old(self).account_keyed(*final(self), code),
    {
        let connected = self.chatgpt_connected();
        match code {
            KeyCode::Esc => self.cancel_account(),
            KeyCode::Enter => {
                if connected {
                    self.overlay = None;
                }
            },
            KeyCode::Char('l') => {
                if connected && self.hello.serves("account.logout") {
                    self.overlay = None;
                    self.send_call(Call::new(Tag::AccountLogout, "account.logout", nothing()));
                }
            },
            _ => {},
        }
    }

    // ----- choosers -------------------------------------------------------------------

    /// A key in the dialog that leaves.
    pub open spec fn quit_keyed(
        &self,
        after: App,
        code: KeyCode,
        options: Vec<(String, Quit)>,
        choice: usize,
    ) -> bool {
        match code {
            KeyCode::Esc | KeyCode::Char('q') => after == self.bare(),
            KeyCode::Char('j') | KeyCode::Down => after == (App {
                overlay: Some(
                    Overlay::Quit { options, choice: next_row(choice, options@.len()) },
                ),
                ..*self
            }),
            KeyCode::Char('k') | KeyCode::Up => after == (App {
                overlay: Some(Overlay::Quit { options, choice: prior_row(choice) }),
                ..*self
            }),
            KeyCode::Enter => after == (App {
                quit: if choice < options@.len() {
                    Some(options@[choice as int].1)
                } else {
                    None
                },
                ..self.bare()
            }),
            _ => after == *self,
        }
    }

    fn quit_key(&mut self, code: KeyCode, options: Vec<(String, Quit)>, choice: usize)
        requires
            old(self).wf(),
            old(self).overlay is None,
        ensures
            final(self).wf(),
            (App {
                overlay: Some(Overlay::Quit { options, choice }),
                ..*old(self)
            }).quit_keyed(*final(self), code, options, choice),
    {
        match code {
            KeyCode::Esc | KeyCode::Char('q') => {},
            KeyCode::Char('j') | KeyCode::Down => {
                let next: usize = down(choice, options.len());
                self.overlay = Some(Overlay::Quit { options, choice: next });
            },
            KeyCode::Char('k') | KeyCode::Up => {
                self.overlay = Some(Overlay::Quit { options, choice: up(choice) });
            },
            KeyCode::Enter => {
                self.quit = if choice < options.len() {
                    Some(options[choice].1)
                } else {
                    None
                };
            },
            _ => {
                self.overlay = Some(Overlay::Quit { options, choice });
            },
        }
    }

    /// A key in a dialog that asks whether to act.
    pub open spec fn confirm_keyed(
        &self,
        after: App,
        code: KeyCode,
        title: String,
        detail: String,
        options: Vec<(String, Option<Call>)>,
        choice: usize,
    ) -> bool {
        match code {
            KeyCode::Esc => after == self.bare(),
            KeyCode::Char('j') | KeyCode::Down => after == (App {
                overlay: Some(
                    Overlay::Confirm {
                        title,
                        detail,
                        options,
                        choice: next_row(choice, options@.len()),
                    },
                ),
                ..*self
            }),
            KeyCode::Char('k') | KeyCode::Up => after == (App {
                overlay: Some(
                    Overlay::Confirm { title, detail, options, choice: prior_row(choice) },
                ),
                ..*self
            }),
            KeyCode::Enter => if choice < options@.len() && options@[choice as int].1 is Some {
                self.bare().issued(after, options@[choice as int].1->0)
            } else {
                after == self.bare()
            },
            _ => after == *self,
        }
    }

    fn confirm_key(
        &mut self,
        code: KeyCode,
        title: String,
        detail: String,
        options: Vec<(String, Option<Call>)>,
        choice: usize,
    )
        requires
            old(self).wf(),
            old(self).overlay is None,
        ensures
            final(self).wf(),
            (App {
                overlay: Some(Overlay::Confirm { title, detail, options, choice }),
                ..*old(self)
            }).confirm_keyed(*final(self), code, title, detail, options, choice),
    {
        match code {
            KeyCode::Esc => {},
            KeyCode::Char('j') | KeyCode::Down => {
                let next: usize = down(choice, options.len());
                self.overlay = Some(Overlay::Confirm { title, detail, options, choice: next });
            },
            KeyCode::Char('k') | KeyCode::Up => {
                self.overlay = Some(
                    Overlay::Confirm { title, detail, options, choice: up(choice) },
                );
            },
            KeyCode::Enter => {
                let mut options = options;
                if choice < options.len() {
                    let (_, call) = options.remove(choice);
                    if let Some(call) = call {
                        self.issue(call);
                    }
                }
            },
            _ => {
                self.overlay = Some(Overlay::Confirm { title, detail, options, choice });
            },
        }
    }

    /// A key in an approval dialog.
    pub open spec fn approval_keyed(&self, after: App, code: KeyCode) -> bool {
        match self.overlay {
            Some(Overlay::Approval { plane, id, request_id, subject, choice }) => match code {
                KeyCode::Esc => after == self.bare(),
                KeyCode::Char('j') | KeyCode::Down => after == (App {
                    overlay: Some(
                        Overlay::Approval {
                            plane,
                            id,
                            request_id,
                            subject,
                            choice: next_row(choice, 4),
                        },
                    ),
                    ..*self
                }),
                KeyCode::Char('k') | KeyCode::Up => after == (App {
                    overlay: Some(
                        Overlay::Approval {
                            plane,
                            id,
                            request_id,
                            subject,
                            choice: prior_row(choice),
                        },
                    ),
                    ..*self
                }),
                KeyCode::Enter => self.approval_submitted(after),
                _ => after == *self,
            },
            _ => after == *self,
        }
    }

    fn approval_key(&mut self, code: KeyCode)
        requires
            old(self).wf(),
        ensures
            final(self).wf(),
            old(self).approval_keyed(*final(self), code),
    {
        if !matches!(self.overlay, Some(Overlay::Approval { .. })) {
            return;
        }
        match code {
            KeyCode::Esc => {
                self.overlay = None;
            },
            KeyCode::Enter => self.submit_approval(),
            KeyCode::Char('j') | KeyCode::Down | KeyCode::Char('k') | KeyCode::Up => {
                let back = code == KeyCode::Char('k') || code == KeyCode::Up;
                let mut overlay: Option<Overlay> = None;
                std::mem::swap(&mut self.overlay, &mut overlay);
                if let Some(Overlay::Approval { plane, id, request_id, subject, choice }) = overlay {
                    let next: usize = if back {
                        up(choice)
                    } else {
                        down(choice, 4)
                    };
                    self.overlay = Some(
                        Overlay::Approval { plane, id, request_id, subject, choice: next },
                    );
                }
            },
            _ => {},
        }
    }

    /// A key in a prompt.
    pub open spec fn prompt_keyed(&self, after: App, code: KeyCode) -> bool {
        match self.overlay {
            Some(Overlay::Prompt { kind, label, buffer }) => match code {
                KeyCode::Esc => after == self.bare(),
                KeyCode::Backspace => {
                    &&& after.overlay matches Some(Overlay::Prompt { kind: k, label: l, buffer: b })
                    &&& k == kind && l == label && b@ == shortened(buffer@)
                    &&& self.overlaid(after)
                },
                KeyCode::Char(c) => {
                    &&& after.overlay matches Some(Overlay::Prompt { kind: k, label: l, buffer: b })
                    &&& k == kind && l == label && b@ == buffer@.push(c)
                    &&& self.overlaid(after)
                },
                KeyCode::Enter => self.prompt_submitted(after),
                _ => after == *self,
            },
            _ => after == *self,
        }
    }

    fn prompt_key(&mut self, code: KeyCode)
        requires
            old(self).wf(),
        ensures
            final(self).wf(),
            old(self).prompt_keyed(*final(self), code),
    {
        if !matches!(self.overlay, Some(Overlay::Prompt { .. })) {
            return;
        }
        match code {
            KeyCode::Esc => {
                self.overlay = None;
            },
            KeyCode::Enter => self.submit_prompt(),
            KeyCode::Backspace | KeyCode::Char(_) => {
                let mut overlay: Option<Overlay> = None;
                std::mem::swap(&mut self.overlay, &mut overlay);
                if let Some(Overlay::Prompt { kind, label, buffer }) = overlay {
                    let mut buffer = buffer;
                    if let KeyCode::Char(c) = code {
                        buffer.push(c);
                    } else {
                        buffer = shorten(buffer.as_str());
                    }
                    self.overlay = Some(Overlay::Prompt { kind, label, buffer });
                }
            },
            _ => {},
        }
    }

    // ----- one key --------------------------------------------------------------------

    /// A key goes to what lies over the screen, and to nothing under it. A form and the devices
    /// view take every printable character before a chooser could read it as a motion.
    pub open spec fn overlay_keyed(&self, after: App, press: Press, numbered: bool) -> bool {
        let code = press.code;
        match self.overlay {
            None => after == *self,
            Some(Overlay::Commands(_)) => self.palette_keyed(after, press),
            Some(Overlay::Account(_)) => self.account_keyed(after, code),
            Some(Overlay::SessionPicker { .. }) => self.picker_keyed(after, code),
            Some(Overlay::New(_)) => self.form_keyed(after, code),
            Some(Overlay::Settings(_)) => self.settings_keyed(after, code),
            Some(Overlay::Devices) => self.devices_keyed(after, code, numbered),
            Some(Overlay::Help) => after == match code {
                KeyCode::Esc | KeyCode::Char('?') | KeyCode::Enter => self.bare(),
                _ => *self,
            },
            Some(Overlay::Quit { options, choice }) => self.quit_keyed(
                after,
                code,
                options,
                choice,
            ),
            Some(Overlay::Confirm { title, detail, options, choice }) => self.confirm_keyed(
                after,
                code,
                title,
                detail,
                options,
                choice,
            ),
            Some(Overlay::Approval { .. }) => self.approval_keyed(after, code),
            Some(Overlay::Prompt { .. }) => self.prompt_keyed(after, code),
        }
    }

    pub fn overlay_key(&mut self, press: Press, numbered: bool)
        requires
            old(self).wf(),
        ensures
            final(self).wf(),
            old(self).overlay_keyed(*final(self), press, numbered),
    {
        match &self.overlay {
            None => {},
            Some(Overlay::Commands(_)) => self.command_palette_key(press),
            Some(Overlay::Account(_)) => self.account_key(press.code),
            Some(Overlay::SessionPicker { .. }) => self.session_picker_key(press.code),
            Some(Overlay::New(_)) => self.new_session_key(press.code),
            Some(Overlay::Settings(_)) => self.settings_key(press.code),
            Some(Overlay::Devices) => self.devices_key(press.code, numbered),
            Some(Overlay::Help) => match press.code {
                KeyCode::Esc | KeyCode::Char('?') | KeyCode::Enter => {
                    self.overlay = None;
                },
                _ => {},
            },
            Some(Overlay::Quit { .. }) | Some(Overlay::Confirm { .. }) => self.chooser_key(press.code),
            Some(Overlay::Approval { .. }) => self.approval_key(press.code),
            Some(Overlay::Prompt { .. }) => self.prompt_key(press.code),
        }
    }

    fn chooser_key(&mut self, code: KeyCode)
        requires
            old(self).wf(),
            old(self).overlay matches Some(Overlay::Quit { .. }) || old(self).overlay matches Some(
                Overlay::Confirm { .. },
            ),
        ensures
            final(self).wf(),
            match old(self).overlay {
                Some(Overlay::Quit { options, choice }) => old(self).quit_keyed(
                    *final(self),
                    code,
                    options,
                    choice,
                ),
                Some(Overlay::Confirm { title, detail, options, choice }) => old(
                    self,
                ).confirm_keyed(*final(self), code, title, detail, options, choice),
                _ => true,
            },
    {
        let mut overlay: Option<Overlay> = None;
        std::mem::swap(&mut self.overlay, &mut overlay);
        match overlay {
            Some(Overlay::Quit { options, choice }) => self.quit_key(code, options, choice),
            Some(Overlay::Confirm { title, detail, options, choice }) => self.confirm_key(
                code,
                title,
                detail,
                options,
                choice,
            ),
            _ => {},
        }
    }
}

// ----- laws -------------------------------------------------------------------------

/// While a start is in flight nothing in its form changes; the form can only be closed.
pub proof fn lemma_a_form_in_flight_is_not_edited(before: App, after: App, code: KeyCode)
    requires
        before.overlay matches Some(Overlay::New(form)) && form.pending,
        before.form_keyed(after, code),
    ensures
        after == before || after == before.bare(),
{
}

/// No key but Enter on the last row starts a session or writes the preferences.
pub proof fn lemma_only_the_last_row_acts(before: App, after: App, code: KeyCode)
    requires
        match before.overlay {
            Some(Overlay::New(form)) => (code != KeyCode::Enter || form.field != NewField::Start)
                && before.form_keyed(after, code),
            Some(Overlay::Settings(settings)) => (code != KeyCode::Enter || settings.field
                != SettingsField::Save) && before.settings_keyed(after, code),
            _ => false,
        },
    ensures
        before.overlaid(after),
{
}

} // verus!
