//! The home: the composer before there is a session, and what it takes to start one.

use vstd::prelude::*;

use crate::app::{App, Config, Connection, NoticeKind, Overlay, Tab};
use crate::forms::{
    approval_index, row_of, AccountDialog, AccountFlow, NewField, NewSession, ProviderChoice,
    ProviderEntry, Settings, SettingsField, StartRequest,
};
use crate::forms::{are_provider_rows, approval_at, mode_at, provider_choices};
use crate::json::JsonView;
use crate::model::{ApprovalMode, Plane};
use crate::sessions::SessionsTab;
use crate::tags::{plain_call, text_param, Call, CallView, Params, Tag, TagView, START_TIMEOUT};
use crate::text::{
    as_deref, begins, cat2, cat3, copy_text, cut, said, same, split_once, starts_with, trim,
    trimmed,
};

verus! {

/// The model a session of the default provider is started with where none is stored.
pub const DEFAULT_MODEL: &'static str = "openai_codex:gpt-5.6-sol";

impl App {
    // ----- what the home would start --------------------------------------------------

    pub open spec fn model(&self) -> Seq<char> {
        match self.config.model {
            Some(model) => model@,
            None => DEFAULT_MODEL@,
        }
    }

    pub fn home_model(&self) -> (r: &str)
        ensures
            r@ == self.model(),
    {
        match &self.config.model {
            Some(model) => model.as_str(),
            None => DEFAULT_MODEL,
        }
    }

    /// What the home would start goes through the managed account.
    pub open spec fn needs_account(&self) -> bool {
        self.provider() == "codex"@ || (self.provider() == "native"@ && begins(
            self.model(),
            "openai_codex:"@,
        ))
    }

    pub fn home_requires_chatgpt(&self) -> (r: bool)
        ensures
            r == self.needs_account(),
    {
        same(self.home_provider(), "codex") || (same(self.home_provider(), "native")
            && starts_with(self.home_model(), "openai_codex:"))
    }

    /// The model of the default provider without its vendor, or the provider.
    pub fn home_model_label(&self) -> (r: String)
        ensures
            r@ == if self.provider() == "native"@ {
                match cut(self.model(), ':') {
                    Some((_, model)) => model,
                    None => self.model(),
                }
            } else {
                self.provider()
            },
    {
        if same(self.home_provider(), "native") {
            match split_once(self.home_model(), ':') {
                Some((_, model)) => model,
                None => self.home_model().to_owned(),
            }
        } else {
            self.home_provider().to_owned()
        }
    }

    pub open spec fn permission(&self) -> Seq<char> {
        match self.config.mode() {
            Some(ApprovalMode::Prompt) => "Ask before actions"@,
            Some(ApprovalMode::AutoEdit) => "Ask except for file edits"@,
            Some(ApprovalMode::AutoApprove) => "Approvals off"@,
            _ => if self.provider() == "native"@ {
                "Ask before actions"@
            } else {
                "Default approvals"@
            },
        }
    }

    /// The requested policy in plain words. Where none is stated it is the provider's to decide.
    pub fn home_permission_label(&self) -> (r: &'static str)
        ensures
            r@ == self.permission(),
    {
        match self.config.approval() {
            Some(ApprovalMode::Prompt) => "Ask before actions",
            Some(ApprovalMode::AutoEdit) => "Ask except for file edits",
            Some(ApprovalMode::AutoApprove) => "Approvals off",
            _ => if same(self.home_provider(), "native") {
                "Ask before actions"
            } else {
                "Default approvals"
            },
        }
    }

    /// Why nothing can be started from here now.
    pub open spec fn blocker(&self) -> Option<Seq<char>> {
        if !(self.connection is Live) {
            Some(
                "Connection lost. Your draft is here; wait for reconnection, then press Enter."@,
            )
        } else if !self.hello.lists("interactive.start"@) {
            Some(
                "This runtime does not serve interactive.start. Update it to start a task; /runtime has connection details."@,
            )
        } else if !self.hello.can_operate() {
            Some(
                "This connection has scope `"@ + self.hello.scope@
                    + "` and cannot start tasks. Reconnect with operate access; /runtime has connection details."@,
            )
        } else {
            None
        }
    }

    pub fn home_start_blocker(&self) -> (r: Option<String>)
        ensures
            said(r) == self.blocker(),
    {
        if !matches!(self.connection, Connection::Live) {
            Some(
                "Connection lost. Your draft is here; wait for reconnection, then press Enter.".to_owned(),
            )
        } else if !self.hello.serves("interactive.start") {
            Some(
                "This runtime does not serve interactive.start. Update it to start a task; /runtime has connection details.".to_owned(),
            )
        } else if !self.hello.operates() {
            Some(
                cat3(
                    "This connection has scope `",
                    self.hello.scope.as_str(),
                    "` and cannot start tasks. Reconnect with operate access; /runtime has connection details.",
                ),
            )
        } else {
            None
        }
    }

    pub fn home_connect_and_start_pending(&self) -> (r: bool)
        ensures
            r == (self.home_login_start is Some),
    {
        self.home_login_start.is_some()
    }

    /// A start whose outcome is not known is on the home: only the same request may go out.
    pub open spec fn reconciling(&self) -> bool {
        self.first_message is Some && self.first_message->0.start_outcome_unknown
    }

    pub fn home_reconciling(&self) -> (r: bool)
        ensures
            r == self.reconciling(),
    {
        match &self.first_message {
            Some(message) => message.start_outcome_unknown,
            None => false,
        }
    }

    // ----- the account ----------------------------------------------------------------

    pub open spec fn flow(&self) -> AccountFlow {
        if self.mode is Spawned {
            AccountFlow::Browser
        } else {
            AccountFlow::DeviceCode
        }
    }

    pub open spec fn login_call(flow: AccountFlow) -> CallView {
        plain_call(
            TagView::AccountLogin,
            "account.login.start"@,
            JsonView::Object(seq![text_param("flow"@, flow.word())]),
        )
    }

    pub open spec fn scope_words(&self, what: Seq<char>) -> Seq<char> {
        what + ", and this listener runs at scope `"@ + self.hello.scope@ + "`"@
    }

    /// Why a sign-in cannot be started.
    pub open spec fn login_blocker(&self) -> Option<Seq<char>> {
        if !self.hello.lists("account.login.start"@) {
            Some("this gateway does not expose managed ChatGPT sign-in; update the runtime"@)
        } else if !self.hello.can_operate() {
            Some(self.scope_words("ChatGPT sign-in changes the runtime host"@))
        } else {
            None
        }
    }

    pub(crate) fn login_refusal(&self) -> (r: Option<String>)
        ensures
            said(r) == self.login_blocker(),
    {
        if !self.hello.serves("account.login.start") {
            Some(
                "this gateway does not expose managed ChatGPT sign-in; update the runtime".to_owned(),
            )
        } else if !self.hello.operates() {
            let head = cat2(
                "ChatGPT sign-in changes the runtime host",
                ", and this listener runs at scope `",
            );
            Some(cat3(head.as_str(), self.hello.scope.as_str(), "`"))
        } else {
            None
        }
    }

    /// A sign-in was started, by a flow.
    pub open spec fn login_begun(&self, after: App, flow: AccountFlow) -> bool {
        &&& after.wf()
        &&& after.overlay == Some(Overlay::Account(Box::new(AccountDialog::opened(flow, true))))
        &&& after.queue@ == self.queue@.with(App::login_call(flow))
        &&& after == (App { overlay: after.overlay, queue: after.queue, ..*self })
    }

    pub(crate) fn begin_login(&mut self, flow: AccountFlow)
        requires
            old(self).wf(),
        ensures
            old(self).login_begun(*final(self), flow),
    {
        self.overlay = Some(Overlay::Account(Box::new(AccountDialog::new(flow))));
        let params = Params::new().text("flow", flow.as_str());
        assert(params@ =~= seq![text_param("flow"@, flow.word())]);
        self.queue.put(Call::new(Tag::AccountLogin, "account.login.start", params.done()));
    }

    /// The account dialog is open, or the home says why it is not. A sign-in that was cancelled
    /// owns its answer until it arrives.
    pub open spec fn account_opened(&self, after: App) -> bool {
        if self.queue@.in_flight.contains(TagView::AccountLogin) || self.queue@.in_flight.contains(
            TagView::AccountCancel,
        ) {
            &&& said(after.home_error) == Some(
                "Finishing the previous sign-in attempt. Your draft is here; try again in a moment."@,
            )
            &&& after == (App { home_error: after.home_error, ..*self })
        } else {
            let base = App { home_login_start: None, home_error: None, ..*self };
            if self.is_connected() {
                after == (App {
                    overlay: Some(
                        Overlay::Account(Box::new(AccountDialog::opened(self.flow(), false))),
                    ),
                    ..base
                })
            } else {
                match self.login_blocker() {
                    Some(words) => said(after.home_error) == Some(words) && after == (App {
                        home_error: after.home_error,
                        ..base
                    }),
                    None => base.login_begun(after, self.flow()),
                }
            }
        }
    }

    fn own_flow(&self) -> (r: AccountFlow)
        ensures
            r == self.flow(),
    {
        if self.spawned() {
            AccountFlow::Browser
        } else {
            AccountFlow::DeviceCode
        }
    }

    pub fn open_account(&mut self)
        requires
            old(self).wf(),
        ensures
            final(self).wf(),
            old(self).account_opened(*final(self)),
    {
        if self.queue.holds(&Tag::AccountLogin) || self.queue.holds(&Tag::AccountCancel) {
            self.home_error = Some(
                "Finishing the previous sign-in attempt. Your draft is here; try again in a moment.".to_owned(),
            );
            return;
        }
        self.home_login_start = None;
        self.home_error = None;
        let flow = self.own_flow();
        if self.chatgpt_connected() {
            let mut dialog = AccountDialog::new(flow);
            dialog.pending = false;
            self.overlay = Some(Overlay::Account(Box::new(dialog)));
            return;
        }
        match self.login_refusal() {
            Some(words) => {
                self.home_error = Some(words);
            },
            None => self.begin_login(flow),
        }
    }

    /// A sign-in is given up: the draft stays, and it is said that nothing was connected.
    pub open spec fn account_cancelled(&self, after: App) -> bool {
        let closed = App { home_login_start: None, open_url_pending: None, ..*self };
        exists|mid: App|
            {
                &&& #[trigger] closed.overlay_closed(mid)
                &&& if self.is_connected() {
                    after == mid
                } else {
                    &&& said(after.home_error) == Some(
                        "Sign-in cancelled. Your draft is here; press Enter when you're ready to connect."@,
                    )
                    &&& after == (App { home_error: after.home_error, ..mid })
                }
            }
    }

    pub fn cancel_account(&mut self)
        requires
            old(self).wf(),
        ensures
            final(self).wf(),
            old(self).account_cancelled(*final(self)),
    {
        let connected = self.chatgpt_connected();
        self.home_login_start = None;
        self.open_url_pending = None;
        let ghost closed = *self;
        self.close_overlay();
        let ghost mid = *self;
        assert(closed.overlay_closed(mid));
        if !connected {
            self.home_error = Some(
                "Sign-in cancelled. Your draft is here; press Enter when you're ready to connect.".to_owned(),
            );
        }
    }

    // ----- the dialogs ----------------------------------------------------------------

    /// The home, with nothing on it.
    pub open spec fn home_cleared(&self, after: App) -> bool {
        &&& after.home_draft.blank() && !after.home_draft.completing
        &&& after == (App {
            home_login_start: None,
            overlay: None,
            tab: Tab::Sessions,
            sessions: SessionsTab { open: None, composer: None, ..self.sessions },
            home_draft: after.home_draft,
            home_error: None,
            ..*self
        })
    }

    pub open spec fn home_shown(&self, after: App) -> bool {
        exists|cleared: App| #[trigger] self.home_cleared(cleared) && cleared.polled(after)
    }

    pub fn new_home(&mut self)
        requires
            old(self).wf(),
        ensures
            final(self).wf(),
            old(self).home_shown(*final(self)),
    {
        let ghost start = *self;
        self.home_login_start = None;
        self.overlay = None;
        self.tab = Tab::Sessions;
        self.sessions.open = None;
        self.sessions.composer = None;
        self.home_draft.clear();
        self.home_error = None;
        let ghost cleared = *self;
        assert(start.home_cleared(cleared));
        self.poll();
    }

    /// The settings as they open.
    pub open spec fn settings_shown(&self, after: App) -> bool {
        &&& after.overlay matches Some(Overlay::Settings(settings))
        &&& settings.field == SettingsField::Provider
        &&& settings.provider == 0
        &&& settings.workspace@ == self.workspace()
        &&& settings.approval == row_of(self.config.mode())
        &&& said(settings.wanted_provider) == said(self.config.provider)
        &&& !settings.edited
        &&& after == (App { overlay: after.overlay, ..*self })
    }

    /// This client's preferences are open, where nothing else is. Writing a file of one's own
    /// needs no scope.
    pub open spec fn settings_opened(&self, after: App) -> bool {
        if self.overlay is Some {
            after == *self
        } else {
            exists|fetched: App, shown: App|
                #[trigger] self.fetched(fetched) && #[trigger] fetched.settings_shown(shown)
                    && shown.provider_placed(after)
        }
    }

    pub fn open_settings(&mut self)
        requires
            old(self).wf(),
        ensures
            final(self).wf(),
            old(self).settings_opened(*final(self)),
    {
        if self.overlay.is_some() {
            return;
        }
        let ghost start = *self;
        self.fetch_providers();
        let ghost fetched = *self;
        let settings = Settings {
            field: SettingsField::Provider,
            provider: 0,
            workspace: self.default_workspace(),
            approval: approval_index(self.config.approval()),
            wanted_provider: copy_text(&self.config.provider),
            edited: false,
        };
        self.overlay = Some(Overlay::Settings(Box::new(settings)));
        let ghost shown = *self;
        assert(start.fetched(fetched) && fetched.settings_shown(shown));
        self.place_default_provider();
    }

    /// The preferences as the rows of the settings read.
    pub open spec fn stored(before: Config, after: Config, settings: Settings, rows: Seq<ProviderChoice>) -> bool {
        &&& said(after.provider) == if settings.provider < rows.len() {
            rows[settings.provider as int].stored()
        } else {
            None
        }
        &&& said(after.workspace) == if trimmed(settings.workspace@).len() == 0 {
            None
        } else {
            Some(trimmed(settings.workspace@))
        }
        &&& said(after.approval_mode) == match mode_at(settings.approval) {
            Some(mode) => Some(mode.word()),
            None => None,
        }
        &&& after == (Config {
            provider: after.provider,
            workspace: after.workspace,
            approval_mode: after.approval_mode,
            ..before
        })
    }

    /// What the settings overlay shows is what will be written.
    pub open spec fn settings_saved(&self, after: App) -> bool {
        match self.overlay {
            Some(Overlay::Settings(settings)) => {
                &&& exists|rows: Seq<ProviderChoice>|
                    #[trigger] are_provider_rows(
                        rows,
                        self.known_providers(),
                        said(self.config.provider),
                    ) && App::stored(self.config, after.config, *settings, rows)
                &&& after == (App {
                    overlay: None,
                    config: after.config,
                    save_pending: true,
                    ..*self
                })
            },
            _ => after == (App { overlay: None, ..*self }),
        }
    }

    pub(crate) fn provider_rows(&self) -> (r: Vec<ProviderChoice>)
        ensures
            are_provider_rows(r@, self.known_providers(), said(self.config.provider)),
    {
        let nobody: Vec<ProviderEntry> = Vec::new();
        match &self.providers.value {
            Some(list) => provider_choices(list, as_deref(&self.config.provider)),
            None => provider_choices(&nobody, as_deref(&self.config.provider)),
        }
    }

    pub fn save_settings(&mut self)
        requires
            old(self).wf(),
        ensures
            final(self).wf(),
            old(self).settings_saved(*final(self)),
    {
        let rows = self.provider_rows();
        let mut overlay: Option<Overlay> = None;
        std::mem::swap(&mut self.overlay, &mut overlay);
        if let Some(Overlay::Settings(settings)) = overlay {
            let ghost before = self.config;
            self.config.provider = if settings.provider < rows.len() {
                match rows[settings.provider].name() {
                    Some(name) => Some(name.to_owned()),
                    None => None,
                }
            } else {
                None
            };
            let workspace = trim(settings.workspace.as_str());
            self.config.workspace = if workspace.as_str().is_empty() {
                None
            } else {
                Some(workspace)
            };
            self.config.approval_mode = match approval_at(settings.approval) {
                Some(mode) => Some(mode.as_str().to_owned()),
                None => None,
            };
            self.save_pending = true;
            assert(App::stored(before, self.config, *settings, rows@));
        }
    }

    /// The form as it opens.
    pub open spec fn form_shown(&self, after: App) -> bool {
        &&& after.overlay matches Some(Overlay::New(form))
        &&& form.field == NewField::Provider
        &&& form.request.plane == Plane::Interactive
        &&& form.request.workspace@ == self.workspace()
        &&& form.request.provider@.len() == 0 && form.request.objective@.len() == 0
        &&& form.request.id@.len() == 0 && form.request.model is None
        &&& form.request.approval_mode is None && form.request.machine@.len() == 0
        &&& form.request.sandbox_mode is None && form.request.reasoning_effort is None
        &&& form.provider == 0
        &&& form.approval == row_of(self.config.mode())
        &&& !form.pending && form.error is None
        &&& said(form.wanted_provider) == said(self.config.provider)
        &&& after == (App { overlay: after.overlay, ..*self })
    }

    /// The form that starts a session is open, or it is said why it is not.
    pub open spec fn form_opened(&self, after: App) -> bool {
        if self.tab != Tab::Sessions || self.overlay is Some {
            after == *self
        } else if !self.hello.lists("interactive.start"@) {
            self.noticed(
                after,
                "this gateway does not serve interactive.start"@,
                NoticeKind::Warn,
            )
        } else if !self.hello.can_operate() {
            self.noticed(
                after,
                self.scope_words("starting a session mutates the runtime"@),
                NoticeKind::Warn,
            )
        } else {
            exists|fetched: App, shown: App|
                #[trigger] self.fetched(fetched) && #[trigger] fetched.form_shown(shown)
                    && shown.provider_placed(after)
        }
    }

    fn scope_text(&self, what: &str) -> (r: String)
        ensures
            r@ == self.scope_words(what@),
    {
        let head = cat2(what, ", and this listener runs at scope `");
        cat3(head.as_str(), self.hello.scope.as_str(), "`")
    }

    pub fn open_new_session(&mut self)
        requires
            old(self).wf(),
        ensures
            final(self).wf(),
            old(self).form_opened(*final(self)),
    {
        if self.tab != Tab::Sessions || self.overlay.is_some() {
            return;
        }
        if !self.hello.serves("interactive.start") {
            self.inform(
                "this gateway does not serve interactive.start".to_owned(),
                NoticeKind::Warn,
            );
            return;
        }
        if !self.hello.operates() {
            let text = self.scope_text("starting a session mutates the runtime");
            self.inform(text, NoticeKind::Warn);
            return;
        }
        self.show_form();
    }

    fn show_form(&mut self)
        requires
            old(self).wf(),
        ensures
            final(self).wf(),
            exists|fetched: App, shown: App|
                #[trigger] old(self).fetched(fetched) && #[trigger] fetched.form_shown(shown)
                    && shown.provider_placed(*final(self)),
    {
        let ghost start = *self;
        self.fetch_providers();
        let ghost fetched = *self;
        let form = NewSession::new(
            Plane::Interactive,
            self.default_workspace(),
            self.config.approval(),
            copy_text(&self.config.provider),
        );
        self.overlay = Some(Overlay::New(Box::new(form)));
        let ghost shown = *self;
        assert(start.fetched(fetched) && fetched.form_shown(shown));
        self.place_default_provider();
    }

    pub open spec fn start_call(request: StartRequest, id: Option<Seq<char>>) -> CallView {
        CallView {
            tag: TagView::Start { plane: request.plane, id },
            method: request.plane.method_of("start"@),
            params: JsonView::Object(request.members()),
            timeout: Some(START_TIMEOUT),
        }
    }

    /// The request a form makes, as its rows read.
    pub open spec fn form_request(form: NewSession, request: StartRequest, providers: Seq<ProviderEntry>) -> bool {
        &&& request.plane == form.request.plane
        &&& request.machine@ == form.request.machine@
        &&& request.workspace@ == form.request.workspace@
        &&& request.objective@ == form.request.objective@
        &&& request.id@ == form.request.id@
        &&& said(request.model) == said(form.request.model)
        &&& said(request.sandbox_mode) == said(form.request.sandbox_mode)
        &&& request.reasoning_effort == form.request.reasoning_effort
        &&& request.approval_mode == mode_at(form.approval)
        &&& request.provider@ == if form.provider < providers.len() {
            providers[form.provider as int].provider@
        } else {
            Seq::empty()
        }
    }

    /// The form is submitted: its start goes out, or the form says why not.
    pub open spec fn form_submitted(&self, after: App) -> bool {
        match self.overlay {
            Some(Overlay::New(form)) => exists|request: StartRequest|
                {
                    &&& #[trigger] App::form_request(*form, request, self.known_providers())
                    &&& match request.refusal() {
                        Some(refusal) => {
                            &&& after.overlay matches Some(Overlay::New(now))
                            &&& said(now.error) == Some(refusal.words())
                            &&& *now == (NewSession { error: now.error, ..*form })
                            &&& after == (App { overlay: after.overlay, ..*self })
                        },
                        None => (App {
                            overlay: Some(
                                Overlay::New(
                                    Box::new(NewSession { error: None, pending: true, ..*form }),
                                ),
                            ),
                            ..*self
                        }).sent(after, App::start_call(request, None)),
                    }
                },
            _ => after == *self,
        }
    }

    pub fn submit_new_session(&mut self)
        requires
            old(self).wf(),
        ensures
            final(self).wf(),
            old(self).form_submitted(*final(self)),
    {
        if !matches!(self.overlay, Some(Overlay::New(_))) {
            return;
        }
        let nobody: Vec<ProviderEntry> = Vec::new();
        let mut overlay: Option<Overlay> = None;
        std::mem::swap(&mut self.overlay, &mut overlay);
        if let Some(Overlay::New(form)) = overlay {
            let mut form = *form;
            let request = match &self.providers.value {
                Some(list) => form.resolved(list),
                None => form.resolved(&nobody),
            };
            assert(App::form_request(form, request, old(self).known_providers()));
            match request.params() {
                Err(refusal) => {
                    form.error = Some(refusal.message());
                    self.overlay = Some(Overlay::New(Box::new(form)));
                },
                Ok(params) => {
                    form.error = None;
                    form.pending = true;
                    self.overlay = Some(Overlay::New(Box::new(form)));
                    let method = request.method();
                    let call = Call::new(
                        Tag::Start { plane: request.plane, id: None },
                        method.as_str(),
                        params,
                    ).with_timeout(START_TIMEOUT);
                    self.send_call(call);
                },
            }
        }
    }
}

} // verus!
