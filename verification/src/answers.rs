//! What an answer does: the panel it fills, the notice it leaves, and what it hands on.

use vstd::prelude::*;

use crate::app::{
    AccountState, App, Config, NoticeKind, Overlay, Restore, ACCOUNT_LOGIN_TICKS, ACCOUNT_TICKS,
    MODEL_TICKS, PROVIDER_TICKS, STATUS_TICKS, TICK_CEILING,
};
use crate::explorer::{are_rows, listed_values, rows_of, Explorer, Listing, Row, UpgradeTab,
    DETAIL_TICKS, LIST_TICKS, UPGRADE_TICKS};
use crate::forms::{AccountDialog, ProviderEntry};
use crate::json::{Json, JsonView};
use crate::model::{Plane, SessionInfo};
use crate::panel::Loadable;
use crate::tags::{plain_call, text_param, Call, CallView, ComposerVerb, Params, Tag, TagView};
use crate::text::{
    begins, cat2, cat3, cat4, cat5, copy_text, join, joined, said, same, starts_with, texts,
};
use crate::wire::{ClientError, ErrorCode, RpcError};

verus! {

/// A refused call, with what was read off the refusal.
#[derive(Debug)]
pub struct Failure {
    pub error: ClientError,
    /// The refusal in the gateway's terms, where the gateway refused.
    pub refusal: String,
    /// The refusal says that nobody knows whether the call took effect.
    pub outcome_unknown: bool,
    /// The refusal says that the session is busy.
    pub busy: bool,
    /// What a native session says it cannot do.
    pub native: Option<String>,
    /// The events up to this one are no longer kept, where the error says so.
    pub pruned: Option<u64>,
}

impl Failure {
    /// Why, in one line.
    pub open spec fn words(&self) -> Seq<char> {
        self.error.words()
    }

    /// Why, in the gateway's terms where it was the gateway.
    pub open spec fn diagnosis(&self) -> Seq<char> {
        if self.error is Rpc {
            self.refusal@
        } else {
            self.error.words()
        }
    }

    pub fn diagnostic(&self) -> (r: String)
        ensures
            r@ == self.diagnosis(),
    {
        match &self.error {
            ClientError::Rpc(_) => self.refusal.clone(),
            _ => self.error.message(),
        }
    }

    /// The connection went with it.
    pub open spec fn disconnects(&self) -> bool {
        self.error is ConnectionClosed || self.error is Stopped
    }

    /// Nobody knows whether the turn arrived. No error of the transport is permission to send a
    /// second one.
    pub open spec fn unknown(&self) -> bool {
        match self.error {
            ClientError::Rpc(rpc) => rpc.code == ErrorCode::UpstreamTimeout || self.outcome_unknown,
            _ => true,
        }
    }

    pub fn reply_outcome_unknown(&self) -> (r: bool)
        ensures
            r == self.unknown(),
    {
        match &self.error {
            ClientError::Rpc(rpc) => rpc.code == ErrorCode::UpstreamTimeout || self.outcome_unknown,
            _ => true,
        }
    }

    /// What a repair cannot go below, where the gateway refused it for that.
    pub open spec fn floor(&self) -> Option<u64> {
        if self.error is Rpc {
            self.pruned
        } else {
            None
        }
    }

    pub fn pruned_floor(&self) -> (r: Option<u64>)
        ensures
            r == self.floor(),
    {
        match &self.error {
            ClientError::Rpc(_) => self.pruned,
            _ => None,
        }
    }

    pub open spec fn says_busy(&self) -> bool {
        self.error is Rpc && self.busy
    }

    /// The method was not there to be called.
    pub open spec fn is_unserved(&self, method: Seq<char>) -> bool {
        &&& self.error matches ClientError::Rpc(rpc)
        &&& rpc.code == ErrorCode::MethodNotFound
        &&& rpc.message@ == crate::app::unserved_words(method)
        &&& rpc.data is None
        &&& self.refusal@ == crate::app::unserved_words(method)
        &&& !self.outcome_unknown && !self.busy && self.native is None && self.pruned is None
    }

    pub fn unserved(method: &str) -> (r: Failure)
        ensures
            r.is_unserved(method@),
    {
        let message = cat2("this gateway does not serve ", method);
        Failure {
            refusal: message.clone(),
            error: ClientError::Rpc(
                RpcError { code: ErrorCode::MethodNotFound, message, data: None },
            ),
            outcome_unknown: false,
            busy: false,
            native: None,
            pruned: None,
        }
    }

    pub open spec fn code(&self) -> Option<ErrorCode> {
        self.error.code_of()
    }
}

// ----- sentences --------------------------------------------------------------------

/// A refused verb, in the terms the gateway used.
pub open spec fn failed_words(label: Seq<char>, id: Seq<char>, failure: Failure, scope: Seq<char>) -> Seq<
    char,
> {
    match failure.error {
        ClientError::Rpc(rpc) => if rpc.code == ErrorCode::ScopeDenied {
            label + " was refused: this listener runs at scope `"@ + scope + "` and "@ + label
                + " mutates the runtime"@
        } else if rpc.code == ErrorCode::UpstreamTimeout && failure.outcome_unknown {
            label + " on "@ + id
                + ": the gateway stopped waiting, the runtime did not stop working \u{2014} read the session to see which it was"@
        } else {
            label + " on "@ + id + ": "@ + failure.refusal@
        },
        _ => label + " on "@ + id + " failed: "@ + failure.error.words(),
    }
}

pub fn failed_text(label: &str, id: &str, failure: &Failure, scope: &str) -> (r: String)
    ensures
        r@ == failed_words(label@, id@, *failure, scope@),
{
    match &failure.error {
        ClientError::Rpc(rpc) => {
            if rpc.code == ErrorCode::ScopeDenied {
                let head = cat3(label, " was refused: this listener runs at scope `", scope);
                cat4(head.as_str(), "` and ", label, " mutates the runtime")
            } else if rpc.code == ErrorCode::UpstreamTimeout && failure.outcome_unknown {
                cat4(
                    label,
                    " on ",
                    id,
                    ": the gateway stopped waiting, the runtime did not stop working \u{2014} read the session to see which it was",
                )
            } else {
                cat5(label, " on ", id, ": ", failure.refusal.as_str())
            }
        },
        _ => cat5(label, " on ", id, " failed: ", failure.error.message().as_str()),
    }
}

/// What a typed refusal of a setting says of itself: the field it names, its words and its reason.
pub open spec fn named_refusal(error: ClientError, field: Seq<char>) -> Option<(
    Seq<char>,
    Option<Seq<char>>,
    JsonView,
)> {
    match error {
        ClientError::Rpc(rpc) => match rpc.data {
            Some(data) => if data@.member_text("field"@) == Some(field) {
                Some(
                    (
                        match data@.member_text("reason"@) {
                            Some(reason) => reason,
                            None => Seq::empty(),
                        },
                        data@.member_text("message"@),
                        data@,
                    ),
                )
            } else {
                None
            },
            None => None,
        },
        _ => None,
    }
}

pub open spec fn with_reason(message: Seq<char>, reason: Seq<char>) -> Seq<char> {
    if reason.len() == 0 {
        message
    } else {
        message + " ("@ + reason + ")"@
    }
}

fn reasoned(message: &str, reason: &str) -> (r: String)
    ensures
        r@ == with_reason(message@, reason@),
{
    if reason.is_empty() {
        message.to_owned()
    } else {
        cat4(message, " (", reason, ")")
    }
}

/// The refusal of a plan mode that says itself what to do instead.
pub open spec fn plan_words(error: ClientError) -> Option<Seq<char>> {
    match named_refusal(error, "plan"@) {
        Some((reason, Some(message), _)) => Some(with_reason(message, reason)),
        _ => None,
    }
}

fn data_of<'a>(error: &'a ClientError, field: &str) -> (r: Option<&'a Json>)
    ensures
        match r {
            Some(data) => named_refusal(*error, field@) is Some && (named_refusal(*error, field@)->0).2
                == data@,
            None => named_refusal(*error, field@) is None,
        },
{
    match error {
        ClientError::Rpc(rpc) => match &rpc.data {
            Some(data) => {
                let named = match data.get_str("field") {
                    Some(word) => same(word, field),
                    None => false,
                };
                if named {
                    Some(data)
                } else {
                    None
                }
            },
            None => None,
        },
        _ => None,
    }
}

pub fn plan_refusal(error: &ClientError) -> (r: Option<String>)
    ensures
        said(r) == plan_words(*error),
{
    let data = match data_of(error, "plan") {
        Some(data) => data,
        None => {
            return None;
        },
    };
    let reason = match data.get_str("reason") {
        Some(reason) => reason,
        None => "",
    };
    proof {
        reveal_strlit("");
        assert(""@ =~= Seq::empty());
    }
    match data.get_str("message") {
        Some(message) => Some(reasoned(message, reason)),
        None => None,
    }
}

pub open spec fn briefs(values: Seq<JsonView>) -> Seq<Seq<char>> {
    Seq::new(values.len(), |i: int| values[i].brief())
}

/// The refusal of a file-access posture that says which of the several refusals it is. One that
/// lists the postures it would take says those.
pub open spec fn sandbox_words(error: ClientError) -> Option<Seq<char>> {
    match named_refusal(error, "sandbox_mode"@) {
        Some((reason, Some(message), _)) => Some(with_reason(message, reason)),
        Some((reason, None, data)) => match data.member_list("accepted_values"@) {
            Some(values) => {
                let accepted = joined(briefs(values), ", "@);
                if accepted.len() == 0 {
                    None
                } else {
                    Some(
                        "this session's provider takes only "@ + accepted + " for sandbox_mode ("@
                            + reason + ")"@,
                    )
                }
            },
            None => None,
        },
        None => None,
    }
}

fn brief_list(values: &Vec<Json>) -> (r: String)
    ensures
        r@ == joined(briefs(crate::json::items_view(values@)), ", "@),
{
    let mut parts: Vec<String> = Vec::new();
    let mut i: usize = 0;
    while i < values.len()
        invariant
            i <= values@.len(),
            parts@.len() == i,
            forall|k: int| 0 <= k < i ==> (#[trigger] parts@[k])@ == values@[k]@.brief(),
        decreases values@.len() - i,
    {
        parts.push(values[i].in_brief());
        i += 1;
    }
    assert(texts(parts@) =~= briefs(crate::json::items_view(values@)));
    join(&parts, ", ")
}

pub fn sandbox_refusal(error: &ClientError) -> (r: Option<String>)
    ensures
        said(r) == sandbox_words(*error),
{
    let data = match data_of(error, "sandbox_mode") {
        Some(data) => data,
        None => {
            return None;
        },
    };
    proof {
        reveal_strlit("");
        assert(""@ =~= Seq::empty());
    }
    let reason = match data.get_str("reason") {
        Some(reason) => reason,
        None => "",
    };
    if let Some(message) = data.get_str("message") {
        return Some(reasoned(message, reason));
    }
    let values = match data.get_array("accepted_values") {
        Some(values) => values,
        None => {
            return None;
        },
    };
    let accepted = brief_list(values);
    if accepted.as_str().is_empty() {
        return None;
    }
    Some(
        cat5(
            "this session's provider takes only ",
            accepted.as_str(),
            " for sandbox_mode (",
            reason,
            ")",
        ),
    )
}

// ----- composers --------------------------------------------------------------------

/// What became of a draft that went back.
#[derive(Debug, Clone, Copy, PartialEq, Eq, Structural)]
pub enum Disposition {
    Restored,
    SavedForReopen,
    NewerDraftPreserved,
    /// A newer draft is there, and the turn waits to be reconciled before it.
    ReconciliationQueued,
}

pub open spec fn preserved_words(disposition: Disposition) -> Seq<char> {
    match disposition {
        Disposition::Restored => "the exact draft was restored for inspection"@,
        Disposition::SavedForReopen => "the exact draft was saved for inspection when this composer is reopened"@,
        _ => "the newer draft was preserved; the prior steer remains available in composer history"@,
    }
}

/// What is said of a draft that went back.
pub open spec fn restored_words(restore: Restore, disposition: Disposition) -> Seq<char> {
    if restore.unknown && restore.verb == ComposerVerb::Steer {
        "steer on "@ + restore.id@ + ": delivery could not be confirmed; "@ + preserved_words(
            disposition,
        )
            + ". Steer is not idempotent \u{2014} check the transcript and provider state before deliberately sending it again"@
    } else if disposition is ReconciliationQueued {
        restore.label@ + " on "@ + restore.id@ + ": "@ + restore.diagnostic@
            + "; saved outcome-unknown turn "@ + (match restore.turn_id {
            Some(turn_id) => turn_id@,
            None => "unknown"@,
        }) + " without overwriting the session draft. Open "@ + restore.id@
            + "; Enter reconciles it before newer input"@
    } else {
        restore.plain@
    }
}

fn restored_text(restore: &Restore, disposition: Disposition) -> (r: String)
    ensures
        r@ == restored_words(*restore, disposition),
{
    if restore.unknown && restore.verb == ComposerVerb::Steer {
        let preserved = match disposition {
            Disposition::Restored => "the exact draft was restored for inspection",
            Disposition::SavedForReopen => "the exact draft was saved for inspection when this composer is reopened",
            _ => "the newer draft was preserved; the prior steer remains available in composer history",
        };
        cat5(
            "steer on ",
            restore.id.as_str(),
            ": delivery could not be confirmed; ",
            preserved,
            ". Steer is not idempotent \u{2014} check the transcript and provider state before deliberately sending it again",
        )
    } else if disposition == Disposition::ReconciliationQueued {
        let head = cat5(
            restore.label,
            " on ",
            restore.id.as_str(),
            ": ",
            restore.diagnostic.as_str(),
        );
        let turn = match &restore.turn_id {
            Some(turn_id) => turn_id.as_str(),
            None => "unknown",
        };
        let middle = cat3(head.as_str(), "; saved outcome-unknown turn ", turn);
        cat4(
            middle.as_str(),
            " without overwriting the session draft. Open ",
            restore.id.as_str(),
            "; Enter reconciles it before newer input",
        )
    } else {
        restore.plain.clone()
    }
}

impl App {
    /// A draft went back into its composer, and this is what became of it.
    pub fn composer_restored(&mut self, restore: &Restore, disposition: Disposition)
        requires
            old(self).ticks <= TICK_CEILING,
        ensures
            final(self).says(restored_words(*restore, disposition), NoticeKind::Error),
            *final(self) == (App { notice: final(self).notice, ..*old(self) }),
    {
        let text = restored_text(restore, disposition);
        self.inform(text, NoticeKind::Error);
    }

    /// Says that a verb was refused.
    pub fn action_failed(&mut self, label: &str, id: &str, failure: &Failure)
        requires
            old(self).ticks <= TICK_CEILING,
        ensures
            final(self).says(
                failed_words(label@, id@, *failure, old(self).hello.scope@),
                NoticeKind::Error,
            ),
            *final(self) == (App { notice: final(self).notice, ..*old(self) }),
    {
        let text = failed_text(label, id, failure, self.hello.scope.as_str());
        self.inform(text, NoticeKind::Error);
    }

    /// Says that a verb only native sessions have was refused. Two of the shapes this takes have a
    /// sentence of their own.
    pub fn native_verb_failed(&mut self, label: &str, id: &str, failure: &Failure)
        requires
            old(self).ticks <= TICK_CEILING,
        ensures
            match failure.native {
                Some(sentence) => final(self).says(
                    label@ + ": "@ + sentence@,
                    NoticeKind::Info,
                ),
                None => final(self).says(
                    failed_words(label@, id@, *failure, old(self).hello.scope@),
                    NoticeKind::Error,
                ),
            },
            *final(self) == (App { notice: final(self).notice, ..*old(self) }),
    {
        match &failure.native {
            Some(sentence) => self.inform(cat3(label, ": ", sentence.as_str()), NoticeKind::Info),
            None => self.action_failed(label, id, failure),
        }
    }

    // ----- the account ----------------------------------------------------------------

    pub open spec fn account_cadence(account: AccountState) -> u64 {
        if account.login_status@ == "pending"@ {
            ACCOUNT_LOGIN_TICKS
        } else {
            ACCOUNT_TICKS
        }
    }

    /// The first account that connects becomes the default, where none was stored.
    pub open spec fn adopted(before: Config, after: Config, connected: bool) -> bool {
        if connected && before.provider is None {
            &&& said(after.provider) == Some("native"@)
            &&& said(after.model) == Some("openai_codex:gpt-5.6-sol"@)
            &&& after == (Config { provider: after.provider, model: after.model, ..before })
        } else {
            after == before
        }
    }

    /// The sign-in dialog, once the account was read.
    pub open spec fn dialog_after(before: AccountDialog, after: AccountDialog, account: AccountState) -> bool {
        &&& said(after.login_id) == said(account.login_id)
        &&& if account.login_status@ == "failed"@ {
            &&& !after.pending
            &&& said(after.error) == Some(
                match account.login_error {
                    Some(error) => error@,
                    None => "ChatGPT sign-in did not complete"@,
                },
            )
            &&& after == (AccountDialog {
                login_id: after.login_id,
                pending: false,
                error: after.error,
                ..before
            })
        } else {
            after == (AccountDialog { login_id: after.login_id, ..before })
        }
    }

    /// The account was read.
    pub open spec fn account_read(&self, after: App, account: AccountState) -> bool {
        &&& after.account == self.account.after_ok(
            account,
            self.ticks,
            App::account_cadence(account),
        )
        &&& App::adopted(self.config, after.config, account.connected)
        &&& after.save_pending == (self.save_pending || (account.connected
            && self.config.provider is None))
        &&& match self.overlay {
            Some(Overlay::Account(dialog)) => if account.connected {
                after.overlay is None && after.says(
                    "ChatGPT is connected. Type a request to start coding."@,
                    NoticeKind::Info,
                )
            } else {
                &&& after.overlay matches Some(Overlay::Account(now))
                &&& App::dialog_after(*dialog, *now, account)
                &&& after.notice == self.notice
            },
            _ => after.overlay == self.overlay && after.notice == self.notice,
        }
        &&& after == (App {
            account: after.account,
            config: after.config,
            save_pending: after.save_pending,
            overlay: after.overlay,
            notice: after.notice,
            ..*self
        })
    }

    pub(crate) fn read_account(&mut self, account: AccountState)
        requires
            old(self).wf(),
        ensures
            final(self).wf(),
            old(self).account_read(*final(self), account),
    {
        let connected = account.connected;
        let failed = same(account.login_status.as_str(), "failed");
        let cadence: u64 = if same(account.login_status.as_str(), "pending") {
            ACCOUNT_LOGIN_TICKS
        } else {
            ACCOUNT_TICKS
        };
        let login_id = copy_text(&account.login_id);
        let login_error = copy_text(&account.login_error);
        let t: u64 = self.ticks;
        self.account.ok(account, t, cadence);
        if connected {
            if self.config.provider.is_none() {
                self.config.provider = Some("native".to_owned());
                self.config.model = Some("openai_codex:gpt-5.6-sol".to_owned());
                self.save_pending = true;
            }
            if matches!(self.overlay, Some(Overlay::Account(_))) {
                self.overlay = None;
                self.inform(
                    "ChatGPT is connected. Type a request to start coding.".to_owned(),
                    NoticeKind::Info,
                );
            }
        } else {
            let mut overlay: Option<Overlay> = None;
            std::mem::swap(&mut self.overlay, &mut overlay);
            self.overlay = match overlay {
                Some(Overlay::Account(dialog)) => {
                    let mut dialog = *dialog;
                    dialog.login_id = login_id;
                    if failed {
                        dialog.pending = false;
                        dialog.error = Some(
                            match login_error {
                                Some(error) => error,
                                None => "ChatGPT sign-in did not complete".to_owned(),
                            },
                        );
                    }
                    Some(Overlay::Account(Box::new(dialog)))
                },
                other => other,
            };
        }
    }

    pub open spec fn cancel_call(login_id: Seq<char>) -> CallView {
        plain_call(
            TagView::AccountCancel,
            "account.login.cancel"@,
            JsonView::Object(seq![text_param("login_id"@, login_id)]),
        )
    }

    /// The account will be read again at once.
    pub open spec fn account_stale(&self) -> App {
        App { account: Loadable { next_tick: 0, ..self.account }, ..*self }
    }

    pub(crate) fn reread_account(&mut self)
        requires
            old(self).wf(),
        ensures
            final(self).wf(),
            old(self).account_stale().polled(*final(self)),
    {
        self.account.invalidate();
        self.poll();
    }

    /// A sign-in could not be cancelled, or a cancel the gateway does not serve was answered
    /// here.
    pub open spec fn cancel_refused(&self, after: App, words: Seq<char>) -> bool {
        exists|read: App|
            {
                &&& #[trigger] self.account_stale().polled(read)
                &&& after.wf()
                &&& after.says(
                    "cancelling ChatGPT sign-in failed: "@ + words,
                    NoticeKind::Error,
                )
                &&& after == (App { notice: after.notice, ..read })
            }
    }

    pub(crate) fn cancel_failed(&mut self, words: &str)
        requires
            old(self).wf(),
        ensures
            final(self).wf(),
            old(self).cancel_refused(*final(self), words@),
    {
        let ghost start = *self;
        self.reread_account();
        let ghost read = *self;
        self.inform(cat2("cancelling ChatGPT sign-in failed: ", words), NoticeKind::Error);
        assert(start.account_stale().polled(read) && self.says(
            "cancelling ChatGPT sign-in failed: "@ + words@,
            NoticeKind::Error,
        ));
    }

    /// A sign-in was given up: its cancel goes out, or is answered here where the gateway does not
    /// serve it.
    pub open spec fn cancelled(&self, after: App, login_id: Seq<char>) -> bool {
        if self.hello.lists("account.login.cancel"@) {
            &&& after.wf()
            &&& after.queue@ == self.queue@.with(App::cancel_call(login_id))
            &&& after == (App { queue: after.queue, ..*self })
        } else {
            exists|freed: App|
                {
                    &&& freed.queue@ == self.queue@.without(TagView::AccountCancel)
                    &&& freed == (App { queue: freed.queue, ..*self })
                    &&& #[trigger] freed.cancel_refused(
                        after,
                        crate::app::unserved_words("account.login.cancel"@),
                    )
                }
        }
    }

    pub(crate) fn cancel_login(&mut self, login_id: &str)
        requires
            old(self).wf(),
        ensures
            final(self).wf(),
            old(self).cancelled(*final(self), login_id@),
    {
        if self.hello.serves("account.login.cancel") {
            let params = Params::new().text("login_id", login_id);
            assert(params@ =~= seq![text_param("login_id"@, login_id@)]);
            self.queue.put(
                Call::new(Tag::AccountCancel, "account.login.cancel", params.done()),
            );
        } else {
            let ghost start = *self;
            self.queue.answered(&Tag::AccountCancel);
            let ghost freed = *self;
            let words = cat2("this gateway does not serve ", "account.login.cancel");
            self.cancel_failed(words.as_str());
            assert(freed.cancel_refused(
                *self,
                crate::app::unserved_words("account.login.cancel"@),
            ));
        }
    }

    /// Where the sign-in is to be continued.
    pub open spec fn login_url(value: JsonView) -> Option<Seq<char>> {
        match value.member("authUrl"@) {
            Some(url) => url.text(),
            None => value.member_text("verificationUrl"@),
        }
    }

    /// A sign-in started while its dialog was open.
    pub open spec fn login_shown(&self, after: App, dialog: AccountDialog, value: JsonView) -> bool {
        let url = App::login_url(value);
        &&& after.overlay matches Some(Overlay::Account(now))
        &&& said(now.login_id) == value.member_text("loginId"@)
        &&& said(now.url) == url
        &&& said(now.code) == value.member_text("userCode"@)
        &&& *now == (AccountDialog {
            pending: true,
            login_id: now.login_id,
            url: now.url,
            code: now.code,
            error: None,
            ..dialog
        })
        &&& if url is Some && begins(url->0, "https://"@) {
            said(after.open_url_pending) == url
        } else {
            after.open_url_pending == self.open_url_pending
        }
        &&& after == (App {
            overlay: after.overlay,
            open_url_pending: after.open_url_pending,
            ..*self
        })
    }

    fn show_login(&mut self, dialog: AccountDialog, value: &Json)
        requires
            old(self).wf(),
        ensures
            final(self).wf(),
            old(self).login_shown(*final(self), dialog, value@),
    {
        let mut dialog = dialog;
        dialog.pending = true;
        dialog.login_id = match value.get_str("loginId") {
            Some(id) => Some(id.to_owned()),
            None => None,
        };
        dialog.url = match value.get("authUrl") {
            Some(url) => match url.as_str() {
                Some(url) => Some(url.to_owned()),
                None => None,
            },
            None => match value.get_str("verificationUrl") {
                Some(url) => Some(url.to_owned()),
                None => None,
            },
        };
        dialog.code = match value.get_str("userCode") {
            Some(code) => Some(code.to_owned()),
            None => None,
        };
        dialog.error = None;
        if let Some(url) = &dialog.url {
            if starts_with(url.as_str(), "https://") {
                self.open_url_pending = Some(url.clone());
            }
        }
        self.overlay = Some(Overlay::Account(Box::new(dialog)));
    }

    /// A sign-in was answered.
    pub open spec fn login_answered(&self, after: App, result: Result<Json, Failure>) -> bool {
        match self.overlay {
            Some(Overlay::Account(dialog)) => match result {
                Ok(value) => exists|shown: App|
                    #[trigger] self.login_shown(shown, *dialog, value@)
                        && shown.account_stale().polled(after),
                Err(failure) => {
                    &&& after.overlay matches Some(Overlay::Account(now))
                    &&& said(now.error) == Some(failure.words())
                    &&& *now == (AccountDialog { pending: false, error: now.error, ..*dialog })
                    &&& after == (App { overlay: after.overlay, ..*self })
                },
            },
            // The dialog was closed before the login had an id. Once it has one it is cancelled,
            // rather than left alive where nobody sees it.
            _ => match result {
                Ok(value) => match value@.member_text("loginId"@) {
                    Some(login_id) => self.cancelled(after, login_id),
                    None => after == *self,
                },
                Err(_) => after == *self,
            },
        }
    }

    pub fn account_login_answered(&mut self, result: Result<Json, Failure>)
        requires
            old(self).wf(),
        ensures
            final(self).wf(),
            old(self).login_answered(*final(self), result),
    {
        let ghost start = *self;
        if !matches!(self.overlay, Some(Overlay::Account(_))) {
            if let Ok(value) = result {
                if let Some(login_id) = value.get_str("loginId") {
                    self.cancel_login(login_id);
                }
            }
            return;
        }
        let mut overlay: Option<Overlay> = None;
        std::mem::swap(&mut self.overlay, &mut overlay);
        if let Some(Overlay::Account(dialog)) = overlay {
            let mut dialog = *dialog;
            match result {
                Ok(value) => {
                    let ghost held = dialog;
                    self.show_login(dialog, &value);
                    let ghost shown = *self;
                    assert(start.login_shown(shown, held, value@));
                    self.reread_account();
                },
                Err(failure) => {
                    dialog.pending = false;
                    dialog.error = Some(failure.error.message());
                    self.overlay = Some(Overlay::Account(Box::new(dialog)));
                },
            }
        }
    }
}

// ----- replies ----------------------------------------------------------------------

/// What the runtime says became of a turn.
#[derive(Debug, Clone, Copy, PartialEq, Eq, Structural)]
pub enum TurnReply {
    Accepted,
    OutcomeUnknown,
    Rejected,
}

/// An id that more than one machine reports, and those machines.
#[derive(Debug)]
pub struct Conflict {
    pub id: String,
    pub owners: Vec<String>,
}

/// A reply, read.
#[derive(Debug)]
pub enum Reply {
    Account(AccountState),
    Status(crate::cluster::RuntimeStatus),
    Providers(Vec<ProviderEntry>),
    Sessions { sessions: Vec<SessionInfo>, conflicts: Vec<Conflict> },
    Replay(crate::stream::Replay),
    /// A turn: what became of it, whether the session was busy, and the reply in words.
    Turn { reply: TurnReply, busy: bool, diagnostic: String },
    /// A session that started, by its id; or a reference that could not be read, as it was
    /// written.
    Started { id: Option<String>, written: String },
    /// Anything that is shown as it came.
    Plain(Json),
    /// A reply that was not what the method answers.
    Undecoded { reason: String },
}

/// A panel that keeps its value and shows why the answer was none.
pub open spec fn panel_failed<T>(
    before: Loadable<T>,
    after: Loadable<T>,
    words: Seq<char>,
    ticks: u64,
    cadence: u64,
) -> bool {
    said(after.error) == Some(words) && after == before.after_failure(after.error, ticks, cadence)
}

fn fail<T>(panel: &mut Loadable<T>, words: String, ticks: u64, cadence: u64)
    requires
        ticks + cadence <= u64::MAX,
    ensures
        panel_failed(*old(panel), *final(panel), words@, ticks, cadence),
{
    panel.failed(words, ticks, cadence);
}

pub open spec fn undecoded_words(method: Seq<char>, reason: Seq<char>) -> Seq<char> {
    method + " did not decode: "@ + reason
}

// ----- panels -----------------------------------------------------------------------

/// The list of an explorer was answered.
pub open spec fn rows_filled(before: Explorer, after: Explorer, listing: Listing, value: JsonView, ticks: u64) -> bool {
    exists|rows: Vec<Row>|
        {
            &&& #[trigger] are_rows(rows@, listing, listed_values(value))
            &&& after == (Explorer {
                rows: before.rows.after_ok(rows, ticks, LIST_TICKS),
                selected: if before.selected < rows@.len() {
                    before.selected
                } else if rows@.len() == 0 {
                    0
                } else {
                    (rows@.len() - 1) as usize
                },
                ..before
            })
        }
}

fn fill_rows(explorer: &mut Explorer, listing: Listing, value: Json, ticks: u64)
    requires
        ticks + LIST_TICKS <= u64::MAX,
    ensures
        rows_filled(*old(explorer), *final(explorer), listing, value@, ticks),
{
    let rows = rows_of(listing, value);
    assert(are_rows(rows@, listing, listed_values(value@)));
    explorer.fill_rows(rows, ticks);
}

fn fill_detail(explorer: &mut Explorer, value: Json, ticks: u64)
    requires
        ticks + DETAIL_TICKS <= u64::MAX,
    ensures
        *final(explorer) == (Explorer {
            detail: old(explorer).detail.after_ok(value, ticks, DETAIL_TICKS),
            ..*old(explorer)
        }),
{
    explorer.detail.ok(value, ticks, DETAIL_TICKS);
}

impl App {
    /// A panel was answered with a value.
    pub open spec fn panel_filled(&self, after: App, tag: Tag, value: Json) -> bool {
        let t = self.ticks;
        match tag {
            Tag::Models => after == (App {
                models: self.models.after_ok(value, t, MODEL_TICKS),
                ..*self
            }),
            Tag::Agents => rows_filled(self.agents, after.agents, Listing::Agents, value@, t)
                && after == (App { agents: after.agents, ..*self }),
            Tag::Teams => rows_filled(self.teams, after.teams, Listing::Teams, value@, t) && after
                == (App { teams: after.teams, ..*self }),
            Tag::Plans => rows_filled(self.plans, after.plans, Listing::Plans, value@, t) && after
                == (App { plans: after.plans, ..*self }),
            Tag::ControlRuns => rows_filled(self.control, after.control, Listing::Runs, value@, t)
                && after == (App { control: after.control, ..*self }),
            Tag::AgentState { .. } => after == (App {
                agents: Explorer {
                    detail: self.agents.detail.after_ok(value, t, DETAIL_TICKS),
                    ..self.agents
                },
                ..*self
            }),
            Tag::TeamState { .. } => after == (App {
                teams: Explorer {
                    detail: self.teams.detail.after_ok(value, t, DETAIL_TICKS),
                    ..self.teams
                },
                ..*self
            }),
            Tag::Plan { .. } => after == (App {
                plans: Explorer {
                    detail: self.plans.detail.after_ok(value, t, DETAIL_TICKS),
                    ..self.plans
                },
                ..*self
            }),
            Tag::ControlRun { .. } => after == (App {
                control: Explorer {
                    detail: self.control.detail.after_ok(value, t, DETAIL_TICKS),
                    ..self.control
                },
                ..*self
            }),
            Tag::UpgradeStatus => after == (App {
                upgrade: UpgradeTab {
                    status: self.upgrade.status.after_ok(value, t, UPGRADE_TICKS),
                    ..self.upgrade
                },
                ..*self
            }),
            Tag::Rollouts => after == (App {
                upgrade: UpgradeTab {
                    rollouts: self.upgrade.rollouts.after_ok(value, t, UPGRADE_TICKS),
                    ..self.upgrade
                },
                ..*self
            }),
            Tag::History { .. } => after == (App {
                upgrade: UpgradeTab {
                    history: self.upgrade.history.after_ok(value, t, UPGRADE_TICKS),
                    ..self.upgrade
                },
                ..*self
            }),
            Tag::Signing => after == (App {
                upgrade: UpgradeTab {
                    signing: self.upgrade.signing.after_ok(value, t, UPGRADE_TICKS),
                    ..self.upgrade
                },
                ..*self
            }),
            Tag::Grants { .. } => after == (App {
                upgrade: UpgradeTab {
                    grants: self.upgrade.grants.after_ok(value, t, UPGRADE_TICKS),
                    ..self.upgrade
                },
                ..*self
            }),
            _ => after == *self,
        }
    }

    #[verifier::rlimit(60)]
    pub(crate) fn fill_panel(&mut self, tag: &Tag, value: Json)
        requires
            old(self).wf(),
        ensures
            final(self).wf(),
            old(self).panel_filled(*final(self), *tag, value),
    {
        let t: u64 = self.ticks;
        match tag {
            Tag::Models => self.models.ok(value, t, MODEL_TICKS),
            Tag::Agents => fill_rows(&mut self.agents, Listing::Agents, value, t),
            Tag::Teams => fill_rows(&mut self.teams, Listing::Teams, value, t),
            Tag::Plans => fill_rows(&mut self.plans, Listing::Plans, value, t),
            Tag::ControlRuns => fill_rows(&mut self.control, Listing::Runs, value, t),
            Tag::AgentState { .. } => fill_detail(&mut self.agents, value, t),
            Tag::TeamState { .. } => fill_detail(&mut self.teams, value, t),
            Tag::Plan { .. } => fill_detail(&mut self.plans, value, t),
            Tag::ControlRun { .. } => fill_detail(&mut self.control, value, t),
            Tag::UpgradeStatus => self.upgrade.status.ok(value, t, UPGRADE_TICKS),
            Tag::Rollouts => self.upgrade.rollouts.ok(value, t, UPGRADE_TICKS),
            Tag::History { .. } => self.upgrade.history.ok(value, t, UPGRADE_TICKS),
            Tag::Signing => self.upgrade.signing.ok(value, t, UPGRADE_TICKS),
            Tag::Grants { .. } => self.upgrade.grants.ok(value, t, UPGRADE_TICKS),
            _ => {},
        }
    }

    /// A panel keeps what it has, and shows why the answer was none.
    pub open spec fn panel_refused(&self, after: App, tag: Tag, words: Seq<char>) -> bool {
        let t = self.ticks;
        match tag {
            Tag::Account => panel_failed(self.account, after.account, words, t, ACCOUNT_TICKS)
                && after == (App { account: after.account, ..*self }),
            Tag::Status => panel_failed(self.status, after.status, words, t, STATUS_TICKS) && after
                == (App { status: after.status, ..*self }),
            Tag::Providers => panel_failed(
                self.providers,
                after.providers,
                words,
                t,
                PROVIDER_TICKS,
            ) && after == (App { providers: after.providers, ..*self }),
            Tag::Models => panel_failed(self.models, after.models, words, t, MODEL_TICKS) && after
                == (App { models: after.models, ..*self }),
            Tag::Sessions { plane } => match plane {
                Plane::Interactive => {
                    &&& panel_failed(
                        self.sessions.interactive,
                        after.sessions.interactive,
                        words,
                        t,
                        LIST_TICKS,
                    )
                    &&& after == (App {
                        sessions: crate::sessions::SessionsTab {
                            interactive: after.sessions.interactive,
                            ..self.sessions
                        },
                        ..*self
                    })
                },
                Plane::Coding => {
                    &&& panel_failed(
                        self.sessions.coding,
                        after.sessions.coding,
                        words,
                        t,
                        LIST_TICKS,
                    )
                    &&& after == (App {
                        sessions: crate::sessions::SessionsTab {
                            coding: after.sessions.coding,
                            ..self.sessions
                        },
                        ..*self
                    })
                },
            },
            Tag::Agents
            | Tag::Teams
            | Tag::Plans
            | Tag::ControlRuns
            | Tag::AgentState { .. }
            | Tag::TeamState { .. }
            | Tag::Plan { .. }
            | Tag::ControlRun { .. } => self.explorer_refused(after, tag, words),
            Tag::UpgradeStatus
            | Tag::Rollouts
            | Tag::History { .. }
            | Tag::Signing
            | Tag::Grants { .. } => self.upgrade_refused(after, tag, words),
            _ => after == *self,
        }
    }

    pub open spec fn explorer_refused(&self, after: App, tag: Tag, words: Seq<char>) -> bool {
        let t = self.ticks;
        match tag {
            Tag::Agents => rows_refused(self.agents, after.agents, words, t) && after == (App {
                agents: after.agents,
                ..*self
            }),
            Tag::Teams => rows_refused(self.teams, after.teams, words, t) && after == (App {
                teams: after.teams,
                ..*self
            }),
            Tag::Plans => rows_refused(self.plans, after.plans, words, t) && after == (App {
                plans: after.plans,
                ..*self
            }),
            Tag::ControlRuns => rows_refused(self.control, after.control, words, t) && after == (
            App { control: after.control, ..*self }),
            Tag::AgentState { .. } => detail_refused(self.agents, after.agents, words, t) && after
                == (App { agents: after.agents, ..*self }),
            Tag::TeamState { .. } => detail_refused(self.teams, after.teams, words, t) && after == (
            App { teams: after.teams, ..*self }),
            Tag::Plan { .. } => detail_refused(self.plans, after.plans, words, t) && after == (App {
                plans: after.plans,
                ..*self
            }),
            Tag::ControlRun { .. } => detail_refused(self.control, after.control, words, t)
                && after == (App { control: after.control, ..*self }),
            _ => after == *self,
        }
    }

    pub open spec fn upgrade_refused(&self, after: App, tag: Tag, words: Seq<char>) -> bool {
        let t = self.ticks;
        match tag {
            Tag::UpgradeStatus => panel_failed(
                self.upgrade.status,
                after.upgrade.status,
                words,
                t,
                UPGRADE_TICKS,
            ) && after == (App {
                upgrade: UpgradeTab { status: after.upgrade.status, ..self.upgrade },
                ..*self
            }),
            Tag::Rollouts => panel_failed(
                self.upgrade.rollouts,
                after.upgrade.rollouts,
                words,
                t,
                UPGRADE_TICKS,
            ) && after == (App {
                upgrade: UpgradeTab { rollouts: after.upgrade.rollouts, ..self.upgrade },
                ..*self
            }),
            Tag::History { .. } => panel_failed(
                self.upgrade.history,
                after.upgrade.history,
                words,
                t,
                UPGRADE_TICKS,
            ) && after == (App {
                upgrade: UpgradeTab { history: after.upgrade.history, ..self.upgrade },
                ..*self
            }),
            Tag::Signing => panel_failed(
                self.upgrade.signing,
                after.upgrade.signing,
                words,
                t,
                UPGRADE_TICKS,
            ) && after == (App {
                upgrade: UpgradeTab { signing: after.upgrade.signing, ..self.upgrade },
                ..*self
            }),
            Tag::Grants { .. } => panel_failed(
                self.upgrade.grants,
                after.upgrade.grants,
                words,
                t,
                UPGRADE_TICKS,
            ) && after == (App {
                upgrade: UpgradeTab { grants: after.upgrade.grants, ..self.upgrade },
                ..*self
            }),
            _ => after == *self,
        }
    }

    fn refuse_explorer(&mut self, tag: &Tag, words: String)
        requires
            old(self).wf(),
            of_explorer(*tag),
        ensures
            final(self).wf(),
            old(self).explorer_refused(*final(self), *tag, words@),
    {
        let t: u64 = self.ticks;
        match tag {
            Tag::Agents => fail(&mut self.agents.rows, words, t, LIST_TICKS),
            Tag::Teams => fail(&mut self.teams.rows, words, t, LIST_TICKS),
            Tag::Plans => fail(&mut self.plans.rows, words, t, LIST_TICKS),
            Tag::ControlRuns => fail(&mut self.control.rows, words, t, LIST_TICKS),
            Tag::AgentState { .. } => fail(&mut self.agents.detail, words, t, DETAIL_TICKS),
            Tag::TeamState { .. } => fail(&mut self.teams.detail, words, t, DETAIL_TICKS),
            Tag::Plan { .. } => fail(&mut self.plans.detail, words, t, DETAIL_TICKS),
            _ => fail(&mut self.control.detail, words, t, DETAIL_TICKS),
        }
    }

    fn refuse_upgrade(&mut self, tag: &Tag, words: String)
        requires
            old(self).wf(),
            of_upgrade(*tag),
        ensures
            final(self).wf(),
            old(self).upgrade_refused(*final(self), *tag, words@),
    {
        let t: u64 = self.ticks;
        match tag {
            Tag::UpgradeStatus => fail(&mut self.upgrade.status, words, t, UPGRADE_TICKS),
            Tag::Rollouts => fail(&mut self.upgrade.rollouts, words, t, UPGRADE_TICKS),
            Tag::History { .. } => fail(&mut self.upgrade.history, words, t, UPGRADE_TICKS),
            Tag::Signing => fail(&mut self.upgrade.signing, words, t, UPGRADE_TICKS),
            _ => fail(&mut self.upgrade.grants, words, t, UPGRADE_TICKS),
        }
    }

    pub(crate) fn refuse_panel(&mut self, tag: &Tag, words: String)
        requires
            old(self).wf(),
        ensures
            final(self).wf(),
            old(self).panel_refused(*final(self), *tag, words@),
    {
        let t: u64 = self.ticks;
        match tag {
            Tag::Account => fail(&mut self.account, words, t, ACCOUNT_TICKS),
            Tag::Status => fail(&mut self.status, words, t, STATUS_TICKS),
            Tag::Providers => fail(&mut self.providers, words, t, PROVIDER_TICKS),
            Tag::Models => fail(&mut self.models, words, t, MODEL_TICKS),
            Tag::Sessions { plane } => match *plane {
                Plane::Interactive => fail(&mut self.sessions.interactive, words, t, LIST_TICKS),
                Plane::Coding => fail(&mut self.sessions.coding, words, t, LIST_TICKS),
            },
            Tag::Agents
            | Tag::Teams
            | Tag::Plans
            | Tag::ControlRuns
            | Tag::AgentState { .. }
            | Tag::TeamState { .. }
            | Tag::Plan { .. }
            | Tag::ControlRun { .. } => self.refuse_explorer(tag, words),
            Tag::UpgradeStatus
            | Tag::Rollouts
            | Tag::History { .. }
            | Tag::Signing
            | Tag::Grants { .. } => self.refuse_upgrade(tag, words),
            _ => {},
        }
    }
}

pub open spec fn of_explorer(tag: Tag) -> bool {
    match tag {
        Tag::Agents
        | Tag::Teams
        | Tag::Plans
        | Tag::ControlRuns
        | Tag::AgentState { .. }
        | Tag::TeamState { .. }
        | Tag::Plan { .. }
        | Tag::ControlRun { .. } => true,
        _ => false,
    }
}

pub open spec fn of_upgrade(tag: Tag) -> bool {
    match tag {
        Tag::UpgradeStatus
        | Tag::Rollouts
        | Tag::History { .. }
        | Tag::Signing
        | Tag::Grants { .. } => true,
        _ => false,
    }
}

pub open spec fn rows_refused(before: Explorer, after: Explorer, words: Seq<char>, ticks: u64) -> bool {
    panel_failed(before.rows, after.rows, words, ticks, LIST_TICKS) && after == (Explorer {
        rows: after.rows,
        ..before
    })
}

pub open spec fn detail_refused(before: Explorer, after: Explorer, words: Seq<char>, ticks: u64) -> bool {
    panel_failed(before.detail, after.detail, words, ticks, DETAIL_TICKS) && after == (Explorer {
        detail: after.detail,
        ..before
    })
}

} // verus!
