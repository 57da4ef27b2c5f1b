//! Starting sessions, and the first message of one.

use vstd::prelude::*;

use crate::app::{App, NoticeKind, Overlay, PendingFirstMessage, Tab};
use crate::forms::{provider_choices, reports, NewSession, ProviderChoice, ProviderEntry, Settings};
use crate::json::JsonView;
use crate::model::Plane;
use crate::sessions::{is_key, key_of, Composer, SessionsTab};
use crate::tags::{plain_call, text_param, Call, CallView, ComposerVerb, Params, Tag, TagView};
use crate::text::{as_deref, cat3, cat5, heard, is_text, said, same, trim, trimmed};

verus! {

/// The composer holds a message again, under the turn it had or under none.
pub open spec fn holding(
    before: Composer,
    after: Composer,
    input: Seq<char>,
    turn_id: Option<Seq<char>>,
    verb: ComposerVerb,
) -> bool {
    &&& after.editor.text@ == input
    &&& !after.editor.completing
    &&& said(after.next_turn_id) == turn_id
    &&& after == (Composer {
        editor: after.editor,
        next_turn_id: after.next_turn_id,
        verb,
        ..before
    })
}

fn hold(composer: Composer, input: &str, turn_id: Option<&str>, verb: ComposerVerb) -> (r: Composer)
    ensures
        holding(composer, r, input@, heard(turn_id), verb),
{
    let mut composer = composer;
    composer.editor.hold(input);
    composer.next_turn_id = match turn_id {
        Some(turn_id) => Some(turn_id.to_owned()),
        None => None,
    };
    composer.verb = verb;
    composer
}

pub open spec fn message_params(id: Seq<char>, input: Seq<char>, turn_id: Seq<char>) -> JsonView {
    JsonView::Object(
        seq![
            text_param("id"@, id),
            text_param("input"@, input),
            text_param("turn_id"@, turn_id),
        ],
    )
}

pub(crate) fn message_request(id: &str, input: &str, turn_id: &str) -> (r: crate::json::Json)
    ensures
        r@ == message_params(id@, input@, turn_id@),
{
    let params = Params::new().text("id", id).text("input", input).text("turn_id", turn_id);
    assert(params@ =~= seq![
        text_param("id"@, id@),
        text_param("input"@, input@),
        text_param("turn_id"@, turn_id@),
    ]);
    params.done()
}

impl App {
    // ----- a first message ------------------------------------------------------------

    pub open spec fn first_call(plane: Plane, id: Seq<char>, message: PendingFirstMessage) -> CallView {
        plain_call(
            TagView::FirstMessage {
                plane,
                id,
                turn_id: message.turn_id@,
                input: message.input@,
                submission_sequence: 0,
            },
            plane.method_of("send_message"@),
            message_params(id, message.input@, message.turn_id@),
        )
    }

    /// The first message arrived: the composer takes follow-ups now, and lets go of the text unless
    /// it was changed since.
    pub open spec fn first_accepted(
        &self,
        after: App,
        plane: Plane,
        id: Seq<char>,
        turn_id: Seq<char>,
        input: Seq<char>,
    ) -> bool {
        match self.sessions.composer {
            Some(composer) => if key_of(self.sessions.open) == Some((plane, id)) && said(
                composer.next_turn_id,
            ) == Some(turn_id) {
                &&& after.sessions.composer is Some
                &&& ({
                    let now = after.sessions.composer->0;
                    &&& if trimmed(composer.editor.text@) == trimmed(input) {
                        now.editor.blank() && !now.editor.completing
                    } else {
                        now.editor == composer.editor
                    }
                    &&& now == (Composer {
                        editor: now.editor,
                        next_turn_id: None,
                        verb: ComposerVerb::FollowUp,
                        ..composer
                    })
                })
                &&& after == (App {
                    sessions: SessionsTab {
                        composer: after.sessions.composer,
                        ..self.sessions
                    },
                    ..*self
                })
            } else {
                after == *self
            },
            None => after == *self,
        }
    }

    pub fn accept_first_message(&mut self, plane: Plane, id: &str, turn_id: &str, input: &str)
        requires
            old(self).wf(),
        ensures
            final(self).wf(),
            old(self).first_accepted(*final(self), plane, id@, turn_id@, input@),
    {
        if !is_key(&self.sessions.open, plane, id) {
            return;
        }
        let ours = match &self.sessions.composer {
            Some(composer) => is_text(&composer.next_turn_id, turn_id),
            None => false,
        };
        if !ours {
            return;
        }
        let mut held: Option<Composer> = None;
        std::mem::swap(&mut self.sessions.composer, &mut held);
        if let Some(composer) = held {
            let mut composer = composer;
            if same(trim(composer.editor.text.as_str()).as_str(), trim(input).as_str()) {
                composer.editor.clear();
            }
            composer.next_turn_id = None;
            composer.verb = ComposerVerb::FollowUp;
            self.sessions.composer = Some(composer);
        }
    }

    /// The composer of the open session after a message came back that was sent as the turn `was`.
    /// It goes into an empty composer, or into one that still holds that turn; a newer draft stays.
    /// It goes out again under `turn_id`, or under a turn of its own where there is none.
    pub open spec fn put_back(
        before: Option<Composer>,
        after: Option<Composer>,
        input: Seq<char>,
        was: Seq<char>,
        turn_id: Option<Seq<char>>,
        verb: ComposerVerb,
    ) -> bool {
        match before {
            Some(composer) => if composer.editor.blank() || said(composer.next_turn_id) == Some(was) {
                after is Some && holding(composer, after->0, input, turn_id, verb)
            } else {
                after == before
            },
            None => {
                &&& after is Some
                &&& after->0.editor.text@ == input && !after->0.editor.completing
                &&& said(after->0.next_turn_id) == turn_id
                &&& after->0.verb == verb
                &&& after->0.generation == 0 && after->0.reconciliation_owner is None
            },
        }
    }

    fn put_message_back(
        &mut self,
        input: &str,
        was: &str,
        turn_id: Option<&str>,
        verb: ComposerVerb,
    )
        requires
            old(self).wf(),
        ensures
            final(self).wf(),
            App::put_back(
                old(self).sessions.composer,
                final(self).sessions.composer,
                input@,
                was@,
                heard(turn_id),
                verb,
            ),
            *final(self) == (App {
                sessions: SessionsTab {
                    composer: final(self).sessions.composer,
                    ..old(self).sessions
                },
                ..*old(self)
            }),
    {
        let mut held: Option<Composer> = None;
        std::mem::swap(&mut self.sessions.composer, &mut held);
        self.sessions.composer = Some(
            match held {
                Some(composer) => {
                    let ours = is_text(&composer.next_turn_id, was);
                    if composer.editor.text.as_str().is_empty() || ours {
                        hold(composer, input, turn_id, verb)
                    } else {
                        composer
                    }
                },
                None => hold(Composer::new(verb), input, turn_id, verb),
            },
        );
    }

    /// A message came back: its session is open, and its composer holds it as far as it can.
    pub open spec fn message_restored(
        &self,
        after: App,
        plane: Plane,
        id: Seq<char>,
        input: Seq<char>,
        was: Seq<char>,
        turn_id: Option<Seq<char>>,
        verb: ComposerVerb,
    ) -> bool {
        exists|there: App|
            {
                &&& if key_of(self.sessions.open) == Some((plane, id)) {
                    there == *self
                } else {
                    self.session_opened(there, plane, id)
                }
                &&& #[trigger] there.draft_put_back(after, plane, input, was, turn_id, verb)
            }
    }

    pub open spec fn draft_put_back(
        &self,
        after: App,
        plane: Plane,
        input: Seq<char>,
        was: Seq<char>,
        turn_id: Option<Seq<char>>,
        verb: ComposerVerb,
    ) -> bool {
        if plane == Plane::Interactive {
            &&& App::put_back(
                self.sessions.composer,
                after.sessions.composer,
                input,
                was,
                turn_id,
                verb,
            )
            &&& after == (App {
                sessions: SessionsTab { composer: after.sessions.composer, ..self.sessions },
                ..*self
            })
        } else {
            after == *self
        }
    }

    pub fn restore_message(
        &mut self,
        plane: Plane,
        id: &str,
        input: &str,
        was: &str,
        turn_id: Option<&str>,
        verb: ComposerVerb,
    )
        requires
            old(self).wf(),
        ensures
            final(self).wf(),
            old(self).message_restored(
                *final(self),
                plane,
                id@,
                input@,
                was@,
                heard(turn_id),
                verb,
            ),
    {
        let ghost start = *self;
        if !is_key(&self.sessions.open, plane, id) {
            self.open_session(plane, id);
        }
        let ghost there = *self;
        if plane == Plane::Interactive {
            self.put_message_back(input, was, turn_id, verb);
        }
        assert(there.draft_put_back(*self, plane, input@, was@, heard(turn_id), verb));
    }

    /// A first message nobody can tell the outcome of: the same text, under the same turn.
    pub fn restore_first_message(&mut self, plane: Plane, id: &str, input: &str, turn_id: &str)
        requires
            old(self).wf(),
        ensures
            final(self).wf(),
            old(self).message_restored(
                *final(self),
                plane,
                id@,
                input@,
                turn_id@,
                Some(turn_id@),
                ComposerVerb::Message,
            ),
    {
        self.restore_message(plane, id, input, turn_id, Some(turn_id), ComposerVerb::Message);
    }

    /// A first message that was refused as the turn `was`: the same text, under a turn of its own
    /// when it is sent again.
    pub fn restore_refused_first_message(
        &mut self,
        plane: Plane,
        id: &str,
        input: &str,
        was: &str,
        verb: ComposerVerb,
    )
        requires
            old(self).wf(),
        ensures
            final(self).wf(),
            old(self).message_restored(*final(self), plane, id@, input@, was@, None, verb),
    {
        self.restore_message(plane, id, input, was, None, verb);
    }

    // ----- a session that started -----------------------------------------------------

    /// The home and the dialogs let go of what started.
    pub open spec fn start_cleared(&self, after: App) -> bool {
        &&& after.wf()
        &&& after.home_draft.blank() && !after.home_draft.completing
        &&& after == (App {
            overlay: None,
            home_pending: false,
            home_error: None,
            home_draft: after.home_draft,
            sessions: App::stale_lists(self.sessions),
            ..*self
        })
    }

    fn clear_start(&mut self)
        requires
            old(self).wf(),
        ensures
            old(self).start_cleared(*final(self)),
    {
        self.overlay = None;
        self.home_pending = false;
        self.home_error = None;
        self.home_draft.clear();
        self.sessions.interactive.invalidate();
        self.sessions.coding.invalidate();
    }

    pub open spec fn started_words(plane: Plane, id: Seq<char>) -> Seq<char> {
        "started "@ + id + " on the "@ + plane.word() + " plane"@
    }

    /// The composer a session that started is given.
    pub open spec fn given_composer(
        before: Option<Composer>,
        after: Option<Composer>,
        plane: Plane,
        message: Option<PendingFirstMessage>,
    ) -> bool {
        match message {
            None => if plane == Plane::Interactive {
                after is Some && after->0.is_fresh(ComposerVerb::Message)
            } else {
                after == before
            },
            Some(message) => if plane == Plane::Interactive {
                &&& after is Some
                &&& after->0.verb == ComposerVerb::Message
                &&& after->0.editor.text@ == message.input@ && !after->0.editor.completing
                &&& said(after->0.next_turn_id) == Some(message.turn_id@)
                &&& after->0.generation == 0 && after->0.reconciliation_owner is None
            } else {
                match before {
                    Some(composer) => after is Some && holding(
                        composer,
                        after->0,
                        message.input@,
                        Some(message.turn_id@),
                        composer.verb,
                    ),
                    None => after is None,
                }
            },
        }
    }

    /// The session is open; its first message goes out, or stays in the composer where the gateway
    /// does not serve it.
    pub open spec fn first_sent(&self, after: App, plane: Plane, id: Seq<char>) -> bool {
        let method = plane.method_of("send_message"@);
        &&& after.wf()
        &&& App::given_composer(
            self.sessions.composer,
            after.sessions.composer,
            plane,
            self.first_message,
        )
        &&& match self.first_message {
            None => {
                &&& after.queue == self.queue
                &&& after.sessions.pending_replies == self.sessions.pending_replies
                &&& after.says(App::started_words(plane, id), NoticeKind::Info)
            },
            Some(message) => if self.hello.lists(method) {
                &&& after.queue@ == self.queue@.with(App::first_call(plane, id, message))
                &&& after.sessions.pending_replies@ == self.sessions.pending_replies@.insert(
                    (plane, id),
                )
                &&& after.says(App::started_words(plane, id), NoticeKind::Info)
            } else {
                &&& after.queue == self.queue
                &&& after.sessions.pending_replies == self.sessions.pending_replies
                &&& after.says(
                    id + " started, but this gateway does not serve "@ + method,
                    NoticeKind::Warn,
                )
            },
        }
        &&& after == (App {
            sessions: SessionsTab {
                composer: after.sessions.composer,
                pending_replies: after.sessions.pending_replies,
                ..self.sessions
            },
            queue: after.queue,
            first_message: None,
            notice: after.notice,
            ..*self
        })
    }

    fn give_composer(&mut self, plane: Plane, message: &Option<PendingFirstMessage>)
        requires
            old(self).wf(),
        ensures
            final(self).wf(),
            App::given_composer(
                old(self).sessions.composer,
                final(self).sessions.composer,
                plane,
                *message,
            ),
            *final(self) == (App {
                sessions: SessionsTab {
                    composer: final(self).sessions.composer,
                    ..old(self).sessions
                },
                ..*old(self)
            }),
    {
        if plane == Plane::Interactive {
            self.sessions.composer = Some(Composer::new(ComposerVerb::Message));
        }
        if let Some(message) = message {
            let mut held: Option<Composer> = None;
            std::mem::swap(&mut self.sessions.composer, &mut held);
            self.sessions.composer = match held {
                Some(composer) => {
                    let verb = composer.verb;
                    Some(
                        hold(
                            composer,
                            message.input.as_str(),
                            Some(message.turn_id.as_str()),
                            verb,
                        ),
                    )
                },
                None => None,
            };
        }
    }

    fn send_first(&mut self, plane: Plane, id: &str)
        requires
            old(self).wf(),
        ensures
            old(self).first_sent(*final(self), plane, id@),
    {
        let mut message: Option<PendingFirstMessage> = None;
        std::mem::swap(&mut self.first_message, &mut message);
        self.give_composer(plane, &message);
        if let Some(message) = message {
            let method = plane.method("send_message");
            if !self.hello.serves(method.as_str()) {
                self.inform(
                    cat3(id, " started, but this gateway does not serve ", method.as_str()),
                    NoticeKind::Warn,
                );
                return;
            }
            self.sessions.mark_reply_pending(plane, id);
            let params = message_request(id, message.input.as_str(), message.turn_id.as_str());
            let tag = Tag::FirstMessage {
                plane,
                id: id.to_owned(),
                turn_id: message.turn_id,
                input: message.input,
                submission_sequence: 0,
            };
            self.queue.put(Call::new(tag, method.as_str(), params));
        }
        self.inform(
            cat5("started ", id, " on the ", plane.as_str(), " plane"),
            NoticeKind::Info,
        );
    }

    /// A session this client started: open and watched, with a composer to write to it.
    pub open spec fn session_started(&self, after: App, plane: Plane, id: Seq<char>) -> bool {
        exists|cleared: App, opened: App|
            #[trigger] self.start_cleared(cleared) && cleared.session_opened(opened, plane, id)
                && #[trigger] opened.first_sent(after, plane, id)
    }

    pub fn started(&mut self, plane: Plane, id: &str)
        requires
            old(self).wf(),
        ensures
            final(self).wf(),
            old(self).session_started(*final(self), plane, id@),
    {
        let ghost start = *self;
        self.clear_start();
        let ghost cleared = *self;
        self.open_session(plane, id);
        let ghost opened = *self;
        self.send_first(plane, id);
        assert(start.start_cleared(cleared) && cleared.session_opened(opened, plane, id@)
            && opened.first_sent(*self, plane, id@));
    }

    /// The prompt of the start that asked for this id is held here.
    pub open spec fn holds_prompt_of(&self, asked: Option<Seq<char>>) -> bool {
        self.first_message is Some && asked == Some(self.first_message->0.start.id@)
    }

    /// What becomes of the prompt of a start that failed. Where it is not known whether the start
    /// took effect, the prompt stays with the id it was sent under, so that the next submission
    /// reconciles that session before another is made; the failure of another start does not change
    /// that. Otherwise its session never existed: it must not go to the next session that starts, and
    /// a window gets it back.
    pub open spec fn prompt_kept(&self, after: App, asked: Option<Seq<char>>, unknown: bool) -> bool {
        if self.holds_prompt_of(asked) && unknown {
            &&& after.first_message == Some(
                PendingFirstMessage { start_outcome_unknown: true, ..self.first_message->0 },
            )
            &&& after.desktop_restored_draft == self.desktop_restored_draft
        } else if !self.holds_prompt_of(asked) && self.reconciling() {
            &&& after.first_message == self.first_message
            &&& after.desktop_restored_draft == self.desktop_restored_draft
        } else {
            &&& after.first_message is None
            &&& if self.holds_prompt_of(asked) {
                said(after.desktop_restored_draft) == Some(self.first_message->0.input@)
            } else {
                after.desktop_restored_draft == self.desktop_restored_draft
            }
        }
    }

    /// A start that failed says so where the operator is looking: on the form, on the home, or in a
    /// notice.
    pub open spec fn start_refused(
        &self,
        after: App,
        asked: Option<Seq<char>>,
        unknown: bool,
        words: Seq<char>,
    ) -> bool {
        &&& self.prompt_kept(after, asked, unknown)
        &&& match self.overlay {
            Some(Overlay::New(dialog)) => {
                &&& after.overlay matches Some(Overlay::New(now))
                &&& said(now.error) == Some(words)
                &&& *now == (NewSession { pending: false, error: now.error, ..*dialog })
                &&& after.home_error == self.home_error && after.notice == self.notice
            },
            _ => {
                &&& after.overlay == self.overlay
                &&& if self.tab == Tab::Sessions && self.sessions.open is None {
                    said(after.home_error) == Some(words) && after.notice == self.notice
                } else {
                    after.home_error == self.home_error && after.says(
                        "starting a session failed: "@ + words,
                        NoticeKind::Error,
                    )
                }
            },
        }
        &&& after == (App {
            first_message: after.first_message,
            desktop_restored_draft: after.desktop_restored_draft,
            home_pending: false,
            overlay: after.overlay,
            home_error: after.home_error,
            notice: after.notice,
            ..*self
        })
    }

    fn keep_prompt(&mut self, asked: &Option<String>, unknown: bool)
        requires
            old(self).wf(),
        ensures
            final(self).wf(),
            old(self).prompt_kept(*final(self), said(*asked), unknown),
            *final(self) == (App {
                first_message: final(self).first_message,
                desktop_restored_draft: final(self).desktop_restored_draft,
                ..*old(self)
            }),
    {
        let mut held: Option<PendingFirstMessage> = None;
        std::mem::swap(&mut self.first_message, &mut held);
        if let Some(message) = held {
            let own = match asked {
                Some(asked) => same(asked.as_str(), message.start.id.as_str()),
                None => false,
            };
            if own && unknown {
                self.first_message = Some(
                    PendingFirstMessage { start_outcome_unknown: true, ..message },
                );
            } else if own {
                self.desktop_restored_draft = Some(message.input);
            } else if message.start_outcome_unknown {
                self.first_message = Some(message);
            }
        }
    }

    /// `asked` is the id the start asked for; `unknown` where it may have taken effect all the same.
    pub fn start_failed(&mut self, asked: &Option<String>, unknown: bool, words: String)
        requires
            old(self).wf(),
        ensures
            final(self).wf(),
            old(self).start_refused(*final(self), said(*asked), unknown, words@),
    {
        self.keep_prompt(asked, unknown);
        self.home_pending = false;
        let mut overlay: Option<Overlay> = None;
        std::mem::swap(&mut self.overlay, &mut overlay);
        match overlay {
            Some(Overlay::New(dialog)) => {
                let mut dialog = *dialog;
                dialog.pending = false;
                dialog.error = Some(words);
                self.overlay = Some(Overlay::New(Box::new(dialog)));
            },
            other => {
                self.overlay = other;
                if self.tab == Tab::Sessions && self.sessions.open.is_none() {
                    self.home_error = Some(words);
                } else {
                    self.inform(
                        crate::text::cat2("starting a session failed: ", words.as_str()),
                        NoticeKind::Error,
                    );
                }
            },
        }
    }

    // ----- the default provider -------------------------------------------------------

    pub open spec fn known_providers(&self) -> Seq<ProviderEntry> {
        match self.providers.value {
            Some(list) => list@,
            None => Seq::empty(),
        }
    }

    pub open spec fn not_reported_words(name: Seq<char>) -> Seq<char> {
        "the default provider "@ + crate::text::debug_text(name)
            + " is not one this runtime reports; the list here is what it does serve"@
    }

    /// The form after the stored provider was looked for in the list.
    pub open spec fn form_placed(
        before: NewSession,
        after: NewSession,
        providers: Seq<ProviderEntry>,
    ) -> bool {
        match before.wanted_provider {
            Some(wanted) => if providers.len() == 0 {
                after == before
            } else {
                &&& after == (NewSession {
                    wanted_provider: None,
                    provider: after.provider,
                    ..before
                })
                &&& if reports(providers, wanted@) {
                    &&& after.provider < providers.len()
                    &&& providers[after.provider as int].provider@ == wanted@
                    &&& forall|k: int|
                        0 <= k < after.provider ==> (#[trigger] providers[k]).provider@ != wanted@
                } else {
                    after.provider == before.provider
                }
            },
            None => after == before,
        }
    }

    pub open spec fn form_misses(form: NewSession, providers: Seq<ProviderEntry>) -> bool {
        form.wanted_provider is Some && providers.len() > 0 && !reports(
            providers,
            form.wanted_provider->0@,
        )
    }

    /// Whichever picker is open points at the provider the preferences name, once the list is
    /// there.
    pub open spec fn provider_placed(&self, after: App) -> bool {
        let providers = self.known_providers();
        match self.overlay {
            Some(Overlay::New(form)) => {
                &&& after.overlay matches Some(Overlay::New(now))
                &&& App::form_placed(*form, *now, providers)
                &&& if App::form_misses(*form, providers) {
                    after.says(
                        App::not_reported_words(form.wanted_provider->0@),
                        NoticeKind::Warn,
                    )
                } else {
                    after.notice == self.notice
                }
                &&& after == (App { overlay: after.overlay, notice: after.notice, ..*self })
            },
            Some(Overlay::Settings(settings)) => {
                &&& after.overlay matches Some(Overlay::Settings(now))
                &&& exists|rows: Seq<ProviderChoice>|
                    #[trigger] crate::forms::are_provider_rows(
                        rows,
                        providers,
                        said(self.config.provider),
                    ) && App::settings_placed(*settings, *now, rows)
                &&& after == (App { overlay: after.overlay, ..*self })
            },
            _ => after == *self,
        }
    }

    pub open spec fn settings_placed(
        before: Settings,
        after: Settings,
        rows: Seq<ProviderChoice>,
    ) -> bool {
        if before.wanted_provider is None || rows.len() < 2 {
            after == before
        } else {
            let wanted = before.wanted_provider->0@;
            &&& after == (Settings {
                wanted_provider: None,
                provider: after.provider,
                ..before
            })
            &&& if exists|i: int|
                0 <= i < rows.len() && (#[trigger] rows[i]).stored() == Some(wanted) {
                &&& after.provider < rows.len()
                &&& rows[after.provider as int].stored() == Some(wanted)
                &&& forall|k: int|
                    0 <= k < after.provider ==> (#[trigger] rows[k]).stored() != Some(wanted)
            } else {
                after.provider == before.provider
            }
        }
    }

    pub fn place_default_provider(&mut self)
        requires
            old(self).wf(),
        ensures
            final(self).wf(),
            old(self).provider_placed(*final(self)),
    {
        let nobody: Vec<ProviderEntry> = Vec::new();
        let mut overlay: Option<Overlay> = None;
        std::mem::swap(&mut self.overlay, &mut overlay);
        match overlay {
            Some(Overlay::New(form)) => {
                let mut form = *form;
                let missing = match &self.providers.value {
                    Some(list) => form.place_provider(list),
                    None => form.place_provider(&nobody),
                };
                self.overlay = Some(Overlay::New(Box::new(form)));
                if let Some(name) = missing {
                    self.inform(
                        cat3(
                            "the default provider ",
                            crate::text::debug(name.as_str()).as_str(),
                            " is not one this runtime reports; the list here is what it does serve",
                        ),
                        NoticeKind::Warn,
                    );
                }
            },
            Some(Overlay::Settings(settings)) => {
                let mut settings = *settings;
                let rows = match &self.providers.value {
                    Some(list) => provider_choices(list, as_deref(&self.config.provider)),
                    None => provider_choices(&nobody, as_deref(&self.config.provider)),
                };
                settings.place_provider(&rows);
                assert(crate::forms::are_provider_rows(
                    rows@,
                    old(self).known_providers(),
                    said(old(self).config.provider),
                ));
                self.overlay = Some(Overlay::Settings(Box::new(settings)));
            },
            other => {
                self.overlay = other;
            },
        }
    }
}

// ----- laws -------------------------------------------------------------------------

/// A start whose outcome is not known is never forgotten: the prompt, its id and its turn are kept
/// as they were, and the home asks for that same session before it takes another prompt.
pub proof fn lemma_an_unknown_outcome_is_kept(
    before: App,
    after: App,
    asked: Seq<char>,
    words: Seq<char>,
)
    requires
        before.holds_prompt_of(Some(asked)),
        before.start_refused(after, Some(asked), true, words),
    ensures
        after.reconciling(),
        after.first_message->0.start == before.first_message->0.start,
        after.first_message->0.turn_id == before.first_message->0.turn_id,
        after.first_message->0.input == before.first_message->0.input,
{
}

/// A refused prompt does not go to another session: nothing is held for the next one that starts, but
/// a prompt whose own start is still to be reconciled.
pub proof fn lemma_a_refused_prompt_is_let_go(
    before: App,
    after: App,
    asked: Option<Seq<char>>,
    words: Seq<char>,
)
    requires
        before.start_refused(after, asked, false, words),
    ensures
        after.first_message is Some ==> after.reconciling() && after.first_message
            == before.first_message && !before.holds_prompt_of(asked),
        before.holds_prompt_of(asked) ==> said(after.desktop_restored_draft) == Some(
            before.first_message->0.input@,
        ),
{
}

/// A turn that was refused is over: the message it carried never goes out under its id again.
pub proof fn lemma_a_refused_turn_is_not_repeated(
    before: Option<Composer>,
    after: Option<Composer>,
    input: Seq<char>,
    was: Seq<char>,
    verb: ComposerVerb,
)
    requires
        App::put_back(before, after, input, was, None, verb),
    ensures
        after is Some,
        said(after->0.next_turn_id) != Some(was),
{
}

} // verus!
