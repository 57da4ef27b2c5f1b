//! Which answer does what.

use vstd::prelude::*;

use crate::answers::{failed_words, undecoded_words, Conflict, Failure, Reply, TurnReply};
use crate::app::{App, Errand, NoticeKind, Restore, PROVIDER_TICKS, STATUS_TICKS};
use crate::explorer::LIST_TICKS;
use crate::forms::ProviderEntry;
use crate::model::{Plane, SessionInfo};
use crate::sessions::{but_for_turn, SessionsTab};
use crate::tags::{ComposerVerb, Tag};
use crate::text::{cat2, cat3, cat5, join, joined, said, same, texts};
use crate::wire::ClientError;

verus! {

impl App {
    /// Only the notice changed.
    pub open spec fn noticed(&self, after: App, words: Seq<char>, kind: NoticeKind) -> bool {
        after.says(words, kind) && after == (App { notice: after.notice, ..*self })
    }

    /// Only an errand was added.
    pub open spec fn handed(&self, after: App, errand: Errand) -> bool {
        after.errands@ == self.errands@.push(errand) && after == (App {
            errands: after.errands,
            ..*self
        })
    }

    pub(crate) fn hand(&mut self, errand: Errand)
        ensures
            old(self).handed(*final(self), errand),
    {
        self.errands.push(errand);
    }

    // ----- lists ----------------------------------------------------------------------

    pub open spec fn conflict_words(conflict: Conflict) -> Seq<char> {
        "session ID "@ + conflict.id@ + " is reported by "@ + joined(
            texts(conflict.owners@),
            " and "@,
        )
            + "; Ouroboros will not open or route it. Explicit IDs must be fleet-unique (generated IDs already are); stop or restart one duplicate with a unique ID, then reconnect this TUI"@
    }

    pub open spec fn conflicted(plane: Plane, conflicts: Seq<Conflict>) -> Set<(Plane, Seq<char>)> {
        Set::new(
            |key: (Plane, Seq<char>)|
                exists|i: int|
                    0 <= i < conflicts.len() && key == (plane, (#[trigger] conflicts[i]).id@),
        )
    }

    /// Ids that several machines report are neither opened nor taken up again, and the last of
    /// them is said.
    pub open spec fn conflicts_noted(&self, after: App, plane: Plane, conflicts: Seq<Conflict>) -> bool {
        &&& after.wf()
        &&& after.cursors@ == self.cursors@.remove_keys(App::conflicted(plane, conflicts))
        &&& if conflicts.len() == 0 {
            after.notice == self.notice
        } else {
            after.says(App::conflict_words(conflicts.last()), NoticeKind::Error)
        }
        &&& after == (App { cursors: after.cursors, notice: after.notice, ..*self })
    }

    fn note_conflicts(&mut self, plane: Plane, conflicts: &Vec<Conflict>)
        requires
            old(self).wf(),
        ensures
            old(self).conflicts_noted(*final(self), plane, conflicts@),
    {
        let ghost start = *self;
        let mut i: usize = 0;
        assert(start.cursors@.remove_keys(App::conflicted(plane, conflicts@.take(0)))
            =~= start.cursors@);
        while i < conflicts.len()
            invariant
                i <= conflicts@.len(),
                start.wf(),
                start.conflicts_noted(*self, plane, conflicts@.take(i as int)),
            decreases conflicts@.len() - i,
        {
            let conflict = &conflicts[i];
            let ghost before = *self;
            self.cursors.forget(plane, conflict.id.as_str());
            let owners = join(&conflict.owners, " and ");
            self.inform(
                cat5(
                    "session ID ",
                    conflict.id.as_str(),
                    " is reported by ",
                    owners.as_str(),
                    "; Ouroboros will not open or route it. Explicit IDs must be fleet-unique (generated IDs already are); stop or restart one duplicate with a unique ID, then reconnect this TUI",
                ),
                NoticeKind::Error,
            );
            proof {
                let was = App::conflicted(plane, conflicts@.take(i as int));
                let now = App::conflicted(plane, conflicts@.take(i + 1));
                assert(now =~= was.insert((plane, conflict.id@))) by {
                    assert forall|key: (Plane, Seq<char>)| now.contains(key) <==> was.contains(key)
                        || key == (plane, conflict.id@) by {
                        let head = conflicts@.take(i as int);
                        let more = conflicts@.take(i + 1);
                        if now.contains(key) {
                            let k = choose|k: int|
                                0 <= k < more.len() && key == (plane, (#[trigger] more[k]).id@);
                            if k < i {
                                assert(head[k] == more[k]);
                            }
                        }
                        if was.contains(key) {
                            let k = choose|k: int|
                                0 <= k < head.len() && key == (plane, (#[trigger] head[k]).id@);
                            assert(more[k] == head[k]);
                        }
                        if key == (plane, conflict.id@) {
                            assert(more[i as int].id@ == conflict.id@);
                        }
                    }
                }
                assert(self.cursors@ =~= start.cursors@.remove_keys(now));
                assert(conflicts@.take(i + 1).last() == conflict);
            }
            i += 1;
        }
        assert(conflicts@.take(i as int) =~= conflicts@);
    }

    /// A session list was answered.
    pub open spec fn sessions_listed(
        &self,
        after: App,
        plane: Plane,
        sessions: Vec<SessionInfo>,
        conflicts: Seq<Conflict>,
    ) -> bool {
        exists|noted: App|
            {
                &&& #[trigger] self.conflicts_noted(noted, plane, conflicts)
                &&& after == (App {
                    sessions: match plane {
                        Plane::Interactive => SessionsTab {
                            interactive: noted.sessions.interactive.after_ok(
                                sessions,
                                noted.ticks,
                                LIST_TICKS,
                            ),
                            ..noted.sessions
                        },
                        Plane::Coding => SessionsTab {
                            coding: noted.sessions.coding.after_ok(
                                sessions,
                                noted.ticks,
                                LIST_TICKS,
                            ),
                            ..noted.sessions
                        },
                    },
                    ..noted
                })
            }
    }

    fn list_sessions(&mut self, plane: Plane, sessions: Vec<SessionInfo>, conflicts: &Vec<Conflict>)
        requires
            old(self).wf(),
        ensures
            final(self).wf(),
            old(self).sessions_listed(*final(self), plane, sessions, conflicts@),
    {
        let ghost start = *self;
        self.note_conflicts(plane, conflicts);
        let ghost noted = *self;
        let t: u64 = self.ticks;
        match plane {
            Plane::Interactive => self.sessions.interactive.ok(sessions, t, LIST_TICKS),
            Plane::Coding => self.sessions.coding.ok(sessions, t, LIST_TICKS),
        }
        assert(start.conflicts_noted(noted, plane, conflicts@));
    }

    /// The provider list was answered; a form that waited for it can point at its default now.
    pub open spec fn providers_listed(&self, after: App, list: Vec<ProviderEntry>) -> bool {
        (App {
            providers: self.providers.after_ok(list, self.ticks, PROVIDER_TICKS),
            ..*self
        }).provider_placed(after)
    }

    fn list_providers(&mut self, list: Vec<ProviderEntry>)
        requires
            old(self).wf(),
        ensures
            final(self).wf(),
            old(self).providers_listed(*final(self), list),
    {
        let t: u64 = self.ticks;
        self.providers.ok(list, t, PROVIDER_TICKS);
        self.place_default_provider();
    }

    /// A panel was answered.
    pub open spec fn panel_answered(&self, after: App, tag: Tag, reply: Reply) -> bool {
        match (tag, reply) {
            (Tag::Account, Reply::Account(account)) => self.account_read(after, account),
            (Tag::Account, Reply::Undecoded { reason }) => self.panel_refused(
                after,
                tag,
                undecoded_words("account.read"@, reason@),
            ),
            (Tag::Status, Reply::Status(status)) => (App {
                status: self.status.after_ok(status, self.ticks, STATUS_TICKS),
                ..*self
            }).handed(after, Errand::RecoverSessions),
            (Tag::Status, Reply::Undecoded { reason }) => self.panel_refused(
                after,
                tag,
                undecoded_words("runtime.status"@, reason@),
            ),
            (Tag::Providers, Reply::Providers(list)) => self.providers_listed(after, list),
            (Tag::Models, Reply::Undecoded { reason }) => self.panel_refused(
                after,
                tag,
                undecoded_words("runtime.models"@, reason@),
            ),
            (Tag::Sessions { plane }, Reply::Sessions { sessions, conflicts }) =>
                self.sessions_listed(after, plane, sessions, conflicts@),
            (_, Reply::Plain(value)) => self.panel_filled(after, tag, value),
            _ => after == *self,
        }
    }

    pub(crate) fn answer_panel(&mut self, tag: Tag, reply: Reply)
        requires
            old(self).wf(),
        ensures
            final(self).wf(),
            old(self).panel_answered(*final(self), tag, reply),
    {
        match (tag, reply) {
            (Tag::Account, Reply::Account(account)) => self.read_account(account),
            (Tag::Account, Reply::Undecoded { reason }) => {
                let words = cat3("account.read", " did not decode: ", reason.as_str());
                self.refuse_panel(&Tag::Account, words);
            },
            (Tag::Status, Reply::Status(status)) => {
                let t: u64 = self.ticks;
                self.status.ok(status, t, STATUS_TICKS);
                self.hand(Errand::RecoverSessions);
            },
            (Tag::Status, Reply::Undecoded { reason }) => {
                let words = cat3("runtime.status", " did not decode: ", reason.as_str());
                self.refuse_panel(&Tag::Status, words);
            },
            (Tag::Providers, Reply::Providers(list)) => self.list_providers(list),
            (Tag::Models, Reply::Undecoded { reason }) => {
                let words = cat3("runtime.models", " did not decode: ", reason.as_str());
                self.refuse_panel(&Tag::Models, words);
            },
            (Tag::Sessions { plane }, Reply::Sessions { sessions, conflicts }) => {
                self.list_sessions(plane, sessions, &conflicts);
            },
            (tag, Reply::Plain(value)) => self.fill_panel(&tag, value),
            _ => {},
        }
    }
}

// ----- turns ------------------------------------------------------------------------

/// A turn from a composer, as its tag holds it.
#[derive(Debug)]
pub struct Turn {
    pub label: &'static str,
    pub verb: ComposerVerb,
    pub plane: Plane,
    pub id: String,
    pub turn_id: Option<String>,
    pub input: String,
    pub reconciling: bool,
    pub submission_sequence: u64,
}

pub open spec fn accepted_words(label: Seq<char>, id: Seq<char>) -> Seq<char> {
    label + " accepted for "@ + id
}

pub open spec fn replied_words(label: Seq<char>, id: Seq<char>, diagnostic: Seq<char>) -> Seq<char> {
    label + " on "@ + id + ": "@ + diagnostic
}

impl Turn {
    /// The verb a refused turn is sent by again: a session that is busy takes follow-ups.
    pub open spec fn retry_verb(&self, busy: bool) -> ComposerVerb {
        if busy && self.verb == ComposerVerb::Message {
            ComposerVerb::FollowUp
        } else {
            self.verb
        }
    }

    /// A reply is waited for: a steer gets none of its own.
    pub open spec fn owes_reply(&self) -> bool {
        self.verb != ComposerVerb::Steer
    }

    /// A refusal of this turn ends the wait for a reply.
    pub open spec fn ends_wait(&self, failure: Failure) -> bool {
        !failure.unknown() && (self.label@ == "send_message"@ || self.label@ == "follow_up"@)
    }

    fn verb_again(&self, busy: bool) -> (r: ComposerVerb)
        ensures
            r == self.retry_verb(busy),
    {
        if busy && self.verb == ComposerVerb::Message {
            ComposerVerb::FollowUp
        } else {
            self.verb
        }
    }

    /// The turn goes back into its composer.
    pub open spec fn comes_back(
        &self,
        restore: Restore,
        verb: ComposerVerb,
        keeps_turn: bool,
        unknown: bool,
        diagnostic: Seq<char>,
        plain: Seq<char>,
    ) -> bool {
        &&& restore.plane == self.plane
        &&& restore.id@ == self.id@
        &&& restore.input@ == self.input@
        &&& said(restore.turn_id) == if keeps_turn {
            said(self.turn_id)
        } else {
            None
        }
        &&& restore.verb == verb
        &&& restore.submission_sequence == self.submission_sequence
        &&& restore.label@ == self.label@
        &&& restore.unknown == unknown
        &&& restore.diagnostic@ == diagnostic
        &&& restore.plain@ == plain
    }

    fn back(
        self,
        verb: ComposerVerb,
        keeps_turn: bool,
        unknown: bool,
        diagnostic: String,
        plain: String,
    ) -> (r: Restore)
        ensures
            self.comes_back(r, verb, keeps_turn, unknown, diagnostic@, plain@),
    {
        Restore {
            plane: self.plane,
            id: self.id,
            input: self.input,
            turn_id: if keeps_turn {
                self.turn_id
            } else {
                None
            },
            verb,
            submission_sequence: self.submission_sequence,
            label: self.label,
            unknown,
            diagnostic,
            plain,
        }
    }
}

impl App {
    /// Only what the sessions tab holds changed.
    pub open spec fn resessioned(&self, after: App) -> bool {
        after == (App { sessions: after.sessions, ..*self })
    }

    /// A turn that was reconciled is settled; its draft is let go of, or is an ordinary one
    /// again.
    pub open spec fn reconciled(&self, after: App, turn: Turn, arrived: bool) -> bool {
        match turn.turn_id {
            Some(turn_id) => if turn.reconciling {
                if arrived {
                    exists|mid: SessionsTab|
                        {
                            &&& #[trigger] self.sessions.draft_accepted(
                                mid,
                                turn.plane,
                                turn.id@,
                                turn_id@,
                            )
                            &&& App::turn_settled(
                                mid,
                                after.sessions,
                                turn.plane,
                                turn.id@,
                                turn_id@,
                            )
                            &&& self.resessioned(after)
                        }
                } else {
                    exists|mid: SessionsTab|
                        {
                            &&& #[trigger] App::turn_settled(
                                self.sessions,
                                mid,
                                turn.plane,
                                turn.id@,
                                turn_id@,
                            )
                            &&& mid.draft_released(
                                after.sessions,
                                turn.plane,
                                turn.id@,
                                turn_id@,
                            )
                            &&& self.resessioned(after)
                        }
                }
            } else {
                after == *self
            },
            None => after == *self,
        }
    }

    pub open spec fn turn_settled(
        before: SessionsTab,
        after: SessionsTab,
        plane: Plane,
        id: Seq<char>,
        turn_id: Seq<char>,
    ) -> bool {
        &&& after.pending_reconciliations@ == but_for_turn(
            before.pending_reconciliations@,
            plane,
            id,
            turn_id,
        )
        &&& after == (SessionsTab {
            pending_reconciliations: after.pending_reconciliations,
            ..before
        })
    }

    fn reconcile(&mut self, turn: &Turn, arrived: bool)
        requires
            old(self).wf(),
        ensures
            final(self).wf(),
            old(self).reconciled(*final(self), *turn, arrived),
    {
        if !turn.reconciling {
            return;
        }
        if let Some(turn_id) = &turn.turn_id {
            let ghost start = self.sessions;
            if arrived {
                self.sessions.accept_reconciled_composer_draft(
                    turn.plane,
                    turn.id.as_str(),
                    turn_id.as_str(),
                );
                let ghost mid = self.sessions;
                assert(start.draft_accepted(mid, turn.plane, turn.id@, turn_id@));
                self.sessions.settle_pending_reconciliation(
                    turn.plane,
                    turn.id.as_str(),
                    turn_id.as_str(),
                );
            } else {
                self.sessions.settle_pending_reconciliation(
                    turn.plane,
                    turn.id.as_str(),
                    turn_id.as_str(),
                );
                let ghost mid = self.sessions;
                assert(App::turn_settled(start, mid, turn.plane, turn.id@, turn_id@));
                self.sessions.release_reconciliation_draft(
                    turn.plane,
                    turn.id.as_str(),
                    turn_id.as_str(),
                );
            }
        }
    }

    /// The reply a session owed is no longer waited for, where `clears`.
    pub open spec fn reply_cleared(&self, after: App, plane: Plane, id: Seq<char>, clears: bool) -> bool {
        if clears {
            &&& after.sessions.pending_replies@ == self.sessions.pending_replies@.remove(
                (plane, id),
            )
            &&& after == (App {
                sessions: SessionsTab {
                    pending_replies: after.sessions.pending_replies,
                    ..self.sessions
                },
                ..*self
            })
        } else {
            after == *self
        }
    }

    pub(crate) fn clear_reply(&mut self, plane: Plane, id: &str, clears: bool)
        requires
            old(self).wf(),
        ensures
            final(self).wf(),
            old(self).reply_cleared(*final(self), plane, id@, clears),
    {
        if clears {
            self.sessions.clear_reply_pending(plane, id);
        }
    }

    /// A turn's text went back where it belongs, and that is said.
    pub open spec fn restoring(
        &self,
        after: App,
        turn: Turn,
        verb: ComposerVerb,
        keeps_turn: bool,
        unknown: bool,
        diagnostic: Seq<char>,
        plain: Seq<char>,
    ) -> bool {
        exists|restore: Restore|
            #[trigger] turn.comes_back(restore, verb, keeps_turn, unknown, diagnostic, plain)
                && self.submission_restored(after, restore)
    }

    fn restore(
        &mut self,
        turn: Turn,
        verb: ComposerVerb,
        keeps_turn: bool,
        unknown: bool,
        diagnostic: String,
        plain: String,
    )
        requires
            old(self).wf(),
        ensures
            final(self).wf(),
            old(self).restoring(
                *final(self),
                turn,
                verb,
                keeps_turn,
                unknown,
                diagnostic@,
                plain@,
            ),
    {
        let restore = turn.back(verb, keeps_turn, unknown, diagnostic, plain);
        let _ = self.restore_composer_submission(&restore);
    }

    /// The runtime answered a turn from a composer.
    pub open spec fn turn_replied(
        &self,
        after: App,
        turn: Turn,
        reply: TurnReply,
        busy: bool,
        diagnostic: Seq<char>,
    ) -> bool {
        let words = replied_words(turn.label@, turn.id@, diagnostic);
        match reply {
            TurnReply::Accepted => exists|mid: App|
                #[trigger] self.reconciled(mid, turn, true) && mid.noticed(
                    after,
                    accepted_words(turn.label@, turn.id@),
                    NoticeKind::Info,
                ),
            // Not proof that the turn was accepted. A steer has no id to reconcile by.
            TurnReply::OutcomeUnknown => self.restoring(
                after,
                turn,
                turn.verb,
                turn.verb != ComposerVerb::Steer,
                true,
                diagnostic,
                words + "; the exact draft and turn id were restored"@,
            ),
            // The turn is over. The text stays, and goes under a turn of its own if it is sent
            // again.
            TurnReply::Rejected => exists|mid: App, cleared: App|
                {
                    &&& #[trigger] self.reconciled(mid, turn, false)
                    &&& #[trigger] mid.reply_cleared(
                        cleared,
                        turn.plane,
                        turn.id@,
                        turn.owes_reply(),
                    )
                    &&& cleared.restoring(
                        after,
                        turn,
                        turn.retry_verb(busy),
                        false,
                        false,
                        diagnostic,
                        words,
                    )
                },
        }
    }

    pub(crate) fn turn_answered(&mut self, turn: Turn, reply: TurnReply, busy: bool, diagnostic: String)
        requires
            old(self).wf(),
        ensures
            final(self).wf(),
            old(self).turn_replied(*final(self), turn, reply, busy, diagnostic@),
    {
        let ghost start = *self;
        let words = cat5(turn.label, " on ", turn.id.as_str(), ": ", diagnostic.as_str());
        match reply {
            TurnReply::Accepted => {
                self.reconcile(&turn, true);
                let ghost mid = *self;
                self.inform(
                    cat3(turn.label, " accepted for ", turn.id.as_str()),
                    NoticeKind::Info,
                );
                assert(start.reconciled(mid, turn, true) && mid.noticed(
                    *self,
                    accepted_words(turn.label@, turn.id@),
                    NoticeKind::Info,
                ));
            },
            TurnReply::OutcomeUnknown => {
                let verb = turn.verb;
                let plain = cat2(words.as_str(), "; the exact draft and turn id were restored");
                self.restore(turn, verb, verb != ComposerVerb::Steer, true, diagnostic, plain);
            },
            TurnReply::Rejected => {
                self.reconcile(&turn, false);
                let ghost mid = *self;
                self.clear_reply(turn.plane, turn.id.as_str(), turn.verb != ComposerVerb::Steer);
                let ghost cleared = *self;
                let verb = turn.verb_again(busy);
                let ghost sent = turn;
                assert(start.reconciled(mid, sent, false));
                assert(mid.reply_cleared(cleared, sent.plane, sent.id@, sent.owes_reply()));
                self.restore(turn, verb, false, false, diagnostic, words);
            },
        }
    }

    /// A turn from a composer was refused, or nobody can tell.
    pub open spec fn turn_refused(&self, after: App, turn: Turn, failure: Failure) -> bool {
        let unknown = failure.unknown();
        exists|mid: App, cleared: App|
            {
                &&& if unknown {
                    mid == *self
                } else {
                    self.reconciled(mid, turn, false)
                }
                &&& #[trigger] mid.reply_cleared(
                    cleared,
                    turn.plane,
                    turn.id@,
                    turn.ends_wait(failure),
                )
                &&& cleared.restoring(
                    after,
                    turn,
                    turn.retry_verb(failure.says_busy()),
                    unknown && turn.verb != ComposerVerb::Steer,
                    unknown,
                    failure.diagnosis(),
                    failed_words(turn.label@, turn.id@, failure, self.hello.scope@),
                )
            }
    }

    pub(crate) fn turn_failed(&mut self, turn: Turn, failure: &Failure)
        requires
            old(self).wf(),
        ensures
            final(self).wf(),
            old(self).turn_refused(*final(self), turn, *failure),
    {
        let ghost start = *self;
        let unknown = failure.reply_outcome_unknown();
        if !unknown {
            self.reconcile(&turn, false);
        }
        let ghost mid = *self;
        let queues = same(turn.label, "send_message") || same(turn.label, "follow_up");
        self.clear_reply(turn.plane, turn.id.as_str(), !unknown && queues);
        let ghost cleared = *self;
        let busy = match &failure.error {
            ClientError::Rpc(_) => failure.busy,
            _ => false,
        };
        let verb = turn.verb_again(busy);
        let keeps = unknown && turn.verb != ComposerVerb::Steer;
        let plain = crate::answers::failed_text(
            turn.label,
            turn.id.as_str(),
            failure,
            self.hello.scope.as_str(),
        );
        let ghost sent = turn;
        self.restore(turn, verb, keeps, unknown, failure.diagnostic(), plain);
        assert(mid.reply_cleared(cleared, sent.plane, sent.id@, sent.ends_wait(*failure)));
    }

    // ----- the first message ----------------------------------------------------------

    /// The turn of a first message is settled and its reply is not waited for.
    pub open spec fn first_let_go(&self, after: App, plane: Plane, id: Seq<char>, turn_id: Seq<char>) -> bool {
        exists|mid: SessionsTab|
            {
                &&& #[trigger] App::turn_settled(self.sessions, mid, plane, id, turn_id)
                &&& (App { sessions: mid, ..*self }).reply_cleared(after, plane, id, true)
            }
    }

    fn let_first_go(&mut self, plane: Plane, id: &str, turn_id: &str)
        requires
            old(self).wf(),
        ensures
            final(self).wf(),
            old(self).first_let_go(*final(self), plane, id@, turn_id@),
    {
        let ghost start = *self;
        self.sessions.settle_pending_reconciliation(plane, id, turn_id);
        let ghost mid = self.sessions;
        assert(App::turn_settled(start.sessions, mid, plane, id@, turn_id@));
        self.clear_reply(plane, id, true);
    }

    pub open spec fn first_verb(busy: bool) -> ComposerVerb {
        if busy {
            ComposerVerb::FollowUp
        } else {
            ComposerVerb::Message
        }
    }

    /// A first message whose turn is over goes back under no turn.
    pub open spec fn first_returned(
        &self,
        after: App,
        plane: Plane,
        id: Seq<char>,
        turn_id: Seq<char>,
        input: Seq<char>,
        busy: bool,
    ) -> bool {
        exists|gone: App|
            #[trigger] self.first_let_go(gone, plane, id, turn_id) && gone.message_restored(
                after,
                plane,
                id,
                input,
                turn_id,
                None,
                App::first_verb(busy),
            )
    }

    fn return_first(&mut self, plane: Plane, id: &str, turn_id: &str, input: &str, busy: bool)
        requires
            old(self).wf(),
        ensures
            final(self).wf(),
            old(self).first_returned(*final(self), plane, id@, turn_id@, input@, busy),
    {
        let ghost start = *self;
        self.let_first_go(plane, id, turn_id);
        let ghost gone = *self;
        assert(start.first_let_go(gone, plane, id@, turn_id@));
        let verb = if busy {
            ComposerVerb::FollowUp
        } else {
            ComposerVerb::Message
        };
        self.restore_refused_first_message(plane, id, input, turn_id, verb);
    }

    /// The runtime answered a first message.
    pub open spec fn first_replied(
        &self,
        after: App,
        plane: Plane,
        id: Seq<char>,
        turn_id: Seq<char>,
        input: Seq<char>,
        reply: TurnReply,
        busy: bool,
        diagnostic: Seq<char>,
    ) -> bool {
        let words = replied_words("send_message"@, id, diagnostic);
        match reply {
            TurnReply::Accepted => self.first_accepted(after, plane, id, turn_id, input),
            TurnReply::OutcomeUnknown => exists|mid: App|
                #[trigger] self.message_restored(
                    mid,
                    plane,
                    id,
                    input,
                    turn_id,
                    Some(turn_id),
                    ComposerVerb::Message,
                ) && mid.noticed(
                    after,
                    words + "; the exact draft and turn id were restored"@,
                    NoticeKind::Error,
                ),
            TurnReply::Rejected => exists|mid: App|
                #[trigger] self.first_returned(mid, plane, id, turn_id, input, busy) && mid.noticed(
                    after,
                    words,
                    NoticeKind::Error,
                ),
        }
    }

    pub(crate) fn first_answered(
        &mut self,
        plane: Plane,
        id: &str,
        turn_id: &str,
        input: &str,
        reply: TurnReply,
        busy: bool,
        diagnostic: &str,
    )
        requires
            old(self).wf(),
        ensures
            final(self).wf(),
            old(self).first_replied(
                *final(self),
                plane,
                id@,
                turn_id@,
                input@,
                reply,
                busy,
                diagnostic@,
            ),
    {
        let ghost start = *self;
        let words = cat5("send_message", " on ", id, ": ", diagnostic);
        match reply {
            TurnReply::Accepted => self.accept_first_message(plane, id, turn_id, input),
            TurnReply::OutcomeUnknown => {
                self.restore_first_message(plane, id, input, turn_id);
                let ghost mid = *self;
                self.inform(
                    cat2(words.as_str(), "; the exact draft and turn id were restored"),
                    NoticeKind::Error,
                );
                assert(start.message_restored(
                    mid,
                    plane,
                    id@,
                    input@,
                    turn_id@,
                    Some(turn_id@),
                    ComposerVerb::Message,
                ));
            },
            TurnReply::Rejected => {
                self.return_first(plane, id, turn_id, input, busy);
                let ghost mid = *self;
                self.inform(words, NoticeKind::Error);
                assert(start.first_returned(mid, plane, id@, turn_id@, input@, busy));
            },
        }
    }

    /// A first message was refused, or nobody can tell.
    pub open spec fn first_refused(
        &self,
        after: App,
        plane: Plane,
        id: Seq<char>,
        turn_id: Seq<char>,
        input: Seq<char>,
        failure: Failure,
    ) -> bool {
        exists|mid: App|
            {
                &&& if failure.unknown() {
                    self.message_restored(
                        mid,
                        plane,
                        id,
                        input,
                        turn_id,
                        Some(turn_id),
                        ComposerVerb::Message,
                    )
                } else {
                    self.first_returned(mid, plane, id, turn_id, input, failure.says_busy())
                }
                &&& #[trigger] mid.noticed(
                    after,
                    failed_words("send_message"@, id, failure, mid.hello.scope@),
                    NoticeKind::Error,
                )
            }
    }

    pub(crate) fn first_failed(&mut self, plane: Plane, id: &str, turn_id: &str, input: &str, failure: &Failure)
        requires
            old(self).wf(),
        ensures
            final(self).wf(),
            old(self).first_refused(*final(self), plane, id@, turn_id@, input@, *failure),
    {
        let busy = match &failure.error {
            ClientError::Rpc(_) => failure.busy,
            _ => false,
        };
        if failure.reply_outcome_unknown() {
            self.restore_first_message(plane, id, input, turn_id);
        } else {
            self.return_first(plane, id, turn_id, input, busy);
        }
        let ghost mid = *self;
        self.action_failed("send_message", id, failure);
        assert(mid.noticed(
            *self,
            failed_words("send_message"@, id@, *failure, mid.hello.scope@),
            NoticeKind::Error,
        ));
    }
}

} // verus!
