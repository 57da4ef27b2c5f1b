//! The event streams: what arrives, what is lost, and the one repair.
//!
//! A hole in a transcript is repaired by asking for the events after the cursor again. There is one
//! way to do so, after a lag, a pruned cursor, a reconnect or a first open, and it is bounded: a
//! session that makes history faster than it can be read keeps a visible gap.

use vstd::prelude::*;

use crate::app::{App, NoticeKind, Overlay, Tab, TICK_CEILING};
use crate::explorer::Pane;
use crate::json::JsonView;
use crate::model::Plane;
use crate::outgoing::{left, lemma_a_repair_asks_from_the_cursor, lemma_repair_call, newest};
use crate::sessions::{key_of, lemma_sound_update, sound, watch_at, watched, Key, SessionsTab};
use crate::tags::{number_param, plain_call, text_param, Call, CallView, Params, Tag, TagView};
use crate::text::{cat2, cat3, cat4, cat5, decimal, number, same};
use crate::watch::{Event, EventType, Note, Watch};

verus! {

/// The most events one replay answers.
pub const REPLAY_LIMIT: u64 = 500;

/// How many repairs one interruption may cost before the client stops asking.
pub const MAX_RESYNC_ROUNDS: u64 = 40;

/// What a repair was answered.
#[derive(Debug)]
pub enum Replay {
    /// The retained events after the cursor, in order, and how many could not be read.
    Events { events: Vec<Event>, refused: u64 },
    /// The cursor is below what is retained.
    Pruned { floor: u64 },
    Refused { reason: String },
}

pub open spec fn resync_call(plane: Plane, id: Seq<char>, cursor: u64, subscribe: bool) -> CallView {
    plain_call(
        TagView::Resync { plane, id, cursor, subscribe },
        plane.method_of(
            if subscribe {
                "subscribe"@
            } else {
                "replay"@
            },
        ),
        JsonView::Object(
            if subscribe {
                seq![text_param("id"@, id), number_param("cursor"@, cursor)]
            } else {
                seq![
                    text_param("id"@, id),
                    number_param("cursor"@, cursor),
                    number_param("limit"@, REPLAY_LIMIT),
                ]
            },
        ),
    )
}

fn resync_request(plane: Plane, id: &str, cursor: u64, subscribe: bool) -> (r: Call)
    ensures
        r@ == resync_call(plane, id@, cursor, subscribe),
        r@.params.member("cursor"@) == Some(JsonView::Unsigned(cursor)),
        r@.params.member("id"@) == Some(JsonView::Text(id@)),
{
    proof {
        lemma_repair_call(plane, id@, cursor, subscribe);
    }
    let params = Params::new().text("id", id).number("cursor", cursor);
    let tag = Tag::Resync { plane, id: id.to_owned(), cursor, subscribe };
    if subscribe {
        assert(params@ =~= seq![text_param("id"@, id@), number_param("cursor"@, cursor)]);
        Call::new(tag, plane.method("subscribe").as_str(), params.done())
    } else {
        let params = params.number("limit", REPLAY_LIMIT);
        assert(params@ =~= seq![
            text_param("id"@, id@),
            number_param("cursor"@, cursor),
            number_param("limit"@, REPLAY_LIMIT),
        ]);
        Call::new(tag, plane.method("replay").as_str(), params.done())
    }
}

pub open spec fn counted_up(n: u64, by: u64) -> u64 {
    if n + by > u64::MAX {
        u64::MAX
    } else {
        (n + by) as u64
    }
}

pub open spec fn too_fast_words(id: Seq<char>) -> Seq<char> {
    id
        + " is producing history faster than this client can replay it; the transcript keeps its gap rather than looping"@
}

pub open spec fn replay_failed_words(id: Seq<char>, reason: Seq<char>) -> Seq<char> {
    "replaying "@ + id + " failed: "@ + reason
}

impl App {
    /// The repair a session is on, once another has begun.
    pub open spec fn next_round(&self, plane: Plane, id: Seq<char>) -> u64 {
        let rounds = self.sessions.rounds@;
        counted_up(
            if rounds.contains_key((plane, id)) {
                rounds[(plane, id)]
            } else {
                0
            },
            1,
        )
    }

    /// Only watches, rounds, the queue and the notice may differ.
    pub open spec fn stream_frame(&self, after: App) -> bool {
        after == (App {
            sessions: SessionsTab {
                watches: after.sessions.watches,
                rounds: after.sessions.rounds,
                ..self.sessions
            },
            queue: after.queue,
            notice: after.notice,
            ..*self
        })
    }

    /// The state after a repair of a session was asked for.
    pub open spec fn resynced(&self, after: App, plane: Plane, id: Seq<char>, subscribe: bool) -> bool {
        let watches = self.sessions.watches@;
        let at = watch_at(watches, plane, id);
        let watch = watches[at];
        let round = self.next_round(plane, id);
        let call = resync_call(plane, id, watch.at() as u64, subscribe);
        let key = (plane, id);
        &&& self.stream_frame(after)
        &&& after.wf()
        &&& if !watched(watches, plane, id) || (watch.ended is Some && !subscribe) {
            after == *self
        } else if watch.resyncing {
            // The answer on its way was asked from a cursor that is older than this interruption,
            // so it cannot repair it.
            &&& after.sessions.watches@ == watches.update(
                at,
                Watch { resync_again: true, ..watch },
            )
            &&& after.sessions.rounds == self.sessions.rounds
            &&& after.queue == self.queue
            &&& after.notice == self.notice
        } else if round > MAX_RESYNC_ROUNDS {
            &&& after.sessions.watches == self.sessions.watches
            &&& after.sessions.rounds@ == self.sessions.rounds@.insert(key, round)
            &&& after.queue == self.queue
            &&& after.says(too_fast_words(id), NoticeKind::Error)
        } else if self.hello.lists(call.method) {
            &&& after.sessions.watches@ == watches.update(at, Watch { resyncing: true, ..watch })
            &&& after.sessions.rounds@ == self.sessions.rounds@.insert(key, round)
            &&& after.queue@ == self.queue@.with(call)
            &&& after.notice == self.notice
        } else {
            &&& after.sessions.watches@ == watches.update(
                at,
                Watch { resyncing: false, resync_again: false, ..watch },
            )
            &&& after.sessions.rounds@ == self.sessions.rounds@.remove(key)
            &&& after.queue@ == self.queue@.without(call.tag)
            &&& after.says(
                replay_failed_words(id, crate::app::unserved_words(call.method)),
                NoticeKind::Error,
            )
        }
    }

    /// Takes a watch out to change it; it has to be put back.
    pub(crate) fn take_watch(&mut self, at: usize) -> (r: Watch)
        requires
            at < old(self).sessions.watches@.len(),
        ensures
            r == old(self).sessions.watches@[at as int],
            final(self).sessions.watches@ == old(self).sessions.watches@.remove(at as int),
            *final(self) == (App {
                sessions: SessionsTab {
                    watches: final(self).sessions.watches,
                    ..old(self).sessions
                },
                ..*old(self)
            }),
    {
        self.sessions.watches.remove(at)
    }

    pub(crate) fn return_watch(&mut self, at: usize, watch: Watch, Ghost(before): Ghost<Seq<Watch>>)
        requires
            sound(before),
            at < before.len(),
            old(self).sessions.watches@ == before.remove(at as int),
            old(self).sessions.rounds.wf(),
            old(self).queue.wf(),
            old(self).cursors.wf(),
            old(self).ticks <= TICK_CEILING,
            watch.wf(),
            watch.is(before[at as int].plane, before[at as int].id@),
        ensures
            final(self).wf(),
            final(self).sessions.watches@ == before.update(at as int, watch),
            *final(self) == (App {
                sessions: SessionsTab {
                    watches: final(self).sessions.watches,
                    ..old(self).sessions
                },
                ..*old(self)
            }),
    {
        proof {
            lemma_sound_update(before, at as int, watch);
        }
        self.sessions.watches.insert(at, watch);
        assert(self.sessions.watches@ =~= before.update(at as int, watch));
    }

    /// Changes the repair flags of one watch.
    fn flag(&mut self, at: usize, resyncing: bool, again: bool)
        requires
            old(self).wf(),
            at < old(self).sessions.watches@.len(),
        ensures
            final(self).wf(),
            final(self).sessions.watches@ == old(self).sessions.watches@.update(
                at as int,
                Watch {
                    resyncing,
                    resync_again: again,
                    ..old(self).sessions.watches@[at as int]
                },
            ),
            *final(self) == (App {
                sessions: SessionsTab {
                    watches: final(self).sessions.watches,
                    ..old(self).sessions
                },
                ..*old(self)
            }),
    {
        let ghost watches = self.sessions.watches@;
        let mut watch = self.take_watch(at);
        watch.resyncing = resyncing;
        watch.resync_again = again;
        self.return_watch(at, watch, Ghost(watches));
    }

    fn give_up(&mut self, plane: Plane, id: &str, round: u64)
        requires
            old(self).wf(),
        ensures
            final(self).wf(),
            final(self).sessions.rounds@ == old(self).sessions.rounds@.insert((plane, id@), round),
            final(self).says(too_fast_words(id@), NoticeKind::Error),
            *final(self) == (App {
                sessions: SessionsTab {
                    rounds: final(self).sessions.rounds,
                    ..old(self).sessions
                },
                notice: final(self).notice,
                ..*old(self)
            }),
    {
        self.sessions.rounds.set(plane, id, round);
        self.inform(
            cat2(
                id,
                " is producing history faster than this client can replay it; the transcript keeps its gap rather than looping",
            ),
            NoticeKind::Error,
        );
    }

    fn send_resync(&mut self, at: usize, plane: Plane, id: &str, round: u64, call: Call)
        requires
            old(self).wf(),
            at < old(self).sessions.watches@.len(),
        ensures
            final(self).wf(),
            final(self).sessions.watches@ == old(self).sessions.watches@.update(
                at as int,
                Watch { resyncing: true, ..old(self).sessions.watches@[at as int] },
            ),
            final(self).sessions.rounds@ == old(self).sessions.rounds@.insert((plane, id@), round),
            final(self).queue@ == old(self).queue@.with(call@),
            *final(self) == (App {
                sessions: SessionsTab {
                    watches: final(self).sessions.watches,
                    rounds: final(self).sessions.rounds,
                    ..old(self).sessions
                },
                queue: final(self).queue,
                ..*old(self)
            }),
    {
        let again = self.sessions.watches[at].resync_again;
        self.flag(at, true, again);
        self.sessions.rounds.set(plane, id, round);
        self.queue.put(call);
    }

    fn replay_failed(&mut self, at: usize, plane: Plane, id: &str, reason: &str)
        requires
            old(self).wf(),
            at < old(self).sessions.watches@.len(),
        ensures
            final(self).wf(),
            final(self).sessions.watches@ == old(self).sessions.watches@.update(
                at as int,
                Watch {
                    resyncing: false,
                    resync_again: false,
                    ..old(self).sessions.watches@[at as int]
                },
            ),
            final(self).sessions.rounds@ == old(self).sessions.rounds@.remove((plane, id@)),
            final(self).says(replay_failed_words(id@, reason@), NoticeKind::Error),
            *final(self) == (App {
                sessions: SessionsTab {
                    watches: final(self).sessions.watches,
                    rounds: final(self).sessions.rounds,
                    ..old(self).sessions
                },
                notice: final(self).notice,
                ..*old(self)
            }),
    {
        self.flag(at, false, false);
        self.sessions.rounds.forget(plane, id);
        self.inform(cat4("replaying ", id, " failed: ", reason), NoticeKind::Error);
    }

    fn remember_interruption(&mut self, at: usize, plane: Plane, id: &str, subscribe: bool)
        requires
            old(self).wf(),
            at < old(self).sessions.watches@.len(),
            watched(old(self).sessions.watches@, plane, id@),
            watch_at(old(self).sessions.watches@, plane, id@) == at,
            !(old(self).sessions.watches@[at as int].ended is Some && !subscribe),
            old(self).sessions.watches@[at as int].resyncing,
        ensures
            old(self).resynced(*final(self), plane, id@, subscribe),
    {
        self.flag(at, true, true);
    }

    fn stop_asking(&mut self, at: usize, plane: Plane, id: &str, subscribe: bool, round: u64)
        requires
            old(self).wf(),
            at < old(self).sessions.watches@.len(),
            watched(old(self).sessions.watches@, plane, id@),
            watch_at(old(self).sessions.watches@, plane, id@) == at,
            !(old(self).sessions.watches@[at as int].ended is Some && !subscribe),
            !old(self).sessions.watches@[at as int].resyncing,
            round == old(self).next_round(plane, id@),
            round > MAX_RESYNC_ROUNDS,
        ensures
            old(self).resynced(*final(self), plane, id@, subscribe),
    {
        self.give_up(plane, id, round);
    }

    fn send(&mut self, at: usize, plane: Plane, id: &str, subscribe: bool, round: u64, call: Call)
        requires
            old(self).wf(),
            at < old(self).sessions.watches@.len(),
            watched(old(self).sessions.watches@, plane, id@),
            watch_at(old(self).sessions.watches@, plane, id@) == at,
            !(old(self).sessions.watches@[at as int].ended is Some && !subscribe),
            !old(self).sessions.watches@[at as int].resyncing,
            round == old(self).next_round(plane, id@),
            round <= MAX_RESYNC_ROUNDS,
            call@ == resync_call(
                plane,
                id@,
                old(self).sessions.watches@[at as int].at() as u64,
                subscribe,
            ),
            old(self).hello.lists(call@.method),
        ensures
            old(self).resynced(*final(self), plane, id@, subscribe),
    {
        let ghost start = *self;
        let ghost sent = call@;
        self.send_resync(at, plane, id, round, call);
        assert(start.stream_frame(*self));
        assert(self.queue@ == start.queue@.with(sent));
    }

    fn answer_here(
        &mut self,
        at: usize,
        plane: Plane,
        id: &str,
        subscribe: bool,
        round: u64,
        call: Call,
    )
        requires
            old(self).wf(),
            at < old(self).sessions.watches@.len(),
            watched(old(self).sessions.watches@, plane, id@),
            watch_at(old(self).sessions.watches@, plane, id@) == at,
            !(old(self).sessions.watches@[at as int].ended is Some && !subscribe),
            !old(self).sessions.watches@[at as int].resyncing,
            round == old(self).next_round(plane, id@),
            round <= MAX_RESYNC_ROUNDS,
            call@ == resync_call(
                plane,
                id@,
                old(self).sessions.watches@[at as int].at() as u64,
                subscribe,
            ),
            !old(self).hello.lists(call@.method),
        ensures
            old(self).resynced(*final(self), plane, id@, subscribe),
    {
        let ghost start = *self;
        self.queue.answered(&call.tag);
        let reason = cat2("this gateway does not serve ", call.method.as_str());
        self.replay_failed(at, plane, id, reason.as_str());
        assert(start.stream_frame(*self));
    }

    fn ask_again(&mut self, at: usize, plane: Plane, id: &str, subscribe: bool, round: u64)
        requires
            old(self).wf(),
            at < old(self).sessions.watches@.len(),
            watched(old(self).sessions.watches@, plane, id@),
            watch_at(old(self).sessions.watches@, plane, id@) == at,
            !(old(self).sessions.watches@[at as int].ended is Some && !subscribe),
            !old(self).sessions.watches@[at as int].resyncing,
            round == old(self).next_round(plane, id@),
            round <= MAX_RESYNC_ROUNDS,
        ensures
            old(self).resynced(*final(self), plane, id@, subscribe),
    {
        let cursor: u64 = self.sessions.watches[at].cursor();
        let call = resync_request(plane, id, cursor, subscribe);
        if self.hello.serves(call.method.as_str()) {
            self.send(at, plane, id, subscribe, round, call);
        } else {
            self.answer_here(at, plane, id, subscribe, round, call);
        }
    }

    /// The one repair. `subscribe` where the registration is gone, and not where only frames were
    /// lost.
    pub fn resync(&mut self, plane: Plane, id: &str, subscribe: bool)
        requires
            old(self).wf(),
        ensures
            old(self).resynced(*final(self), plane, id@, subscribe),
            final(self).queue@.outbound != old(self).queue@.outbound ==> {
                let watches = old(self).sessions.watches@;
                &&& left(*old(self), *final(self))
                &&& newest(*final(self)).params.member_text("id"@) == Some(id@)
                &&& newest(*final(self)).params.member("cursor"@) == Some(
                    JsonView::Unsigned(watches[watch_at(watches, plane, id@)].at() as u64),
                )
            },
    {
        let at: usize = match self.sessions.find(plane, id) {
            Some(at) => at,
            None => {
                return;
            },
        };
        if self.sessions.watches[at].ended.is_some() && !subscribe {
            return;
        }
        if self.sessions.watches[at].resyncing {
            self.remember_interruption(at, plane, id, subscribe);
            return;
        }
        let prior: u64 = match self.sessions.rounds.get(plane, id) {
            Some(n) => n,
            None => 0,
        };
        let round: u64 = prior.saturating_add(1);
        if round > MAX_RESYNC_ROUNDS {
            self.stop_asking(at, plane, id, subscribe, round);
        } else {
            self.ask_again(at, plane, id, subscribe, round);
            proof {
                if self.queue@.outbound != old(self).queue@.outbound {
                    lemma_a_repair_asks_from_the_cursor(*old(self), *self, plane, id@, subscribe);
                }
            }
        }
    }

    // ----- approvals ------------------------------------------------------------------

    /// An approval of a session is on the screen, where one waits and nothing else is open.
    pub open spec fn approval_opened(&self, after: App, plane: Plane, id: Seq<char>) -> bool {
        let watches = self.sessions.watches@;
        let request = watches[watch_at(watches, plane, id)].open_request();
        if self.overlay is None && watched(watches, plane, id) && request is Some {
            &&& after.overlay matches Some(Overlay::Approval {
                plane: p,
                id: i,
                request_id,
                subject,
                choice,
            })
            &&& p == plane && i@ == id && choice == 0
            &&& request_id@ == request->0.request_id@
            &&& subject@ == request->0.subject@
            &&& after == (App { overlay: after.overlay, ..*self })
        } else {
            after == *self
        }
    }

    /// An approval must not take the screen from a dialog that is open.
    pub fn open_approval(&mut self, plane: Plane, id: &str)
        requires
            old(self).wf(),
        ensures
            final(self).wf(),
            old(self).approval_opened(*final(self), plane, id@),
    {
        if self.overlay.is_some() {
            return;
        }
        let at: usize = match self.sessions.find(plane, id) {
            Some(at) => at,
            None => {
                return;
            },
        };
        let (request_id, subject) = match self.sessions.watches[at].next_approval() {
            Some(request) => (request.request_id.clone(), request.subject.clone()),
            None => {
                return;
            },
        };
        self.overlay = Some(
            Overlay::Approval { plane, id: id.to_owned(), request_id, subject, choice: 0 },
        );
    }

    // ----- what arrives ---------------------------------------------------------------

    /// The watch after events were taken into it.
    pub open spec fn absorbed(before: Watch, after: Watch, events: Seq<Event>) -> bool {
        &&& after.wf()
        &&& (after.held@.to_set(), after.approvals@) == Watch::asked(
            before.held@.to_set(),
            before.floor,
            before.approvals@,
            events,
        )
        &&& after == (Watch { held: after.held, approvals: after.approvals, ..before })
    }

    pub open spec fn acknowledged(events: Seq<Event>) -> bool {
        exists|i: int| 0 <= i < events.len() && (#[trigger] events[i]).kind.acknowledges()
    }

    pub open spec fn asks_approval(events: Seq<Event>) -> bool {
        exists|i: int| 0 <= i < events.len() && (#[trigger] events[i]).kind is ApprovalRequested
    }

    /// One event was taken in, before anything was done about a gap or an approval.
    pub open spec fn took_event(&self, after: App, plane: Plane, id: Seq<char>, event: Event) -> bool {
        let watches = self.sessions.watches@;
        let at = watch_at(watches, plane, id);
        let now = after.sessions.watches@[at];
        &&& after.wf()
        &&& App::absorbed(watches[at], now, seq![event])
        &&& after.sessions.watches@ == watches.update(at, now)
        &&& after.sessions.pending_replies@ == if event.kind.acknowledges() {
            self.sessions.pending_replies@.remove((plane, id))
        } else {
            self.sessions.pending_replies@
        }
        &&& after.cursors@ == self.cursors@.insert((plane, id), now.at() as u64)
        &&& after == (App {
            sessions: SessionsTab {
                watches: after.sessions.watches,
                pending_replies: after.sessions.pending_replies,
                ..self.sessions
            },
            cursors: after.cursors,
            ..*self
        })
    }

    fn take_event(&mut self, at: usize, plane: Plane, id: &str, event: Event) -> (r: bool)
        requires
            old(self).wf(),
            at < old(self).sessions.watches@.len(),
            watched(old(self).sessions.watches@, plane, id@),
            watch_at(old(self).sessions.watches@, plane, id@) == at,
            old(self).sessions.watches@[at as int].is(plane, id@),
        ensures
            old(self).took_event(*final(self), plane, id@, event),
            r == final(self).sessions.watches@[at as int].gap(),
    {
        let ghost watches = self.sessions.watches@;
        let acknowledges = event.kind.acknowledges_reply();
        let mut watch = self.take_watch(at);
        let mut events: Vec<Event> = Vec::new();
        events.push(event);
        assert(events@ =~= seq![event]);
        watch.absorb(events);
        let cursor: u64 = watch.cursor();
        let gap = watch.has_gap();
        self.return_watch(at, watch, Ghost(watches));
        if acknowledges {
            self.sessions.clear_reply_pending(plane, id);
        }
        self.cursors.set(plane, id, cursor);
        gap
    }

    /// An event of a watched session was decoded and dealt with: taken in, a gap repaired, an
    /// approval shown.
    pub open spec fn evented(&self, after: App, plane: Plane, id: Seq<char>, event: Event) -> bool {
        exists|taken: App, repaired: App|
            {
                &&& #[trigger] self.took_event(taken, plane, id, event)
                &&& if taken.sessions.watches@[watch_at(
                    self.sessions.watches@,
                    plane,
                    id,
                )].gap() {
                    taken.resynced(repaired, plane, id, false)
                } else {
                    repaired == taken
                }
                &&& if event.kind is ApprovalRequested {
                    #[trigger] repaired.approval_opened(after, plane, id)
                } else {
                    after == repaired
                }
            }
    }

    /// An event frame of a session. One that could not be decoded is counted; one of a session
    /// that is no longer watched is dropped.
    pub open spec fn event_taken(
        &self,
        after: App,
        plane: Plane,
        id: Seq<char>,
        event: Option<Event>,
    ) -> bool {
        let watches = self.sessions.watches@;
        let at = watch_at(watches, plane, id);
        if !watched(watches, plane, id) {
            after == *self
        } else {
            match event {
                Some(event) => self.evented(after, plane, id, event),
                None => {
                    &&& after.sessions.watches@ == watches.update(
                        at,
                        Watch {
                            undecodable: counted_up(watches[at].undecodable, 1),
                            ..watches[at]
                        },
                    )
                    &&& after == (App {
                        sessions: SessionsTab { watches: after.sessions.watches, ..self.sessions },
                        ..*self
                    })
                },
            }
        }
    }

    pub fn event(&mut self, plane: Plane, id: &str, event: Option<Event>)
        requires
            old(self).wf(),
        ensures
            final(self).wf(),
            old(self).event_taken(*final(self), plane, id@, event),
    {
        let at: usize = match self.sessions.find(plane, id) {
            Some(at) => at,
            None => {
                return;
            },
        };
        let ghost start = *self;
        let ghost watches = self.sessions.watches@;
        match event {
            Some(event) => {
                let approval = matches!(event.kind, EventType::ApprovalRequested);
                let gap = self.take_event(at, plane, id, event);
                let ghost taken = *self;
                assert(start.took_event(taken, plane, id@, event));
                if gap {
                    self.resync(plane, id, false);
                }
                let ghost repaired = *self;
                if approval {
                    self.open_approval(plane, id);
                    assert(repaired.approval_opened(*self, plane, id@));
                } else {
                    assert(start.took_event(taken, plane, id@, event) && *self == repaired);
                }
                proof {
                    App::lemma_evented(start, taken, repaired, *self, plane, id@, event);
                }
            },
            None => {
                let mut watch = self.take_watch(at);
                watch.undecodable = watch.undecodable.saturating_add(1);
                self.return_watch(at, watch, Ghost(watches));
            },
        }
    }

    proof fn lemma_evented(
        start: App,
        taken: App,
        repaired: App,
        after: App,
        plane: Plane,
        id: Seq<char>,
        event: Event,
    )
        requires
            start.took_event(taken, plane, id, event),
            if taken.sessions.watches@[watch_at(start.sessions.watches@, plane, id)].gap() {
                taken.resynced(repaired, plane, id, false)
            } else {
                repaired == taken
            },
            if event.kind is ApprovalRequested {
                repaired.approval_opened(after, plane, id)
            } else {
                after == repaired
            },
        ensures
            start.evented(after, plane, id, event),
    {
        let _ = repaired.approval_opened(after, plane, id);
    }
}

impl App {
    // ----- a repair is answered -------------------------------------------------------

    /// Both repairs answer the retained events after the cursor, in order. A first one beyond the
    /// next therefore proves that those between are no longer retained.
    pub open spec fn proven_floor(asked_from: u64, events: Seq<Event>, floor: u64) -> u64 {
        if events.len() > 0 && events[0].sequence > asked_from + 1 {
            (events[0].sequence - 1) as u64
        } else {
            floor
        }
    }

    /// The answer of a repair was taken in. `raised` is the watch before its events, with the
    /// floor the answer proves.
    pub open spec fn took_replay(
        &self,
        after: App,
        raised: Watch,
        plane: Plane,
        id: Seq<char>,
        asked_from: u64,
        events: Seq<Event>,
        refused: u64,
    ) -> bool {
        let watches = self.sessions.watches@;
        let at = watch_at(watches, plane, id);
        let watch = watches[at];
        let now = after.sessions.watches@[at];
        &&& after.wf()
        &&& watch.raised(raised, App::proven_floor(asked_from, events, watch.floor))
        &&& App::absorbed(
            (Watch {
                resyncing: false,
                resync_again: false,
                undecodable: counted_up(watch.undecodable, refused),
                ..raised
            }),
            now,
            events,
        )
        &&& after.sessions.watches@ == watches.update(at, now)
        &&& after.sessions.pending_replies@ == if App::acknowledged(events) {
            self.sessions.pending_replies@.remove((plane, id))
        } else {
            self.sessions.pending_replies@
        }
        &&& after.cursors@ == self.cursors@.insert((plane, id), now.at() as u64)
        &&& after == (App {
            sessions: SessionsTab {
                watches: after.sessions.watches,
                pending_replies: after.sessions.pending_replies,
                ..self.sessions
            },
            cursors: after.cursors,
            ..*self
        })
    }

    /// Another round is worth asking for: while one buys something, or where an interruption came
    /// while it was in flight.
    pub open spec fn another_round(raised: Watch, now: Watch, events: nat, again: bool) -> bool {
        (now.at() > raised.at() && (events >= REPLAY_LIMIT || now.gap())) || again
    }

    /// The rounds of a session are over.
    pub open spec fn settled(&self, after: App, plane: Plane, id: Seq<char>) -> bool {
        &&& after.wf()
        &&& after.sessions.rounds@ == self.sessions.rounds@.remove((plane, id))
        &&& after == (App {
            sessions: SessionsTab { rounds: after.sessions.rounds, ..self.sessions },
            ..*self
        })
    }

    fn settle(&mut self, plane: Plane, id: &str)
        requires
            old(self).wf(),
        ensures
            old(self).settled(*final(self), plane, id@),
    {
        self.sessions.rounds.forget(plane, id);
    }

    fn take_replay(
        &mut self,
        at: usize,
        plane: Plane,
        id: &str,
        asked_from: u64,
        events: Vec<Event>,
        refused: u64,
    ) -> (r: (bool, Ghost<Watch>))
        requires
            old(self).wf(),
            at < old(self).sessions.watches@.len(),
            watched(old(self).sessions.watches@, plane, id@),
            watch_at(old(self).sessions.watches@, plane, id@) == at,
            old(self).sessions.watches@[at as int].is(plane, id@),
        ensures
            old(self).took_replay(*final(self), r.1@, plane, id@, asked_from, events@, refused),
            r.0 == App::another_round(
                r.1@,
                final(self).sessions.watches@[at as int],
                events@.len(),
                old(self).sessions.watches@[at as int].resync_again,
            ),
    {
        let ghost start = *self;
        let ghost watches = self.sessions.watches@;
        let acknowledges = any_acknowledges(&events);
        let mut watch = self.take_watch(at);
        let (again, cursor, raised) = replay_watch(&mut watch, asked_from, events, refused);
        self.return_watch(at, watch, Ghost(watches));
        let ghost put = *self;
        if acknowledges {
            self.sessions.clear_reply_pending(plane, id);
        }
        self.cursors.set(plane, id, cursor);
        assert(self.sessions.watches == put.sessions.watches);
        (again, raised)
    }

    /// The events of a repair have been dealt with: taken in, another round asked for or none, an
    /// approval shown.
    pub open spec fn replayed(
        &self,
        after: App,
        plane: Plane,
        id: Seq<char>,
        asked_from: u64,
        events: Seq<Event>,
        refused: u64,
    ) -> bool {
        let at = watch_at(self.sessions.watches@, plane, id);
        exists|taken: App, raised: Watch, rested: App|
            {
                &&& #[trigger] self.took_replay(
                    taken,
                    raised,
                    plane,
                    id,
                    asked_from,
                    events,
                    refused,
                )
                &&& if App::another_round(
                    raised,
                    taken.sessions.watches@[at],
                    events.len(),
                    self.sessions.watches@[at].resync_again,
                ) {
                    taken.resynced(rested, plane, id, false)
                } else {
                    taken.settled(rested, plane, id)
                }
                &&& if App::asks_approval(events) {
                    #[trigger] rested.approval_opened(after, plane, id)
                } else {
                    after == rested
                }
            }
    }

    /// The cursor was below what is retained, so the transcript starts at the floor.
    pub open spec fn pruned(&self, after: App, plane: Plane, id: Seq<char>, floor: u64) -> bool {
        let watches = self.sessions.watches@;
        let at = watch_at(watches, plane, id);
        let now = after.sessions.watches@[at];
        &&& after.wf()
        &&& (Watch { resyncing: false, resync_again: false, ..watches[at] }).raised(now, floor)
        &&& after.sessions.watches@ == watches.update(at, now)
        &&& after.cursors@ == self.cursors@.insert((plane, id), now.at() as u64)
        &&& after.says(
            id + ": the runtime no longer retains history below "@ + decimal(floor as nat)
                + "; the transcript starts there"@,
            NoticeKind::Warn,
        )
        &&& after == (App {
            sessions: SessionsTab { watches: after.sessions.watches, ..self.sessions },
            cursors: after.cursors,
            notice: after.notice,
            ..*self
        })
    }

    fn prune(&mut self, at: usize, plane: Plane, id: &str, floor: u64)
        requires
            old(self).wf(),
            at < old(self).sessions.watches@.len(),
            watched(old(self).sessions.watches@, plane, id@),
            watch_at(old(self).sessions.watches@, plane, id@) == at,
            old(self).sessions.watches@[at as int].is(plane, id@),
        ensures
            old(self).pruned(*final(self), plane, id@, floor),
    {
        let ghost watches = self.sessions.watches@;
        let mut watch = self.take_watch(at);
        watch.resyncing = false;
        watch.resync_again = false;
        watch.raise_floor(floor);
        let cursor: u64 = watch.cursor();
        self.return_watch(at, watch, Ghost(watches));
        self.cursors.set(plane, id, cursor);
        self.inform(
            cat4(
                id,
                ": the runtime no longer retains history below ",
                number(floor).as_str(),
                "; the transcript starts there",
            ),
            NoticeKind::Warn,
        );
    }

    /// What the answer of a repair comes to.
    pub open spec fn resync_settled(
        &self,
        after: App,
        plane: Plane,
        id: Seq<char>,
        asked_from: u64,
        subscribe: bool,
        result: Replay,
    ) -> bool {
        let watches = self.sessions.watches@;
        let at = watch_at(watches, plane, id);
        if !watched(watches, plane, id) {
            after == *self
        } else {
            match result {
                Replay::Events { events, refused } => self.replayed(
                    after,
                    plane,
                    id,
                    asked_from,
                    events@,
                    refused,
                ),
                Replay::Pruned { floor } => exists|pruned: App|
                    #[trigger] self.pruned(pruned, plane, id, floor) && pruned.resynced(
                        after,
                        plane,
                        id,
                        subscribe,
                    ),
                Replay::Refused { reason } => {
                    &&& after.wf()
                    &&& after.sessions.watches@ == watches.update(
                        at,
                        Watch { resyncing: false, resync_again: false, ..watches[at] },
                    )
                    &&& after.sessions.rounds@ == self.sessions.rounds@.remove((plane, id))
                    &&& after.says(replay_failed_words(id, reason@), NoticeKind::Error)
                    &&& after == (App {
                        sessions: SessionsTab {
                            watches: after.sessions.watches,
                            rounds: after.sessions.rounds,
                            ..self.sessions
                        },
                        notice: after.notice,
                        ..*self
                    })
                },
            }
        }
    }

    fn replay_arrived(
        &mut self,
        at: usize,
        plane: Plane,
        id: &str,
        asked_from: u64,
        events: Vec<Event>,
        refused: u64,
    )
        requires
            old(self).wf(),
            at < old(self).sessions.watches@.len(),
            watched(old(self).sessions.watches@, plane, id@),
            watch_at(old(self).sessions.watches@, plane, id@) == at,
            old(self).sessions.watches@[at as int].is(plane, id@),
        ensures
            final(self).wf(),
            old(self).replayed(*final(self), plane, id@, asked_from, events@, refused),
    {
        let ghost start = *self;
        let ghost list = events@;
        let approvals = any_asks(&events);
        let (again, raised) = self.take_replay(at, plane, id, asked_from, events, refused);
        let ghost taken = *self;
        if again {
            self.resync(plane, id, false);
        } else {
            self.settle(plane, id);
        }
        let ghost rested = *self;
        if approvals {
            self.open_approval(plane, id);
        }
        proof {
            App::lemma_replayed(
                start,
                taken,
                raised@,
                rested,
                *self,
                plane,
                id@,
                asked_from,
                list,
                refused,
            );
        }
    }

    proof fn lemma_replayed(
        start: App,
        taken: App,
        raised: Watch,
        rested: App,
        after: App,
        plane: Plane,
        id: Seq<char>,
        asked_from: u64,
        events: Seq<Event>,
        refused: u64,
    )
        requires
            start.took_replay(taken, raised, plane, id, asked_from, events, refused),
            if App::another_round(
                raised,
                taken.sessions.watches@[watch_at(start.sessions.watches@, plane, id)],
                events.len(),
                start.sessions.watches@[watch_at(
                    start.sessions.watches@,
                    plane,
                    id,
                )].resync_again,
            ) {
                taken.resynced(rested, plane, id, false)
            } else {
                taken.settled(rested, plane, id)
            },
            if App::asks_approval(events) {
                rested.approval_opened(after, plane, id)
            } else {
                after == rested
            },
        ensures
            start.replayed(after, plane, id, asked_from, events, refused),
    {
        let _ = rested.approval_opened(after, plane, id);
    }

    /// The answer of a repair that was asked for from `asked_from`.
    pub fn resync_answered(
        &mut self,
        plane: Plane,
        id: &str,
        asked_from: u64,
        subscribe: bool,
        result: Replay,
    )
        requires
            old(self).wf(),
        ensures
            final(self).wf(),
            old(self).resync_settled(*final(self), plane, id@, asked_from, subscribe, result),
    {
        let at: usize = match self.sessions.find(plane, id) {
            Some(at) => at,
            None => {
                return;
            },
        };
        match result {
            Replay::Events { events, refused } => self.replay_arrived(
                at,
                plane,
                id,
                asked_from,
                events,
                refused,
            ),
            Replay::Pruned { floor } => self.restart_from(at, plane, id, subscribe, floor),
            Replay::Refused { reason } => self.replay_failed(at, plane, id, reason.as_str()),
        }
    }

    fn restart_from(&mut self, at: usize, plane: Plane, id: &str, subscribe: bool, floor: u64)
        requires
            old(self).wf(),
            at < old(self).sessions.watches@.len(),
            watched(old(self).sessions.watches@, plane, id@),
            watch_at(old(self).sessions.watches@, plane, id@) == at,
            old(self).sessions.watches@[at as int].is(plane, id@),
        ensures
            final(self).wf(),
            exists|pruned: App|
                #[trigger] old(self).pruned(pruned, plane, id@, floor) && pruned.resynced(
                    *final(self),
                    plane,
                    id@,
                    subscribe,
                ),
    {
        let ghost start = *self;
        self.prune(at, plane, id, floor);
        let ghost pruned = *self;
        self.resync(plane, id, subscribe);
        assert(start.pruned(pruned, plane, id@, floor) && pruned.resynced(
            *self,
            plane,
            id@,
            subscribe,
        ));
    }
}

/// Takes the answer of a repair into a watch. Whether another round is worth asking for, and the
/// cursor.
fn replay_watch(watch: &mut Watch, asked_from: u64, events: Vec<Event>, refused: u64) -> (r: (
    bool,
    u64,
    Ghost<Watch>,
))
    requires
        old(watch).wf(),
    ensures
        old(watch).raised(r.2@, App::proven_floor(asked_from, events@, old(watch).floor)),
        App::absorbed(
            (Watch {
                resyncing: false,
                resync_again: false,
                undecodable: counted_up(old(watch).undecodable, refused),
                ..r.2@
            }),
            *final(watch),
            events@,
        ),
        r.0 == App::another_round(r.2@, *final(watch), events@.len(), old(watch).resync_again),
        r.1 == final(watch).at(),
{
    let batch: u64 = events.len() as u64;
    let mut floor: u64 = watch.floor;
    if events.len() > 0 {
        let first: u64 = events[0].sequence;
        if first > asked_from && first - asked_from > 1 {
            floor = first - 1;
        }
    }
    watch.raise_floor(floor);
    let ghost raised = *watch;
    let before: u64 = watch.cursor();
    let again = watch.resync_again;
    watch.resyncing = false;
    watch.resync_again = false;
    watch.undecodable = watch.undecodable.saturating_add(refused);
    watch.absorb(events);
    let cursor: u64 = watch.cursor();
    let more = batch >= REPLAY_LIMIT || watch.has_gap();
    ((cursor > before && more) || again, cursor, Ghost(raised))
}

fn any_acknowledges(events: &Vec<Event>) -> (r: bool)
    ensures
        r == App::acknowledged(events@),
{
    let mut i: usize = 0;
    while i < events.len()
        invariant
            i <= events@.len(),
            forall|k: int| 0 <= k < i ==> !(#[trigger] events@[k]).kind.acknowledges(),
        decreases events@.len() - i,
    {
        if events[i].kind.acknowledges_reply() {
            assert(events@[i as int].kind.acknowledges());
            return true;
        }
        i += 1;
    }
    false
}

fn any_asks(events: &Vec<Event>) -> (r: bool)
    ensures
        r == App::asks_approval(events@),
{
    let mut i: usize = 0;
    while i < events.len()
        invariant
            i <= events@.len(),
            forall|k: int| 0 <= k < i ==> !((#[trigger] events@[k]).kind is ApprovalRequested),
        decreases events@.len() - i,
    {
        if matches!(events[i].kind, EventType::ApprovalRequested) {
            assert(events@[i as int].kind is ApprovalRequested);
            return true;
        }
        i += 1;
    }
    false
}

impl App {
    // ----- what is lost ---------------------------------------------------------------

    /// Which watched session a notification is about. The plane is on the wire, but a session that
    /// is watched is found without it.
    pub open spec fn located(&self, plane: Option<Plane>, id: Seq<char>, at: int) -> bool {
        let watches = self.sessions.watches@;
        if plane is Some && watched(watches, plane->0, id) {
            at == watch_at(watches, plane->0, id)
        } else {
            &&& 0 <= at < watches.len()
            &&& watches[at].id@ == id
            &&& forall|k: int| 0 <= k < at ==> (#[trigger] watches[k]).id@ != id
        }
    }

    pub open spec fn nowhere(&self, id: Seq<char>) -> bool {
        forall|k: int|
            0 <= k < self.sessions.watches@.len() ==> (#[trigger] self.sessions.watches@[k]).id@
                != id
    }

    fn locate(&self, plane: Option<Plane>, id: &str) -> (r: Option<usize>)
        requires
            self.wf(),
        ensures
            match r {
                Some(at) => at < self.sessions.watches@.len() && self.located(plane, id@, at as int)
                    && self.sessions.watches@[at as int].id@ == id@,
                None => self.nowhere(id@),
            },
    {
        if let Some(plane) = plane {
            if let Some(at) = self.sessions.find(plane, id) {
                return Some(at);
            }
        }
        let mut i: usize = 0;
        while i < self.sessions.watches.len()
            invariant
                i <= self.sessions.watches@.len(),
                self.wf(),
                plane is Some ==> !watched(self.sessions.watches@, plane->0, id@),
                forall|k: int|
                    0 <= k < i ==> (#[trigger] self.sessions.watches@[k]).id@ != id@,
            decreases self.sessions.watches@.len() - i,
        {
            if same(self.sessions.watches[i].id.as_str(), id) {
                return Some(i);
            }
            i += 1;
        }
        None
    }

    pub open spec fn lagged_words(id: Seq<char>, dropped: u64, cursor: nat) -> Seq<char> {
        "the gateway dropped "@ + decimal(dropped as nat) + " event frames for "@ + id
            + "; replaying from "@ + decimal(cursor)
    }

    /// A lag was noted, before the repair of it.
    pub open spec fn lag_noted(
        &self,
        after: App,
        at: int,
        id: Seq<char>,
        dropped: u64,
        last_sequence: u64,
    ) -> bool {
        let watches = self.sessions.watches@;
        let watch = watches[at];
        let now = after.sessions.watches@[at];
        &&& after.wf()
        &&& now.notes@ == watch.notes@.push((Note::Lagged { dropped }, last_sequence))
        &&& now == (Watch {
            dropped: counted_up(watch.dropped, dropped),
            notes: now.notes,
            ..watch
        })
        &&& after.sessions.watches@ == watches.update(at, now)
        &&& after.sessions.rounds@ == self.sessions.rounds@.remove((watch.plane, id))
        &&& after.says(App::lagged_words(id, dropped, watch.at()), NoticeKind::Warn)
        &&& after == (App {
            sessions: SessionsTab {
                watches: after.sessions.watches,
                rounds: after.sessions.rounds,
                ..self.sessions
            },
            notice: after.notice,
            ..*self
        })
    }

    fn note_lag(&mut self, at: usize, id: &str, dropped: u64, last_sequence: u64)
        requires
            old(self).wf(),
            at < old(self).sessions.watches@.len(),
            old(self).sessions.watches@[at as int].id@ == id@,
        ensures
            old(self).lag_noted(*final(self), at as int, id@, dropped, last_sequence),
    {
        let ghost watches = self.sessions.watches@;
        let mut watch = self.take_watch(at);
        let plane = watch.plane;
        watch.dropped = watch.dropped.saturating_add(dropped);
        watch.note(Note::Lagged { dropped }, last_sequence);
        let cursor: u64 = watch.cursor();
        self.return_watch(at, watch, Ghost(watches));
        self.sessions.rounds.forget(plane, id);
        let text = cat5(
            "the gateway dropped ",
            number(dropped).as_str(),
            " event frames for ",
            id,
            "; replaying from ",
        );
        self.inform(cat2(text.as_str(), number(cursor).as_str()), NoticeKind::Warn);
    }

    /// The gateway dropped frames of a session.
    pub open spec fn lag_taken(
        &self,
        after: App,
        plane: Option<Plane>,
        id: Seq<char>,
        dropped: u64,
        last_sequence: u64,
    ) -> bool {
        if self.nowhere(id) {
            after == *self
        } else {
            exists|at: int, noted: App|
                self.located(plane, id, at) && #[trigger] self.lag_noted(
                    noted,
                    at,
                    id,
                    dropped,
                    last_sequence,
                ) && noted.resynced(after, self.sessions.watches@[at].plane, id, false)
        }
    }

    pub fn lagged(&mut self, plane: Option<Plane>, id: &str, dropped: u64, last_sequence: u64)
        requires
            old(self).wf(),
        ensures
            final(self).wf(),
            old(self).lag_taken(*final(self), plane, id@, dropped, last_sequence),
    {
        let at: usize = match self.locate(plane, id) {
            Some(at) => at,
            None => {
                return;
            },
        };
        let ghost start = *self;
        assert(!self.nowhere(id@));
        let found = self.sessions.watches[at].plane;
        self.note_lag(at, id, dropped, last_sequence);
        let ghost noted = *self;
        self.resync(found, id, false);
        assert(start.located(plane, id@, at as int) && start.lag_noted(
            noted,
            at as int,
            id@,
            dropped,
            last_sequence,
        ) && noted.resynced(*self, found, id@, false));
    }

    /// A session's stream ended.
    pub open spec fn stream_ended(&self, after: App, at: int, id: Seq<char>, status: String) -> bool {
        let watches = self.sessions.watches@;
        let plane = watches[at].plane;
        &&& after.wf()
        &&& after.sessions.watches@ == watches.update(
            at,
            Watch { ended: Some(status), ..watches[at] },
        )
        &&& after.sessions.pending_replies@ == self.sessions.pending_replies@.remove((plane, id))
        &&& after.cursors@ == self.cursors@.remove((plane, id))
        &&& after == (App {
            sessions: SessionsTab {
                watches: after.sessions.watches,
                pending_replies: after.sessions.pending_replies,
                ..self.sessions
            },
            cursors: after.cursors,
            ..*self
        })
    }

    /// The gateway ended a stream.
    pub open spec fn end_taken(&self, after: App, plane: Option<Plane>, id: Seq<char>, status: String) -> bool {
        if self.nowhere(id) {
            after == *self
        } else {
            exists|at: int|
                self.located(plane, id, at) && #[trigger] self.stream_ended(after, at, id, status)
        }
    }

    pub fn ended(&mut self, plane: Option<Plane>, id: &str, status: String)
        requires
            old(self).wf(),
        ensures
            final(self).wf(),
            old(self).end_taken(*final(self), plane, id@, status),
    {
        let at: usize = match self.locate(plane, id) {
            Some(at) => at,
            None => {
                return;
            },
        };
        let ghost start = *self;
        let ghost watches = self.sessions.watches@;
        assert(!self.nowhere(id@));
        let mut watch = self.take_watch(at);
        let found = watch.plane;
        watch.end(status);
        self.return_watch(at, watch, Ghost(watches));
        self.sessions.clear_reply_pending(found, id);
        self.cursors.forget(found, id);
        assert(start.located(plane, id@, at as int) && start.stream_ended(
            *self,
            at as int,
            id@,
            status,
        ));
    }

    // ----- every watch at once --------------------------------------------------------

    /// A watch with a note at its newest event, and frames counted as dropped.
    pub open spec fn noted(before: Watch, after: Watch, note: Note, lost: u64) -> bool {
        &&& after.notes@ == before.notes@.push((note, before.top() as u64))
        &&& after == (Watch {
            notes: after.notes,
            dropped: counted_up(before.dropped, lost),
            ..before
        })
    }

    pub open spec fn all_noted(before: Seq<Watch>, after: Seq<Watch>, note: Note, lost: u64) -> bool {
        &&& after.len() == before.len()
        &&& forall|i: int|
            0 <= i < before.len() ==> App::noted(before[i], #[trigger] after[i], note, lost)
    }

    pub(crate) fn note_all_watches(&mut self, note: Note, lost: u64)
        requires
            old(self).wf(),
        ensures
            final(self).wf(),
            App::all_noted(
                old(self).sessions.watches@,
                final(self).sessions.watches@,
                note,
                lost,
            ),
            *final(self) == (App {
                sessions: SessionsTab {
                    watches: final(self).sessions.watches,
                    ..old(self).sessions
                },
                ..*old(self)
            }),
    {
        let ghost start = *self;
        let ghost watches = self.sessions.watches@;
        let mut i: usize = 0;
        while i < self.sessions.watches.len()
            invariant
                i <= self.sessions.watches@.len(),
                self.wf(),
                watches == start.sessions.watches@,
                self.sessions.watches@.len() == watches.len(),
                *self == (App {
                    sessions: SessionsTab {
                        watches: self.sessions.watches,
                        ..start.sessions
                    },
                    ..start
                }),
                forall|k: int|
                    0 <= k < i ==> App::noted(
                        watches[k],
                        #[trigger] self.sessions.watches@[k],
                        note,
                        lost,
                    ),
                forall|k: int|
                    i <= k < watches.len() ==> #[trigger] self.sessions.watches@[k] == watches[k],
            decreases self.sessions.watches@.len() - i,
        {
            let ghost before = self.sessions.watches@;
            let mut watch = self.take_watch(i);
            let at: u64 = watch.newest();
            watch.note(note, at);
            watch.dropped = watch.dropped.saturating_add(lost);
            self.return_watch(i, watch, Ghost(before));
            i += 1;
        }
    }

    /// The last of `n` sessions was repaired afresh.
    pub open spec fn refreshed(&self, after: App, sessions: Seq<Watch>, n: nat) -> bool {
        self.repaired_afresh(after, sessions[n - 1].plane, sessions[n - 1].id@)
    }

    /// A session was repaired as if it had never been repaired before.
    pub open spec fn repaired_afresh(&self, after: App, plane: Plane, id: Seq<char>) -> bool {
        exists|fresh: App|
            #[trigger] self.settled(fresh, plane, id) && fresh.resynced(after, plane, id, false)
    }

    /// The state after the first `n` watched sessions were repaired afresh, one after the other.
    pub open spec fn repaired(&self, after: App, n: nat) -> bool
        decreases n,
    {
        if n == 0 {
            after == *self
        } else {
            exists|before: App|
                self.repaired(before, (n - 1) as nat) && #[trigger] before.refreshed(
                    after,
                    self.sessions.watches@,
                    n,
                )
        }
    }

    fn repair_afresh(&mut self, plane: Plane, id: &str)
        requires
            old(self).wf(),
        ensures
            final(self).wf(),
            old(self).repaired_afresh(*final(self), plane, id@),
    {
        let ghost start = *self;
        self.settle(plane, id);
        let ghost fresh = *self;
        self.resync(plane, id, false);
        assert(start.settled(fresh, plane, id@) && fresh.resynced(*self, plane, id@, false));
    }

    fn repair_all(&mut self)
        requires
            old(self).wf(),
        ensures
            final(self).wf(),
            old(self).repaired(*final(self), old(self).sessions.watches@.len()),
    {
        let ghost start = *self;
        let size: usize = self.sessions.watches.len();
        let mut keys: Vec<(Plane, String)> = Vec::new();
        let mut j: usize = 0;
        while j < size
            invariant
                j <= size,
                size == start.sessions.watches@.len(),
                *self == start,
                keys@.len() == j,
                forall|k: int|
                    0 <= k < j ==> (#[trigger] keys@[k]).0 == start.sessions.watches@[k].plane
                        && keys@[k].1@ == start.sessions.watches@[k].id@,
            decreases size - j,
        {
            let watch = &self.sessions.watches[j];
            keys.push((watch.plane, watch.id.clone()));
            j += 1;
        }
        let mut i: usize = 0;
        while i < size
            invariant
                i <= size,
                size == start.sessions.watches@.len(),
                size == keys@.len(),
                self.wf(),
                start.repaired(*self, i as nat),
                forall|k: int|
                    0 <= k < size ==> (#[trigger] keys@[k]).0 == start.sessions.watches@[k].plane
                        && keys@[k].1@ == start.sessions.watches@[k].id@,
            decreases size - i,
        {
            let ghost before = *self;
            let plane = keys[i].0;
            let id = keys[i].1.as_str();
            self.repair_afresh(plane, id);
            proof {
                let n = (i + 1) as nat;
                let watch = start.sessions.watches@[n - 1];
                assert(keys@[i as int].0 == watch.plane && keys@[i as int].1@ == watch.id@);
                assert(before.refreshed(*self, start.sessions.watches@, n));
                assert(start.repaired(before, (n - 1) as nat));
                assert(start.repaired(*self, n));
            }
            i += 1;
        }
    }

    /// This side lost frames: every watch is marked, before they are repaired.
    pub open spec fn loss_noted(&self, after: App, total: u64) -> bool {
        let lost = (total - self.dropped_seen) as u64;
        &&& after.wf()
        &&& after.dropped_seen == total
        &&& App::all_noted(
            self.sessions.watches@,
            after.sessions.watches@,
            Note::ClientDropped,
            lost,
        )
        &&& after.says(
            "this client could not take "@ + decimal(lost as nat)
                + " event frames; replaying every watched session"@,
            NoticeKind::Warn,
        )
        &&& after == (App {
            sessions: SessionsTab { watches: after.sessions.watches, ..self.sessions },
            dropped_seen: total,
            notice: after.notice,
            ..*self
        })
    }

    /// The transport counts the frames it could not hand over. The count does not say whose they
    /// were, so every watched session is repaired.
    pub open spec fn loss_taken(&self, after: App, total: u64) -> bool {
        if total <= self.dropped_seen {
            after == *self
        } else {
            exists|noted: App|
                #[trigger] self.loss_noted(noted, total) && noted.repaired(
                    after,
                    noted.sessions.watches@.len(),
                )
        }
    }

    pub fn client_dropped(&mut self, total: u64)
        requires
            old(self).wf(),
        ensures
            final(self).wf(),
            old(self).loss_taken(*final(self), total),
    {
        if total <= self.dropped_seen {
            return;
        }
        let ghost start = *self;
        let lost: u64 = total - self.dropped_seen;
        self.dropped_seen = total;
        self.note_all_watches(Note::ClientDropped, lost);
        self.inform(
            cat3(
                "this client could not take ",
                number(lost).as_str(),
                " event frames; replaying every watched session",
            ),
            NoticeKind::Warn,
        );
        let ghost noted = *self;
        assert(start.loss_noted(noted, total));
        self.repair_all();
    }

    // ----- opening --------------------------------------------------------------------

    /// A session is open and watched, before its subscription was asked for.
    pub open spec fn opened(&self, after: App, plane: Plane, id: Seq<char>) -> bool {
        let watches = self.sessions.watches@;
        let now = after.sessions.watches@;
        &&& after.wf()
        &&& key_of(after.sessions.open) == Some((plane, id))
        &&& watched(now, plane, id)
        &&& if watched(watches, plane, id) {
            now == watches
        } else {
            &&& now.len() == watches.len() + 1
            &&& now.drop_last() == watches
            &&& now.last().is(plane, id)
            &&& now.last().at() == 0 && now.last().ended is None && !now.last().resyncing
        }
        &&& after.cursors@ == self.cursors@.insert(
            (plane, id),
            now[watch_at(now, plane, id)].at() as u64,
        )
        &&& after == (App {
            sessions: SessionsTab {
                watches: after.sessions.watches,
                open: after.sessions.open,
                focus: Pane::Detail,
                ..self.sessions
            },
            tab: Tab::Sessions,
            cursors: after.cursors,
            ..*self
        })
    }

    fn show_session(&mut self, plane: Plane, id: &str)
        requires
            old(self).wf(),
        ensures
            old(self).opened(*final(self), plane, id@),
    {
        let ghost start = *self;
        if self.sessions.find(plane, id).is_none() {
            let ghost watches = self.sessions.watches@;
            self.sessions.watches.push(Watch::new(plane, id.to_owned()));
            proof {
                let now = self.sessions.watches@;
                assert(now.drop_last() =~= watches);
                assert(now[watches.len() as int].is(plane, id@));
                assert forall|i: int, j: int| 0 <= i < j < now.len() implies !(
                #[trigger] now[i]).is((#[trigger] now[j]).plane, now[j].id@) by {
                    if j < watches.len() {
                        assert(!watches[i].is(watches[j].plane, watches[j].id@));
                    } else {
                        assert(!watches[i].is(plane, id@));
                    }
                }
            }
        }
        let cursor: u64 = match self.sessions.find(plane, id) {
            Some(at) => self.sessions.watches[at].cursor(),
            None => 0,
        };
        self.sessions.open = Some(Key::new(plane, id));
        self.sessions.focus = Pane::Detail;
        self.tab = Tab::Sessions;
        self.cursors.set(plane, id, cursor);
    }

    /// The session is open and its subscription asked for.
    pub open spec fn session_opened(&self, after: App, plane: Plane, id: Seq<char>) -> bool {
        exists|shown: App|
            #[trigger] self.opened(shown, plane, id) && shown.resynced(after, plane, id, true)
    }

    /// Opens a session, or opens it again: one watch, one subscription, and its cursor where a
    /// reconnect finds it.
    pub fn open_session(&mut self, plane: Plane, id: &str)
        requires
            old(self).wf(),
        ensures
            final(self).wf(),
            old(self).session_opened(*final(self), plane, id@),
    {
        let ghost start = *self;
        self.show_session(plane, id);
        let ghost shown = *self;
        self.resync(plane, id, true);
        assert(start.opened(shown, plane, id@) && shown.resynced(*self, plane, id@, true));
    }

    // ----- waiting --------------------------------------------------------------------

    /// The open transcript waits for its first word of reply. A lost connection or an unrepaired
    /// gap shows no progress that this client cannot see.
    pub open spec fn waits(&self) -> bool {
        &&& self.connection is Live
        &&& self.sessions.open_index() is Some
        &&& ({
            let watch = self.sessions.watches@[self.sessions.open_index()->0];
            let key = self.sessions.open->0@;
            &&& watch.ended is None
            &&& self.sessions.pending_replies@.contains(key) || (!watch.resyncing && !watch.gap()
                && watch.awaiting)
        })
    }

    pub fn waiting_for_open_agent_reply(&self) -> (r: bool)
        requires
            self.wf(),
        ensures
            r == self.waits(),
    {
        if !matches!(self.connection, crate::app::Connection::Live) {
            return false;
        }
        let at: usize = match self.sessions.open_at() {
            Some(at) => at,
            None => {
                return false;
            },
        };
        let watch = &self.sessions.watches[at];
        if watch.ended.is_some() {
            return false;
        }
        let pending = match &self.sessions.open {
            Some(key) => self.sessions.pending_replies.contains(key.plane, key.id.as_str()),
            None => false,
        };
        pending || (!watch.resyncing && !watch.has_gap() && watch.awaiting)
    }
}

// ----- laws -------------------------------------------------------------------------

/// A repair that goes out is for a watched session, from the cursor its history reaches, with no
/// other under way, and within the bound: a session that outruns its repairs keeps its gap.
pub proof fn lemma_repairs_are_bounded(
    before: App,
    after: App,
    plane: Plane,
    id: Seq<char>,
    subscribe: bool,
)
    requires
        before.resynced(after, plane, id, subscribe),
        after.queue@ != before.queue@,
        before.hello.lists(
            resync_call(
                plane,
                id,
                before.sessions.watches@[watch_at(
                    before.sessions.watches@,
                    plane,
                    id,
                )].at() as u64,
                subscribe,
            ).method,
        ),
    ensures
        watched(before.sessions.watches@, plane, id),
        ({
            let watch = before.sessions.watches@[watch_at(before.sessions.watches@, plane, id)];
            &&& !watch.resyncing
            &&& after.queue@ == before.queue@.with(
                resync_call(plane, id, watch.at() as u64, subscribe),
            )
        }),
        before.next_round(plane, id) <= MAX_RESYNC_ROUNDS,
        after.sessions.rounds@[(plane, id)] == before.next_round(plane, id),
{
}

/// An interruption while a repair is under way is remembered, and asks for nothing: the answer on
/// its way could not have seen it, so the repair is done again after it.
pub proof fn lemma_one_repair_at_a_time(
    before: App,
    after: App,
    plane: Plane,
    id: Seq<char>,
)
    requires
        before.resynced(after, plane, id, false),
        watched(before.sessions.watches@, plane, id),
        before.sessions.watches@[watch_at(before.sessions.watches@, plane, id)].resyncing,
        before.sessions.watches@[watch_at(before.sessions.watches@, plane, id)].ended is None,
    ensures
        after.queue == before.queue,
        after.sessions.watches@[watch_at(before.sessions.watches@, plane, id)].resync_again,
{
}

/// An approval never takes the screen from a dialog that is open.
pub proof fn lemma_an_approval_waits_for_an_open_dialog(
    before: App,
    after: App,
    plane: Plane,
    id: Seq<char>,
)
    requires
        before.overlay is Some,
        before.approval_opened(after, plane, id),
    ensures
        after == before,
{
}

} // verus!
