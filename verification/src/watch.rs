//! One watched session: which events of its history are held, where the hole is if there is one,
//! and which approvals it waits on.
//!
//! Events carry consecutive sequence numbers. A watch knows a floor, below which the runtime no
//! longer retains anything, and the events above it that have arrived. The cursor is the end of
//! the unbroken run above the floor: what a replay has to start after.

use vstd::prelude::*;

use crate::desktop::ApprovalRequest;
use crate::model::Plane;
use crate::text::same;

verus! {

#[derive(Debug, Clone, Copy, PartialEq, Eq, Structural)]
pub enum EventType {
    RunStarted,
    RunCompleted,
    RunFailed,
    RunCancelled,
    InputAccepted,
    TurnQueued,
    TurnStarted,
    OutputTextDelta,
    OutputTextFinal,
    TurnCompleted,
    TurnFailed,
    TurnInterrupted,
    ApprovalRequested,
    /// Any other event.
    Other,
}

impl EventType {
    /// An event of this kind shows that a request for a reply has reached the session.
    pub open spec fn acknowledges(self) -> bool {
        !(self is Other)
    }

    pub fn acknowledges_reply(self) -> (r: bool)
        ensures
            r == self.acknowledges(),
    {
        match self {
            EventType::Other => false,
            _ => true,
        }
    }
}

#[derive(Debug)]
pub struct Event {
    pub sequence: u64,
    pub kind: EventType,
    /// What an approval event asks.
    pub request: Option<ApprovalRequest>,
}

/// Something that happened to the stream, at a place in the transcript.
#[derive(Debug, Clone, Copy, PartialEq, Eq, Structural)]
pub enum Note {
    /// The gateway dropped frames.
    Lagged { dropped: u64 },
    /// This client could not take frames.
    ClientDropped,
    Reconnected,
}

/// An approval a session asked for, and whether an answer to it is on its way.
#[derive(Debug)]
pub struct Pending {
    pub request: ApprovalRequest,
    pub answering: bool,
}

#[derive(Debug)]
pub struct Watch {
    pub plane: Plane,
    pub id: String,
    pub floor: u64,
    /// The sequence numbers of the events held, ascending, each above the floor.
    pub held: Vec<u64>,
    pub approvals: Vec<Pending>,
    pub notes: Vec<(Note, u64)>,
    /// The status the session ended with.
    pub ended: Option<String>,
    /// A repair is in flight.
    pub resyncing: bool,
    /// Another interruption came while one was.
    pub resync_again: bool,
    pub undecodable: u64,
    pub dropped: u64,
    /// Rows up from the newest.
    pub scroll: usize,
    /// Stays at the newest row as rows are added.
    pub follow: bool,
    /// How far up the last frame could be scrolled.
    pub max_scroll: usize,
    /// The session owes a first word of reply, by what the transcript shows.
    pub awaiting: bool,
    /// The model a run said it used.
    pub model: Option<String>,
    /// Whether the session is planning, where an event has said so.
    pub planning: Option<bool>,
    /// How many follow-ups the runtime holds, where it has said so.
    pub queue_depth: Option<u64>,
    /// When the running turn started, in milliseconds since the Unix epoch.
    pub turn_started_ms: Option<u64>,
}

/// Strictly ascending, and above the floor.
pub open spec fn above(held: Seq<u64>, floor: u64) -> bool {
    &&& forall|i: int| 0 <= i < held.len() ==> floor < #[trigger] held[i]
    &&& forall|i: int, j: int| 0 <= i < j < held.len() ==> #[trigger] held[i] < #[trigger] held[j]
}

/// How many events follow the floor without a hole.
pub open spec fn run(held: Seq<u64>, floor: u64) -> nat
    decreases held.len(),
{
    if held.len() == 0 {
        0
    } else {
        let n = run(held.drop_last(), floor);
        if n == held.len() - 1 && held.last() == floor + held.len() {
            held.len()
        } else {
            n
        }
    }
}

proof fn lemma_run(held: Seq<u64>, floor: u64)
    requires
        above(held, floor),
    ensures
        run(held, floor) <= held.len(),
        forall|i: int| 0 <= i < run(held, floor) ==> #[trigger] held[i] == floor + 1 + i,
        run(held, floor) < held.len() ==> held[run(held, floor) as int] > floor + 1 + run(
            held,
            floor,
        ),
    decreases held.len(),
{
    if held.len() > 0 {
        let rest = held.drop_last();
        assert(above(rest, floor)) by {
            assert forall|i: int, j: int| 0 <= i < j < rest.len() implies #[trigger] rest[i]
                < #[trigger] rest[j] by {
                assert(held[i] < held[j]);
            }
            assert forall|i: int| 0 <= i < rest.len() implies floor < #[trigger] rest[i] by {
                assert(floor < held[i]);
            }
        }
        lemma_run(rest, floor);
        let n = run(rest, floor);
        assert forall|i: int| 0 <= i < run(held, floor) implies #[trigger] held[i] == floor + 1
            + i by {
            if i < rest.len() {
                assert(rest[i] == held[i]);
            }
        }
        if run(held, floor) < held.len() {
            if n < rest.len() {
                assert(rest[n as int] == held[n as int]);
            } else {
                if n > 0 {
                    assert(rest[n - 1] == held[n - 1]);
                    assert(held[n - 1] < held[n as int]);
                }
                assert(floor < held[n as int]);
            }
        }
    }
}

impl Watch {
    pub open spec fn wf(&self) -> bool {
        above(self.held@, self.floor)
    }

    pub open spec fn is(&self, plane: Plane, id: Seq<char>) -> bool {
        self.plane == plane && self.id@ == id
    }

    /// The last event of the unbroken run above the floor, or the floor itself.
    pub open spec fn at(&self) -> nat {
        self.floor as nat + run(self.held@, self.floor)
    }

    /// The newest event held, or the floor.
    pub open spec fn top(&self) -> nat {
        if self.held@.len() == 0 {
            self.floor as nat
        } else {
            self.held@.last() as nat
        }
    }

    /// Events are missing below one that is held.
    pub open spec fn gap(&self) -> bool {
        self.at() < self.top()
    }

    pub fn new(plane: Plane, id: String) -> (r: Watch)
        ensures
            r.wf(),
            r.is(plane, id@),
            r.at() == 0,
            r.floor == 0,
            r.held@.len() == 0,
            r.approvals@.len() == 0,
            r.notes@.len() == 0,
            r.ended is None,
            !r.resyncing && !r.resync_again && !r.awaiting,
            r.undecodable == 0 && r.dropped == 0,
            r.scroll == 0 && r.follow && r.max_scroll == 0,
            r.model is None && r.planning is None && r.queue_depth is None,
            r.turn_started_ms is None,
    {
        Watch {
            plane,
            id,
            floor: 0,
            held: Vec::new(),
            approvals: Vec::new(),
            notes: Vec::new(),
            ended: None,
            resyncing: false,
            resync_again: false,
            undecodable: 0,
            dropped: 0,
            scroll: 0,
            follow: true,
            max_scroll: 0,
            awaiting: false,
            model: None,
            planning: None,
            queue_depth: None,
            turn_started_ms: None,
        }
    }

    /// Where a replay has to start after.
    pub fn cursor(&self) -> (r: u64)
        requires
            self.wf(),
        ensures
            r == self.at(),
    {
        proof {
            lemma_run(self.held@, self.floor);
        }
        let mut cursor: u64 = self.floor;
        let mut i: usize = 0;
        assert(self.held@.take(0).len() == 0);
        while i < self.held.len()
            invariant
                i <= self.held@.len(),
                self.wf(),
                i <= run(self.held@, self.floor) <= self.held@.len(),
                cursor == self.floor + i,
                forall|k: int|
                    0 <= k < run(self.held@, self.floor) ==> #[trigger] self.held@[k] == self.floor
                        + 1 + k,
                run(self.held@, self.floor) < self.held@.len() ==> self.held@[run(
                    self.held@,
                    self.floor,
                ) as int] > self.floor + 1 + run(self.held@, self.floor),
            decreases self.held@.len() - i,
        {
            if cursor == u64::MAX || self.held[i] != cursor + 1 {
                assert(i == run(self.held@, self.floor)) by {
                    if i < run(self.held@, self.floor) {
                        assert(self.held@[i as int] == self.floor + 1 + i);
                    }
                }
                return cursor;
            }
            assert(i < run(self.held@, self.floor));
            cursor += 1;
            i += 1;
        }
        cursor
    }

    pub fn newest(&self) -> (r: u64)
        ensures
            r == self.top(),
    {
        if self.held.len() == 0 {
            self.floor
        } else {
            self.held[self.held.len() - 1]
        }
    }

    pub fn has_gap(&self) -> (r: bool)
        requires
            self.wf(),
        ensures
            r == self.gap(),
    {
        self.cursor() < self.newest()
    }

    /// The approvals after events arrived on top of those held: each event counts once, and one
    /// at or below the floor not at all.
    pub open spec fn asked(
        held: Set<u64>,
        floor: u64,
        approvals: Seq<Pending>,
        events: Seq<Event>,
    ) -> (Set<u64>, Seq<Pending>)
        decreases events.len(),
    {
        if events.len() == 0 {
            (held, approvals)
        } else {
            let (seen, pending) = Watch::asked(held, floor, approvals, events.drop_last());
            let last = events.last();
            if last.sequence <= floor || seen.contains(last.sequence) {
                (seen, pending)
            } else {
                (
                    seen.insert(last.sequence),
                    match last.request {
                        Some(request) => pending.push(Pending { request, answering: false }),
                        None => pending,
                    },
                )
            }
        }
    }

    /// Takes events in, in whatever order they came and however often.
    pub fn absorb(&mut self, events: Vec<Event>)
        requires
            old(self).wf(),
        ensures
            final(self).wf(),
            (final(self).held@.to_set(), final(self).approvals@) == Watch::asked(
                old(self).held@.to_set(),
                old(self).floor,
                old(self).approvals@,
                events@,
            ),
            *final(self) == (Watch {
                held: final(self).held,
                approvals: final(self).approvals,
                ..*old(self)
            }),
    {
        let ghost whole = events@;
        let ghost start = *self;
        assert(whole.take(0).len() == 0);
        for event in it: events.into_iter()
            invariant
                it.seq() == whole,
                self.wf(),
                (self.held@.to_set(), self.approvals@) == Watch::asked(
                    start.held@.to_set(),
                    start.floor,
                    start.approvals@,
                    whole.take(it.index() as int),
                ),
                *self == (Watch { held: self.held, approvals: self.approvals, ..start }),
        {
            let ghost at = it.index() as int;
            proof {
                assert(whole.take(at + 1).drop_last() =~= whole.take(at));
                assert(whole.take(at + 1).last() == event);
            }
            let Event { sequence, request, kind: _ } = event;
            let floor: u64 = self.floor;
            if insert(&mut self.held, floor, sequence) {
                if let Some(request) = request {
                    self.approvals.push(Pending { request, answering: false });
                }
            }
        }
        assert(whole.take(whole.len() as int) =~= whole);
    }

    /// The watch with a floor that is no lower, and nothing held at or below it.
    pub open spec fn raised(&self, after: Watch, floor: u64) -> bool {
        &&& after.wf()
        &&& after.floor == if floor > self.floor {
            floor
        } else {
            self.floor
        }
        &&& forall|s: u64|
            #[trigger] after.held@.contains(s) <==> self.held@.contains(s) && s > after.floor
        &&& after == (Watch { floor: after.floor, held: after.held, ..*self })
    }

    /// Nothing below the floor will ever arrive.
    pub fn raise_floor(&mut self, floor: u64)
        requires
            old(self).wf(),
        ensures
            old(self).raised(*final(self), floor),
    {
        let ghost before = self.held@;
        if floor <= self.floor {
            assert forall|s: u64| #[trigger] before.contains(s) implies s > self.floor by {
                let i = choose|i: int| 0 <= i < before.len() && before[i] == s;
                assert(before[i] > self.floor);
            }
            return;
        }
        self.floor = floor;
        let mut kept: Vec<u64> = Vec::new();
        let mut i: usize = 0;
        while i < self.held.len()
            invariant
                i <= self.held@.len(),
                self.held@ == before,
                floor == self.floor,
                forall|a: int, b: int|
                    0 <= a < b < before.len() ==> #[trigger] before[a] < #[trigger] before[b],
                above(kept@, floor),
                forall|k: int| 0 <= k < kept@.len() ==> before.contains(#[trigger] kept@[k]),
                forall|k: int|
                    0 <= k < i && before[k] > floor ==> kept@.contains(#[trigger] before[k]),
                forall|k: int, m: int|
                    0 <= k < kept@.len() && i <= m < before.len() ==> (#[trigger] kept@[k])
                        < #[trigger] before[m],
            decreases self.held@.len() - i,
        {
            let s: u64 = self.held[i];
            let ghost was = kept@;
            if s > floor {
                kept.push(s);
                assert(kept@[was.len() as int] == s);
                assert forall|k: int| 0 <= k < i + 1 && before[k] > floor implies kept@.contains(
                    #[trigger] before[k],
                ) by {
                    if k < i {
                        let j = choose|j: int| 0 <= j < was.len() && was[j] == before[k];
                        assert(kept@[j] == before[k]);
                    } else {
                        assert(kept@[was.len() as int] == before[k]);
                    }
                }
                assert forall|k: int| 0 <= k < kept@.len() implies before.contains(
                    #[trigger] kept@[k],
                ) by {
                    if k < was.len() {
                        assert(was[k] == kept@[k]);
                    } else {
                        assert(before[i as int] == kept@[k]);
                    }
                }
            }
            i += 1;
        }
        self.held = kept;
        assert forall|s: u64| #[trigger] self.held@.contains(s) <==> before.contains(s) && s
            > self.floor by {
            if self.held@.contains(s) {
                let k = choose|k: int| 0 <= k < self.held@.len() && self.held@[k] == s;
                assert(self.held@[k] > floor);
            }
            if before.contains(s) && s > self.floor {
                let k = choose|k: int| 0 <= k < before.len() && before[k] == s;
                assert(self.held@.contains(before[k]));
            }
        }
    }

    /// Leaves a mark in the transcript after the event `at`.
    pub fn note(&mut self, note: Note, at: u64)
        ensures
            final(self).notes@ == old(self).notes@.push((note, at)),
            *final(self) == (Watch { notes: final(self).notes, ..*old(self) }),
    {
        self.notes.push((note, at));
    }

    pub fn end(&mut self, status: String)
        ensures
            *final(self) == (Watch { ended: Some(status), ..*old(self) }),
    {
        self.ended = Some(status);
    }

    // ----- approvals ----------------------------------------------------------------

    /// The first approval nobody has answered, or the number of approvals.
    pub open spec fn first_open(approvals: Seq<Pending>) -> int
        decreases approvals.len(),
    {
        if approvals.len() == 0 {
            0
        } else {
            let at = Watch::first_open(approvals.drop_last());
            if at < approvals.len() - 1 || approvals.last().answering {
                if at < approvals.len() - 1 {
                    at
                } else {
                    approvals.len() as int
                }
            } else {
                approvals.len() - 1
            }
        }
    }

    pub open spec fn open_request(&self) -> Option<ApprovalRequest> {
        let at = Watch::first_open(self.approvals@);
        if at < self.approvals@.len() {
            Some(self.approvals@[at].request)
        } else {
            None
        }
    }

    proof fn lemma_first_open(approvals: Seq<Pending>, at: int)
        requires
            0 <= at <= approvals.len(),
            forall|i: int| 0 <= i < at ==> (#[trigger] approvals[i]).answering,
            at < approvals.len() ==> !approvals[at].answering,
        ensures
            Watch::first_open(approvals) == at,
        decreases approvals.len(),
    {
        if approvals.len() > 0 {
            let rest = approvals.drop_last();
            let below = if at <= rest.len() {
                at
            } else {
                rest.len() as int
            };
            assert forall|i: int| 0 <= i < below implies (#[trigger] rest[i]).answering by {
                assert(approvals[i].answering);
            }
            Watch::lemma_first_open(rest, below);
        }
    }

    /// The approval to show next.
    pub fn next_approval(&self) -> (r: Option<&ApprovalRequest>)
        ensures
            match r {
                Some(request) => self.open_request() == Some(*request),
                None => self.open_request() is None,
            },
    {
        let mut i: usize = 0;
        while i < self.approvals.len()
            invariant
                i <= self.approvals@.len(),
                forall|k: int| 0 <= k < i ==> (#[trigger] self.approvals@[k]).answering,
            decreases self.approvals@.len() - i,
        {
            if !self.approvals[i].answering {
                proof {
                    Watch::lemma_first_open(self.approvals@, i as int);
                }
                return Some(&self.approvals[i].request);
            }
            i += 1;
        }
        proof {
            Watch::lemma_first_open(self.approvals@, i as int);
        }
        None
    }

    /// The approval with this id is there and unanswered.
    pub open spec fn awaits(&self, request_id: Seq<char>) -> bool {
        exists|i: int|
            0 <= i < self.approvals@.len() && (#[trigger] self.approvals@[i]).request.request_id@
                == request_id && !self.approvals@[i].answering
    }

    pub fn waits_for(&self, request_id: &str) -> (r: bool)
        ensures
            r == self.awaits(request_id@),
    {
        let mut i: usize = 0;
        while i < self.approvals.len()
            invariant
                i <= self.approvals@.len(),
                forall|k: int|
                    0 <= k < i ==> !((#[trigger] self.approvals@[k]).request.request_id@
                        == request_id@ && !self.approvals@[k].answering),
            decreases self.approvals@.len() - i,
        {
            if !self.approvals[i].answering && same(
                self.approvals[i].request.request_id.as_str(),
                request_id,
            ) {
                assert(self.approvals@[i as int].request.request_id@ == request_id@);
                return true;
            }
            i += 1;
        }
        false
    }

    /// One waiting approval with this id is being answered.
    pub open spec fn claimed(&self, after: Watch, request_id: Seq<char>) -> bool {
        &&& exists|i: int|
            #![trigger self.approvals@[i]]
            0 <= i < self.approvals@.len() && self.approvals@[i].request.request_id@ == request_id
                && !self.approvals@[i].answering && after.approvals@ == self.approvals@.update(
                i,
                Pending { answering: true, ..self.approvals@[i] },
            )
        &&& after == (Watch { approvals: after.approvals, ..*self })
    }

    /// Claims an approval for an answer. Only the first claim of it succeeds.
    pub fn mark_approval_response(&mut self, request_id: &str) -> (r: bool)
        ensures
            r == old(self).awaits(request_id@),
            if r {
                old(self).claimed(*final(self), request_id@)
            } else {
                *final(self) == *old(self)
            },
    {
        let ghost start = *self;
        let mut i: usize = 0;
        while i < self.approvals.len()
            invariant
                i <= self.approvals@.len(),
                *self == start,
                start == *old(self),
                forall|k: int|
                    0 <= k < i ==> !((#[trigger] self.approvals@[k]).request.request_id@
                        == request_id@ && !self.approvals@[k].answering),
            decreases self.approvals@.len() - i,
        {
            if !self.approvals[i].answering && same(
                self.approvals[i].request.request_id.as_str(),
                request_id,
            ) {
                assert(start.awaits(request_id@)) by {
                    assert(start.approvals@[i as int].request.request_id@ == request_id@);
                }
                let Pending { request, answering: _ } = self.approvals.remove(i);
                self.approvals.insert(i, Pending { request, answering: true });
                assert(self.approvals@ =~= start.approvals@.update(
                    i as int,
                    Pending { answering: true, ..start.approvals@[i as int] },
                ));
                return true;
            }
            i += 1;
        }
        false
    }

    /// The approvals with this id wait for an answer again.
    pub open spec fn given_back(&self, after: Watch, request_id: Seq<char>) -> bool {
        &&& after.approvals@.len() == self.approvals@.len()
        &&& forall|i: int|
            0 <= i < self.approvals@.len() ==> #[trigger] after.approvals@[i] == (
            if self.approvals@[i].request.request_id@ == request_id {
                Pending { answering: false, ..self.approvals@[i] }
            } else {
                self.approvals@[i]
            })
        &&& after == (Watch { approvals: after.approvals, ..*self })
    }

    /// Gives an approval back whose answer did not arrive.
    pub fn retry_approval_response(&mut self, request_id: &str)
        ensures
            old(self).given_back(*final(self), request_id@),
    {
        let ghost start = *self;
        let mut i: usize = 0;
        while i < self.approvals.len()
            invariant
                i <= self.approvals@.len(),
                self.approvals@.len() == start.approvals@.len(),
                *self == (Watch { approvals: self.approvals, ..start }),
                forall|k: int|
                    0 <= k < i ==> #[trigger] self.approvals@[k] == (
                    if start.approvals@[k].request.request_id@ == request_id@ {
                        Pending { answering: false, ..start.approvals@[k] }
                    } else {
                        start.approvals@[k]
                    }),
                forall|k: int|
                    i <= k < start.approvals@.len() ==> #[trigger] self.approvals@[k]
                        == start.approvals@[k],
            decreases self.approvals@.len() - i,
        {
            if same(self.approvals[i].request.request_id.as_str(), request_id) {
                let ghost before = self.approvals@;
                let Pending { request, answering: _ } = self.approvals.remove(i);
                self.approvals.insert(i, Pending { request, answering: false });
                assert(self.approvals@ =~= before.update(
                    i as int,
                    Pending { answering: false, ..before[i as int] },
                ));
            }
            i += 1;
        }
    }

    pub open spec fn open_count(approvals: Seq<Pending>) -> nat
        decreases approvals.len(),
    {
        if approvals.len() == 0 {
            0
        } else {
            Watch::open_count(approvals.drop_last()) + if approvals.last().answering {
                0nat
            } else {
                1nat
            }
        }
    }

    /// How many approvals wait on a person.
    pub fn unanswered_approvals(&self) -> (r: usize)
        ensures
            r == Watch::open_count(self.approvals@),
    {
        let mut n: usize = 0;
        let mut i: usize = 0;
        assert(self.approvals@.take(0).len() == 0);
        while i < self.approvals.len()
            invariant
                i <= self.approvals@.len(),
                n <= i,
                n == Watch::open_count(self.approvals@.take(i as int)),
            decreases self.approvals@.len() - i,
        {
            assert(self.approvals@.take(i + 1).drop_last() =~= self.approvals@.take(i as int));
            if !self.approvals[i].answering {
                n += 1;
            }
            i += 1;
        }
        assert(self.approvals@.take(i as int) =~= self.approvals@);
        n
    }

    // ----- scrolling ----------------------------------------------------------------

    /// The watch after moving `delta` rows towards the newest. Moving up stops at what the last
    /// frame drew; at the newest row the transcript follows again.
    pub open spec fn scrolled(&self, delta: int) -> Watch {
        if delta < 0 {
            let far = self.scroll - delta;
            let wanted = if far > self.max_scroll {
                self.max_scroll as int
            } else {
                far
            };
            if wanted > 0 {
                Watch { follow: false, scroll: wanted as usize, ..*self }
            } else {
                *self
            }
        } else {
            let near = if self.scroll > delta {
                self.scroll - delta
            } else {
                0
            };
            Watch { scroll: near as usize, follow: self.follow || near == 0, ..*self }
        }
    }

    pub fn scroll_by(&mut self, delta: isize)
        requires
            delta > isize::MIN,
        ensures
            *final(self) == old(self).scrolled(delta as int),
    {
        if delta < 0 {
            let up: usize = (-delta) as usize;
            let wanted: usize = if self.max_scroll <= self.scroll || self.max_scroll - self.scroll
                <= up {
                self.max_scroll
            } else {
                self.scroll + up
            };
            if wanted > 0 {
                self.follow = false;
                self.scroll = wanted;
            }
        } else {
            let down: usize = delta as usize;
            self.scroll = if self.scroll > down {
                self.scroll - down
            } else {
                0
            };
            if self.scroll == 0 {
                self.follow = true;
            }
        }
    }
}

/// Puts a sequence number into its place. Whether it was new, and above the floor.
fn insert(held: &mut Vec<u64>, floor: u64, sequence: u64) -> (r: bool)
    requires
        above(old(held)@, floor),
    ensures
        above(final(held)@, floor),
        r == (sequence > floor && !old(held)@.to_set().contains(sequence)),
        r ==> final(held)@.to_set() == old(held)@.to_set().insert(sequence),
        !r ==> final(held)@ == old(held)@,
{
    let ghost before = held@;
    if sequence <= floor {
        return false;
    }
    let mut at: usize = held.len();
    while at > 0 && held[at - 1] > sequence
        invariant
            at <= held@.len(),
            held@ == before,
            forall|k: int| at <= k < before.len() ==> #[trigger] before[k] > sequence,
        decreases at,
    {
        at -= 1;
    }
    if at > 0 && held[at - 1] == sequence {
        assert(before[at - 1] == sequence);
        assert(before.contains(sequence));
        return false;
    }
    assert(!before.contains(sequence)) by {
        if before.contains(sequence) {
            let k = choose|k: int| 0 <= k < before.len() && before[k] == sequence;
            if k < at - 1 {
                assert(before[k] < before[at - 1]);
            }
        }
    }
    held.insert(at, sequence);
    assert(above(held@, floor)) by {
        assert forall|i: int, j: int| 0 <= i < j < held@.len() implies #[trigger] held@[i]
            < #[trigger] held@[j] by {
            if i < at && at <= j {
                assert(before[i] <= before[at - 1]);
            }
        }
    }
    assert(held@.to_set() =~= before.to_set().insert(sequence)) by {
        assert forall|s: u64| held@.contains(s) <==> before.contains(s) || s == sequence by {
            if held@.contains(s) {
                let k = choose|k: int| 0 <= k < held@.len() && held@[k] == s;
                if k < at {
                    assert(before[k] == s);
                } else if k > at {
                    assert(before[k - 1] == s);
                }
            }
            if before.contains(s) {
                let k = choose|k: int| 0 <= k < before.len() && before[k] == s;
                if k < at {
                    assert(held@[k] == s);
                } else {
                    assert(held@[k + 1] == s);
                }
            }
            if s == sequence {
                assert(held@[at as int] == s);
            }
        }
    }
    true
}

// ----- laws -------------------------------------------------------------------------

/// The cursor says what it is for: every event after the floor up to it is held, and the one
/// after it is not.
pub proof fn lemma_the_cursor_ends_the_unbroken_run(watch: Watch)
    requires
        watch.wf(),
    ensures
        watch.floor <= watch.at() <= watch.top(),
        forall|s: u64|
            watch.floor < s && s as nat <= watch.at() ==> #[trigger] watch.held@.contains(s),
        forall|s: u64| s as nat == watch.at() + 1 ==> !#[trigger] watch.held@.contains(s),
{
    lemma_run(watch.held@, watch.floor);
    let n = run(watch.held@, watch.floor);
    assert forall|s: u64| watch.floor < s && s as nat <= watch.at() implies
        #[trigger] watch.held@.contains(s) by {
        assert(watch.held@[s - watch.floor - 1] == s);
    }
    assert forall|s: u64| s as nat == watch.at() + 1 implies !#[trigger] watch.held@.contains(s) by {
        if watch.held@.contains(s) {
            let k = choose|k: int| 0 <= k < watch.held@.len() && watch.held@[k] == s;
            if k > n {
                assert(watch.held@[n as int] < watch.held@[k]);
            }
        }
    }
    if watch.held@.len() > 0 {
        let last = watch.held@.len() - 1;
        if n > 0 {
            assert(watch.held@[n - 1] == watch.floor + n);
            if n - 1 < last {
                assert(watch.held@[n - 1] < watch.held@[last]);
            }
        } else {
            assert(watch.floor < watch.held@[last]);
        }
    }
}

proof fn lemma_asked_grows(held: Set<u64>, floor: u64, approvals: Seq<Pending>, events: Seq<Event>)
    ensures
        held.subset_of(Watch::asked(held, floor, approvals, events).0),
    decreases events.len(),
{
    if events.len() > 0 {
        lemma_asked_grows(held, floor, approvals, events.drop_last());
    }
}

/// Events never move the cursor back.
pub proof fn lemma_events_never_move_the_cursor_back(before: Watch, after: Watch, events: Seq<Event>)
    requires
        before.wf(),
        after.wf(),
        after.floor == before.floor,
        after.held@.to_set() == Watch::asked(
            before.held@.to_set(),
            before.floor,
            before.approvals@,
            events,
        ).0,
    ensures
        before.at() <= after.at(),
        before.top() <= after.top(),
{
    lemma_asked_grows(before.held@.to_set(), before.floor, before.approvals@, events);
    lemma_the_cursor_ends_the_unbroken_run(before);
    lemma_the_cursor_ends_the_unbroken_run(after);
    if after.at() < before.at() {
        let s = (after.at() + 1) as u64;
        assert(before.at() <= before.top());
        assert(before.held@.contains(s));
        assert(before.held@.to_set().contains(s));
        assert(after.held@.to_set().contains(s));
        assert(after.held@.contains(s));
    }
    if before.held@.len() > 0 {
        let s = before.held@.last();
        assert(before.held@.to_set().contains(s));
        assert(after.held@.to_set().contains(s));
        let k = choose|k: int| 0 <= k < after.held@.len() && after.held@[k] == s;
        if k < after.held@.len() - 1 {
            assert(after.held@[k] < after.held@.last());
        }
    } else if after.held@.len() > 0 {
        assert(after.floor < after.held@[after.held@.len() - 1]);
    }
}

/// A transcript with no hole holds everything from its floor to its newest event.
pub proof fn lemma_no_gap_is_the_whole_history(watch: Watch, s: u64)
    requires
        watch.wf(),
        !watch.gap(),
        watch.floor < s,
        s as nat <= watch.top(),
    ensures
        watch.held@.contains(s),
{
    lemma_the_cursor_ends_the_unbroken_run(watch);
}

/// Taking the same events again changes nothing.
pub proof fn lemma_a_replay_of_what_is_held_changes_nothing(
    held: Set<u64>,
    floor: u64,
    approvals: Seq<Pending>,
    events: Seq<Event>,
)
    requires
        forall|i: int|
            0 <= i < events.len() ==> (#[trigger] events[i]).sequence <= floor || held.contains(
                events[i].sequence,
            ),
    ensures
        Watch::asked(held, floor, approvals, events) == (held, approvals),
    decreases events.len(),
{
    if events.len() > 0 {
        let rest = events.drop_last();
        assert forall|i: int| 0 <= i < rest.len() implies (#[trigger] rest[i]).sequence <= floor
            || held.contains(rest[i].sequence) by {
            assert(rest[i] == events[i]);
        }
        lemma_a_replay_of_what_is_held_changes_nothing(held, floor, approvals, rest);
        assert(events[events.len() - 1] == events.last());
    }
}

/// An approval is claimed by one answer at a time.
pub proof fn lemma_a_claimed_approval_is_not_claimed_again(
    watch: Watch,
    at: int,
    request_id: Seq<char>,
)
    requires
        0 <= at < watch.approvals@.len(),
        watch.approvals@[at].request.request_id@ == request_id,
        forall|i: int|
            0 <= i < watch.approvals@.len() && (
            #[trigger] watch.approvals@[i]).request.request_id@ == request_id ==> i == at,
        watch.approvals@[at].answering,
    ensures
        !watch.awaits(request_id),
{
}

/// Where history is no longer kept the cursor is carried past it: nothing below the floor is waited
/// for, and every event above it that was held still is.
pub proof fn lemma_a_raised_floor_carries_the_cursor(before: Watch, after: Watch, floor: u64, s: u64)
    requires
        before.wf(),
        before.raised(after, floor),
    ensures
        after.at() >= floor,
        after.at() >= before.at(),
        after.floor >= before.floor,
        s > floor && before.held@.contains(s) ==> after.held@.contains(s),
        after.held@.contains(s) ==> s > floor && before.held@.contains(s),
        after.approvals == before.approvals,
{
    lemma_the_cursor_ends_the_unbroken_run(before);
    lemma_the_cursor_ends_the_unbroken_run(after);
    if before.held@.contains(s) {
        let i = choose|i: int| 0 <= i < before.held@.len() && before.held@[i] == s;
        assert(before.held@[i] > before.floor);
    }
    if after.at() < before.at() {
        let next = (after.at() + 1) as u64;
        assert(before.held@.contains(next));
        assert(after.held@.contains(next));
    }
}

/// Claiming one approval for an answer touches no other, and giving it back undoes the claim.
pub proof fn lemma_a_claim_touches_no_other(
    before: Watch,
    claimed: Watch,
    after: Watch,
    request_id: Seq<char>,
    other: Seq<char>,
)
    requires
        before.claimed(claimed, request_id),
        claimed.given_back(after, request_id),
        other != request_id,
    ensures
        before.awaits(request_id),
        after.awaits(request_id),
        claimed.awaits(other) <==> before.awaits(other),
        after.awaits(other) <==> before.awaits(other),
        claimed.approvals@.len() == before.approvals@.len(),
        claimed.held == before.held,
{
    let at = choose|i: int|
        #![trigger before.approvals@[i]]
        0 <= i < before.approvals@.len() && before.approvals@[i].request.request_id@ == request_id
            && !before.approvals@[i].answering && claimed.approvals@ == before.approvals@.update(
            i,
            Pending { answering: true, ..before.approvals@[i] },
        );
    assert(after.approvals@[at].request.request_id@ == request_id);
    if before.awaits(other) {
        let i = choose|i: int|
            0 <= i < before.approvals@.len() && (#[trigger] before.approvals@[i]).request.request_id@
                == other && !before.approvals@[i].answering;
        assert(claimed.approvals@[i] == before.approvals@[i]);
        assert(after.approvals@[i] == claimed.approvals@[i]);
    }
    if claimed.awaits(other) {
        let i = choose|i: int|
            0 <= i < claimed.approvals@.len() && (
            #[trigger] claimed.approvals@[i]).request.request_id@ == other
                && !claimed.approvals@[i].answering;
        assert(before.approvals@[i] == claimed.approvals@[i]);
    }
    if after.awaits(other) {
        let i = choose|i: int|
            0 <= i < after.approvals@.len() && (#[trigger] after.approvals@[i]).request.request_id@
                == other && !after.approvals@[i].answering;
        assert(claimed.approvals@[i] == after.approvals@[i]);
        assert(before.approvals@[i] == claimed.approvals@[i]);
    }
}

proof fn lemma_open_at(approvals: Seq<Pending>)
    ensures
        0 <= Watch::first_open(approvals) <= approvals.len(),
        forall|i: int|
            0 <= i < Watch::first_open(approvals) ==> (#[trigger] approvals[i]).answering,
        Watch::first_open(approvals) < approvals.len() ==> !approvals[Watch::first_open(
            approvals,
        )].answering,
    decreases approvals.len(),
{
    if approvals.len() > 0 {
        let rest = approvals.drop_last();
        lemma_open_at(rest);
        assert(approvals[approvals.len() - 1] == approvals.last());
        assert forall|i: int| 0 <= i < Watch::first_open(approvals) implies (
        #[trigger] approvals[i]).answering by {
            if i < rest.len() {
                assert(rest[i] == approvals[i]);
            }
        }
    }
}

/// The approval that is put to a person is the first that nobody is answering, and there is none
/// only where every one is being answered.
pub proof fn lemma_the_oldest_open_approval_is_asked(watch: Watch) -> (at: int)
    ensures
        match watch.open_request() {
            Some(request) => {
                &&& 0 <= at < watch.approvals@.len()
                &&& watch.approvals@[at].request == request
                &&& !watch.approvals@[at].answering
                &&& forall|i: int| 0 <= i < at ==> (#[trigger] watch.approvals@[i]).answering
                &&& watch.awaits(request.request_id@)
            },
            None => forall|i: int|
                0 <= i < watch.approvals@.len() ==> (#[trigger] watch.approvals@[i]).answering,
        },
{
    lemma_open_at(watch.approvals@);
    let at = Watch::first_open(watch.approvals@);
    if at < watch.approvals@.len() {
        assert(watch.approvals@[at].request.request_id@ == watch.open_request()->0.request_id@);
    }
    at
}

} // verus!
