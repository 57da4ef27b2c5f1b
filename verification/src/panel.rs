//! A panel's value, its freshness, and whether a refresh is in flight.

use vstd::prelude::*;


verus! {

#[derive(Debug)]
pub struct Loadable<T> {
    pub value: Option<T>,
    pub error: Option<String>,
    pub pending: bool,
    /// The tick at which a poll may next be issued.
    pub next_tick: u64,
}

impl<T> Default for Loadable<T> {
    fn default() -> (r: Loadable<T>)
        ensures
            r == Loadable::<T>::blank(),
    {
        Loadable { value: None, error: None, pending: false, next_tick: 0 }
    }
}

impl<T> Loadable<T> {
    /// A panel that has never been asked for.
    pub open spec fn blank() -> Loadable<T> {
        Loadable { value: None, error: None, pending: false, next_tick: 0 }
    }

    pub open spec fn is_due(&self, ticks: u64) -> bool {
        !self.pending && ticks >= self.next_tick
    }

    /// Whether a poll may be issued now: none is in flight, and its tick has come.
    pub fn due(&self, ticks: u64) -> (r: bool)
        ensures
            r == self.is_due(ticks),
    {
        !self.pending && ticks >= self.next_tick
    }

    pub fn started(&mut self)
        ensures
            *final(self) == (Loadable { pending: true, ..*old(self) }),
    {
        self.pending = true;
    }

    /// The panel after an answer. The last good value stays where the answer was an error.
    pub open spec fn after_ok(&self, value: T, ticks: u64, cadence: u64) -> Loadable<T> {
        Loadable {
            value: Some(value),
            error: None,
            pending: false,
            next_tick: (ticks + cadence) as u64,
        }
    }

    pub fn ok(&mut self, value: T, ticks: u64, cadence: u64)
        requires
            ticks + cadence <= u64::MAX,
        ensures
            *final(self) == old(self).after_ok(value, ticks, cadence),
    {
        self.value = Some(value);
        self.error = None;
        self.pending = false;
        self.next_tick = ticks + cadence;
    }

    pub open spec fn after_failure(&self, error: Option<String>, ticks: u64, cadence: u64) -> Loadable<
        T,
    > {
        Loadable {
            value: self.value,
            error,
            pending: false,
            next_tick: (ticks + cadence) as u64,
        }
    }

    pub fn failed(&mut self, error: String, ticks: u64, cadence: u64)
        requires
            ticks + cadence <= u64::MAX,
        ensures
            *final(self) == old(self).after_failure(Some(error), ticks, cadence),
    {
        self.error = Some(error);
        self.pending = false;
        self.next_tick = ticks + cadence;
    }

    /// Forces the next poll.
    pub fn invalidate(&mut self)
        ensures
            *final(self) == (Loadable { next_tick: 0, ..*old(self) }),
    {
        self.next_tick = 0;
    }
}

/// A panel that was asked for is not asked for again until it is answered, and then not before
/// its cadence has passed.
pub proof fn lemma_one_question_at_a_time<T>(
    panel: Loadable<T>,
    value: T,
    error: String,
    asked: u64,
    answered: u64,
    cadence: u64,
    later: u64,
)
    requires
        answered + cadence <= u64::MAX,
    ensures
        !(Loadable { pending: true, ..panel }).is_due(asked),
        panel.after_ok(value, answered, cadence).is_due(later) <==> later >= answered + cadence,
        panel.after_failure(Some(error), answered, cadence).is_due(later) <==> later >= answered
            + cadence,
        panel.after_failure(Some(error), answered, cadence).value == panel.value,
{
}

/// A panel that was answered rests for its cadence, and may be asked for again once that is over.
/// One that was refused does the same, and keeps the value it had.
pub proof fn lemma_a_panel_rests_for_its_cadence<T>(
    panel: Loadable<T>,
    value: T,
    error: Option<String>,
    ticks: u64,
    cadence: u64,
    then: u64,
)
    requires
        ticks + cadence <= u64::MAX,
    ensures
        panel.after_ok(value, ticks, cadence).is_due(then) <==> then >= ticks + cadence,
        panel.after_ok(value, ticks, cadence).value == Some(value),
        panel.after_ok(value, ticks, cadence).error is None,
        panel.after_failure(error, ticks, cadence).is_due(then) <==> then >= ticks + cadence,
        panel.after_failure(error, ticks, cadence).value == panel.value,
        panel.after_failure(error, ticks, cadence).error == error,
{
}

} // verus!
