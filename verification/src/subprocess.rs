//! Bounded subprocesses: when to stop waiting, and how much output to keep.

use vstd::prelude::*;

use crate::text::{cat3, decimal, number};

verus! {

/// How much of one stream is kept.
pub const OUTPUT_CAP: usize = 1_048_576;

/// How many reads one turn makes, so that a noisy child cannot starve a cancellation.
pub const READS_PER_TURN: u8 = 16;

/// What one read of a pipe came to.
#[derive(Debug)]
pub enum ReadEvent {
    Bytes(Vec<u8>),
    End,
    WouldBlock,
    Interrupted,
    Failed(String),
}

/// What a turn of reading does next.
#[derive(Debug)]
pub enum DrainStep {
    Read,
    /// The turn is over, and whether the stream is.
    Done { closed: bool },
    Fail(String),
}

/// One turn of reading a pipe.
#[derive(Debug)]
pub struct Drain {
    reads: u8,
}

impl Drain {
    /// How many reads of this turn are behind it.
    pub closed spec fn count(&self) -> int {
        self.reads as int
    }

    pub fn start() -> (r: Drain)
        ensures
            r.count() == 0,
    {
        Drain { reads: 0 }
    }

    /// Takes what one read brought. Bytes are kept whole or not at all.
    pub fn step(&mut self, bytes: &mut Vec<u8>, event: ReadEvent) -> (r: DrainStep)
        requires
            0 <= old(self).count() < READS_PER_TURN,
        ensures
            final(self).count() == old(self).count() + 1,
            final(bytes)@ == if event is Bytes && old(bytes)@.len() + event->Bytes_0@.len()
                <= OUTPUT_CAP {
                old(bytes)@ + event->Bytes_0@
            } else {
                old(bytes)@
            },
            match event {
                ReadEvent::End => r == (DrainStep::Done { closed: true }),
                ReadEvent::WouldBlock => r == (DrainStep::Done { closed: false }),
                ReadEvent::Failed(reason) => r == DrainStep::Fail(reason),
                ReadEvent::Bytes(chunk) => if old(bytes)@.len() + chunk@.len() > OUTPUT_CAP {
                    r is Fail && r->Fail_0@ == "subprocess output exceeded 1 MiB"@
                } else if final(self).count() == READS_PER_TURN {
                    r == (DrainStep::Done { closed: false })
                } else {
                    r == DrainStep::Read
                },
                ReadEvent::Interrupted => if final(self).count() == READS_PER_TURN {
                    r == (DrainStep::Done { closed: false })
                } else {
                    r == DrainStep::Read
                },
            },
            old(bytes)@.len() <= OUTPUT_CAP ==> final(bytes)@.len() <= OUTPUT_CAP,
    {
        self.reads = self.reads + 1;
        match event {
            ReadEvent::End => DrainStep::Done { closed: true },
            ReadEvent::WouldBlock => DrainStep::Done { closed: false },
            ReadEvent::Failed(reason) => DrainStep::Fail(reason),
            ReadEvent::Bytes(chunk) => {
                if chunk.len() > OUTPUT_CAP || bytes.len() > OUTPUT_CAP - chunk.len() {
                    return DrainStep::Fail("subprocess output exceeded 1 MiB".to_owned());
                }
                let ghost before = bytes@;
                let mut i: usize = 0;
                assert(before + chunk@.take(0) =~= before);
                while i < chunk.len()
                    invariant
                        i <= chunk@.len(),
                        bytes@ == before + chunk@.take(i as int),
                    decreases chunk@.len() - i,
                {
                    bytes.push(chunk[i]);
                    i += 1;
                    assert(before + chunk@.take(i as int) =~= (before + chunk@.take(i - 1)).push(
                        chunk@[i - 1],
                    ));
                }
                assert(chunk@.take(i as int) =~= chunk@);
                if self.reads == READS_PER_TURN {
                    DrainStep::Done { closed: false }
                } else {
                    DrainStep::Read
                }
            },
            ReadEvent::Interrupted => if self.reads == READS_PER_TURN {
                DrainStep::Done { closed: false }
            } else {
                DrainStep::Read
            },
        }
    }
}

pub open spec fn deadline_text(seconds: nat) -> Seq<char> {
    "subprocess exceeded its "@ + decimal(seconds)
        + " second deadline; inspect the destination before retrying"@
}

/// Whether a command may be started at all.
pub fn before_start(cancelled: bool) -> (r: Result<(), String>)
    ensures
        match r {
            Ok(_) => !cancelled,
            Err(reason) => cancelled && reason@ == "cancelled by the operator"@,
        },
{
    if cancelled {
        Err("cancelled by the operator".to_owned())
    } else {
        Ok(())
    }
}

/// Whether to go on waiting for a running command. A cancellation is reported ahead of a deadline,
/// and both say that the destination may have changed.
pub fn before_turn(cancelled: bool, expired: bool, seconds: u64) -> (r: Result<(), String>)
    ensures
        match r {
            Ok(_) => !cancelled && !expired,
            Err(reason) => (cancelled || expired) && reason@ == if cancelled {
                "cancelled by the operator; the remote command may have already changed the destination"@
            } else {
                deadline_text(seconds as nat)
            },
        },
{
    if cancelled {
        Err(
            "cancelled by the operator; the remote command may have already changed the destination".to_owned(),
        )
    } else if expired {
        Err(
            cat3(
                "subprocess exceeded its ",
                number(seconds).as_str(),
                " second deadline; inspect the destination before retrying",
            ),
        )
    } else {
        Ok(())
    }
}

/// Whether a command's status may be collected: only once both of its pipes are closed, so that
/// its process id stays reserved while a descendant holds one.
pub fn may_collect(out_closed: bool, err_closed: bool) -> (r: bool)
    ensures
        r == (out_closed && err_closed),
{
    out_closed && err_closed
}

} // verus!
