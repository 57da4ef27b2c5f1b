//! Whether this client started the runtime it is attached to, and what leaving does about it.

use vstd::prelude::*;

use crate::readings::{lemma_a_number_inside_reads_back, number_at};
use crate::text::{cat2, cat3, decimal, number};
use crate::wire::{ClientError, Hello};

verus! {

/// It decides what the quit dialog may offer.
#[derive(Debug, Clone, Copy, PartialEq, Eq, Structural)]
pub enum Mode {
    Spawned { pid: u32 },
    Attached,
}

/// What the driver does after the loop returns.
#[derive(Debug, Clone, Copy, PartialEq, Eq, Structural)]
pub enum Quit {
    /// Leave the runtime running.
    Detach,
    /// Ask the runtime to shut down where it can be asked, then signal it.
    Shutdown,
    /// Close the socket and nothing else.
    Disconnect,
}

/// A runtime this client started, by its process.
#[derive(Debug, PartialEq, Eq, Structural)]
pub struct Daemon {
    pub pid: u32,
}

pub enum Ownership {
    Attached,
    Spawned(Box<Daemon>),
}

impl Ownership {
    pub open spec fn mode_of(&self) -> Mode {
        match *self {
            Ownership::Attached => Mode::Attached,
            Ownership::Spawned(daemon) => Mode::Spawned { pid: daemon.pid },
        }
    }

    pub fn mode(&self) -> (r: Mode)
        ensures
            r == self.mode_of(),
    {
        match self {
            Ownership::Attached => Mode::Attached,
            Ownership::Spawned(daemon) => Mode::Spawned { pid: daemon.pid },
        }
    }

    pub fn owned(&self) -> (r: Option<&Daemon>)
        ensures
            match *self {
                Ownership::Attached => r is None,
                Ownership::Spawned(daemon) => r == Some(&*daemon),
            },
    {
        match self {
            Ownership::Attached => None,
            Ownership::Spawned(daemon) => Some(daemon),
        }
    }

    pub fn owned_mut(&mut self) -> (r: Option<&mut Daemon>)
        ensures
            match *old(self) {
                Ownership::Attached => r is None && *final(self) == *old(self),
                Ownership::Spawned(daemon) => r is Some && *(r->0) == *daemon && *final(self)
                    == Ownership::Spawned(Box::new(*final(r->0))),
            },
    {
        match self {
            Ownership::Attached => None,
            Ownership::Spawned(daemon) => Some(&mut **daemon),
        }
    }

    pub fn into_spawned(self) -> (r: Option<Daemon>)
        ensures
            match self {
                Ownership::Attached => r is None,
                Ownership::Spawned(daemon) => r == Some(*daemon),
            },
    {
        match self {
            Ownership::Attached => None,
            Ownership::Spawned(daemon) => Some(*daemon),
        }
    }

    /// Gives a runtime up without stopping it, and says so where there was one.
    pub fn detach_with_notice(&mut self) -> (r: Option<String>)
        ensures
            *final(self) == Ownership::Attached,
            match *old(self) {
                Ownership::Attached => r is None,
                Ownership::Spawned(daemon) => r is Some && r->0@ == "the runtime is still running (pid "@
                    + decimal(daemon.pid as nat) + "); `ouro` attaches to it"@,
            },
    {
        let mut held = Ownership::Attached;
        std::mem::swap(self, &mut held);
        match held {
            Ownership::Attached => None,
            Ownership::Spawned(daemon) => Some(
                cat3(
                    "the runtime is still running (pid ",
                    number(daemon.pid as u64).as_str(),
                    "); `ouro` attaches to it",
                ),
            ),
        }
    }

    /// What carrying a quit choice out takes.
    pub open spec fn parting_of(&self, quit: Quit, hello: Hello) -> Parting {
        match *self {
            Ownership::Attached => Parting::Disconnect,
            Ownership::Spawned(daemon) => match quit {
                Quit::Detach | Quit::Disconnect => Parting::Detach { pid: daemon.pid },
                Quit::Shutdown => Parting::Shutdown {
                    pid: daemon.pid,
                    ask: hello.lists("runtime.shutdown"@) && hello.can_operate(),
                },
            },
        }
    }

    /// A runtime this client did not start is never stopped by it, whatever was chosen.
    pub fn parting(&self, quit: Quit, hello: &Hello) -> (r: Parting)
        ensures
            r == self.parting_of(quit, *hello),
    {
        match self {
            Ownership::Attached => Parting::Disconnect,
            Ownership::Spawned(daemon) => match quit {
                Quit::Detach | Quit::Disconnect => Parting::Detach { pid: daemon.pid },
                Quit::Shutdown => Parting::Shutdown {
                    pid: daemon.pid,
                    ask: hello.serves("runtime.shutdown") && hello.operates(),
                },
            },
        }
    }
}

#[derive(Debug, Clone, Copy, PartialEq, Eq, Structural)]
pub enum Parting {
    /// Stop the client; the runtime keeps running.
    Disconnect,
    Detach { pid: u32 },
    /// Ask the gateway first where it serves that, then stop the client and terminate the
    /// process within its grace.
    Shutdown { pid: u32, ask: bool },
}

pub open spec fn parting_text(parting: Parting) -> Option<Seq<char>> {
    match parting {
        Parting::Disconnect => Some("disconnected; the runtime keeps running"@),
        Parting::Detach { pid } => Some(
            "detached; the runtime is still running (pid "@ + decimal(pid as nat) + ")"@,
        ),
        Parting::Shutdown { pid, ask } => if ask {
            None
        } else {
            Some(
                "this build does not serve runtime.shutdown at this scope; signalling pid "@
                    + decimal(pid as nat),
            )
        },
    }
}

/// What is said before the process is waited for. A gateway that is asked speaks for itself.
pub fn parting_notice(parting: Parting) -> (r: Option<String>)
    ensures
        crate::text::said(r) == parting_text(parting),
{
    match parting {
        Parting::Disconnect => Some("disconnected; the runtime keeps running".to_owned()),
        Parting::Detach { pid } => Some(
            cat3(
                "detached; the runtime is still running (pid ",
                number(pid as u64).as_str(),
                ")",
            ),
        ),
        Parting::Shutdown { pid, ask } => if ask {
            None
        } else {
            Some(
                cat2(
                    "this build does not serve runtime.shutdown at this scope; signalling pid ",
                    number(pid as u64).as_str(),
                ),
            )
        },
    }
}

pub open spec fn shutdown_text(error: Option<ClientError>) -> Seq<char> {
    match error {
        None => "the runtime accepted runtime.shutdown"@,
        Some(ClientError::ConnectionClosed) => "the runtime accepted runtime.shutdown and closed the connection"@,
        Some(error) => "runtime.shutdown failed ("@ + error.words() + "); signalling instead"@,
    }
}

/// What the gateway's answer to a shutdown means. Closing the connection is what was asked for,
/// and the runtime may stop before it can answer.
pub fn shutdown_notice(error: Option<ClientError>) -> (r: String)
    ensures
        r@ == shutdown_text(error),
{
    match error {
        None => "the runtime accepted runtime.shutdown".to_owned(),
        Some(error) => match error {
            ClientError::ConnectionClosed => "the runtime accepted runtime.shutdown and closed the connection".to_owned(),
            _ => cat3(
                "runtime.shutdown failed (",
                error.message().as_str(),
                "); signalling instead",
            ),
        },
    }
}

/// Leaving stops a runtime only where this client started it and was told to shut it down.
pub proof fn lemma_only_an_owner_stops_a_runtime(ownership: Ownership, quit: Quit, hello: Hello)
    ensures
        ownership.parting_of(quit, hello) is Shutdown <==> ownership is Spawned && quit
            == Quit::Shutdown,
{
}

/// What is parted from is the process that this client started, and the gateway is asked to stop
/// exactly where it serves that at a scope that may; what is said names the process.
pub proof fn lemma_a_parting_is_from_its_own_process(
    daemon: Box<Daemon>,
    quit: Quit,
    hello: Hello,
)
    ensures
        ({
            let parting = Ownership::Spawned(daemon).parting_of(quit, hello);
            &&& quit == Quit::Shutdown ==> parting is Shutdown && parting->Shutdown_pid == daemon.pid
                && (parting->ask <==> hello.lists("runtime.shutdown"@) && hello.can_operate())
            &&& quit != Quit::Shutdown ==> parting is Detach && parting->Detach_pid == daemon.pid
                && parting_text(parting) is Some && number_at(parting_text(parting)->0, 44)
                == daemon.pid
            &&& parting_text(parting) is None <==> parting is Shutdown && parting->ask
        }),
        Ownership::Attached.parting_of(quit, hello) == Parting::Disconnect,
{
    reveal_strlit("detached; the runtime is still running (pid ");
    reveal_strlit(")");
    let head = "detached; the runtime is still running (pid "@;
    lemma_a_number_inside_reads_back(
        head + decimal(daemon.pid as nat) + ")"@,
        head,
        daemon.pid as nat,
        ")"@,
    );
}

} // verus!
