//! Everything that reaches the client, one message at a time.

use vstd::prelude::*;

use crate::answers::{Failure, Reply};
use crate::app::{App, Connection, NoticeKind, TICK_CEILING};
use crate::keys::{Hits, Standing};
use crate::ledger::Ledger;
use crate::model::Plane;
use crate::press::Press;
use crate::sessions::SessionsTab;
use crate::tags::Tag;
use crate::text::{cat2, same};
use crate::typing::{Given, Typed};
use crate::watch::{Event, Note};
use crate::wire::Hello;

verus! {

/// A notification, and what the known ones say.
#[derive(Debug)]
pub struct Notification {
    pub method: String,
    pub id: String,
    pub plane: Option<Plane>,
    /// The event, where it could be decoded.
    pub event: Option<Event>,
    pub dropped: u64,
    pub last_sequence: u64,
    pub status: String,
}

#[derive(Debug)]
pub enum Msg {
    Key { press: Press, hits: Hits, standing: Standing, given: Given },
    Paste(String),
    Tick,
    Redraw,
    Notification(Notification),
    Answer { tag: Tag, result: Result<Reply, Failure> },
    Reconnected(Box<Hello>),
    DaemonExited(String),
    NotificationsDropped(u64),
}

impl App {
    /// A notification. One this build does not know is said: it is evidence of a version skew.
    pub open spec fn notified(&self, after: App, n: Notification) -> bool {
        if n.method@ == "interactive.event"@ {
            self.event_taken(after, Plane::Interactive, n.id@, n.event)
        } else if n.method@ == "coding.event"@ {
            self.event_taken(after, Plane::Coding, n.id@, n.event)
        } else if n.method@ == "stream.lagged"@ {
            self.lag_taken(after, n.plane, n.id@, n.dropped, n.last_sequence)
        } else if n.method@ == "stream.ended"@ {
            self.end_taken(after, n.plane, n.id@, n.status)
        } else {
            self.noticed(
                after,
                "the gateway sent a notification this build does not know: "@ + n.method@,
                NoticeKind::Warn,
            )
        }
    }

    pub fn notification(&mut self, n: Notification)
        requires
            old(self).wf(),
        ensures
            final(self).wf(),
            old(self).notified(*final(self), n),
    {
        if same(n.method.as_str(), "interactive.event") {
            self.event(Plane::Interactive, n.id.as_str(), n.event);
        } else if same(n.method.as_str(), "coding.event") {
            self.event(Plane::Coding, n.id.as_str(), n.event);
        } else if same(n.method.as_str(), "stream.lagged") {
            self.lagged(n.plane, n.id.as_str(), n.dropped, n.last_sequence);
        } else if same(n.method.as_str(), "stream.ended") {
            self.ended(n.plane, n.id.as_str(), n.status);
        } else {
            self.inform(
                cat2(
                    "the gateway sent a notification this build does not know: ",
                    n.method.as_str(),
                ),
                NoticeKind::Warn,
            );
        }
    }

    /// The connection is back: every transcript says so where it stands, and the devices are read
    /// again.
    pub open spec fn reconnected(&self, after: App, hello: Hello) -> bool {
        exists|live: App|
            #[trigger] self.live_again(live, hello) && (App {
                devices: live.devices.stale(),
                ..live
            }).devices_polled(after)
    }

    /// The connection is back: every transcript says so where it stands.
    pub open spec fn live_again(&self, after: App, hello: Hello) -> bool {
        &&& App::all_noted(
            self.sessions.watches@,
            after.sessions.watches@,
            Note::Reconnected,
            0,
        )
        &&& after.says("the connection was re-established; resubscribing"@, NoticeKind::Warn)
        &&& after == (App {
            connection: Connection::Live,
            hello,
            sessions: SessionsTab { watches: after.sessions.watches, ..self.sessions },
            notice: after.notice,
            ..*self
        })
    }

    fn reconnect(&mut self, hello: Hello)
        requires
            old(self).wf(),
        ensures
            final(self).wf(),
            old(self).reconnected(*final(self), hello),
    {
        let ghost start = *self;
        self.connection = Connection::Live;
        self.hello = hello;
        self.note_all_watches(Note::Reconnected, 0);
        self.inform(
            "the connection was re-established; resubscribing".to_owned(),
            NoticeKind::Warn,
        );
        let ghost live = *self;
        assert(start.live_again(live, hello));
        self.devices_reconnected();
    }

    /// The runtime this client started is gone.
    pub open spec fn orphaned(&self, after: App, reason: Seq<char>) -> bool {
        &&& after.connection matches Connection::Lost { reason: words }
        &&& words@ == "the runtime exited: "@ + reason
        &&& after.says("the runtime this client started exited: "@ + reason, NoticeKind::Error)
        &&& after == (App { connection: after.connection, notice: after.notice, ..*self })
    }

    fn daemon_exited(&mut self, reason: &str)
        requires
            old(self).wf(),
        ensures
            final(self).wf(),
            old(self).orphaned(*final(self), reason@),
    {
        self.connection = Connection::Lost { reason: cat2("the runtime exited: ", reason) };
        self.inform(cat2("the runtime this client started exited: ", reason), NoticeKind::Error);
    }

    /// The client one tick on, with a notice whose time has come taken down.
    pub open spec fn one_on(&self) -> App {
        let ticks = (self.ticks + 1) as u64;
        App {
            ticks,
            notice: match self.notice {
                Some(notice) => if ticks >= notice.until {
                    None
                } else {
                    self.notice
                },
                None => None,
            },
            ..*self
        }
    }

    /// A quarter second passed.
    pub fn tick(&mut self)
        requires
            old(self).wf(),
            old(self).ticks < TICK_CEILING,
        ensures
            final(self).wf(),
            old(self).one_on().polled(*final(self)),
    {
        self.ticks += 1;
        self.expire_notice();
        self.poll();
    }

    /// What a message does. Only a key touches the ledger.
    pub open spec fn applied(
        &self,
        after: App,
        ledger: Ledger,
        ledger_after: Ledger,
        message: Msg,
        typed: Option<Typed>,
    ) -> bool {
        &&& !(message is Key) ==> typed is None && ledger_after == ledger
        &&& match message {
            Msg::Key { press, hits, standing, given } => typed is Some && self.typed(
                after,
                ledger,
                ledger_after,
                press,
                hits,
                standing,
                given,
                typed->0,
            ),
            Msg::Paste(text) => self.pasted(after, text@),
            Msg::Tick => self.one_on().polled(after),
            Msg::Redraw => after == *self,
            Msg::Notification(notification) => self.notified(after, notification),
            Msg::Answer { tag, result } => self.answered(after, tag, result),
            Msg::Reconnected(hello) => self.reconnected(after, *hello),
            Msg::DaemonExited(reason) => self.orphaned(after, reason@),
            Msg::NotificationsDropped(total) => self.loss_taken(after, total),
        }
    }

    /// What the clock and a key's timing must leave room for.
    pub open spec fn can_apply(&self, message: Msg) -> bool {
        match message {
            Msg::Tick => self.ticks < TICK_CEILING,
            Msg::Key { standing, .. } => standing.leader_ticks <= TICK_CEILING
                && standing.backtrack_ticks <= TICK_CEILING,
            _ => true,
        }
    }

    /// Returns where a key went, and what of it is left to others.
    pub fn apply(&mut self, ledger: &mut Ledger, message: Msg) -> (r: Option<Typed>)
        requires
            old(self).wf(),
            old(self).can_apply(message),
        ensures
            final(self).wf(),
            old(self).applied(*final(self), *old(ledger), *final(ledger), message, r),
    {
        match message {
            Msg::Key { press, hits, standing, given } => {
                let typed = self.take_key(ledger, press, &hits, standing, given);
                return Some(typed);
            },
            Msg::Paste(text) => self.paste(text.as_str()),
            Msg::Tick => self.tick(),
            Msg::Redraw => {},
            Msg::Notification(notification) => self.notification(notification),
            Msg::Answer { tag, result } => self.answer(tag, result),
            Msg::Reconnected(hello) => self.reconnect(*hello),
            Msg::DaemonExited(reason) => self.daemon_exited(reason.as_str()),
            Msg::NotificationsDropped(total) => self.client_dropped(total),
        }
        None
    }
}

} // verus!
