//! A key, from the press to what it did.
//!
//! What the keymap, the editor and the drawn ledger make of a press comes in beside it; everything
//! the press then does is done here.

use vstd::prelude::*;

use crate::app::{App, TICK_CEILING};
use crate::keys::{Hits, LeaderVerb, Route, Standing};
use crate::ledger::{Ledger, LedgerKey};
use crate::press::{KeyCode, Press};
use crate::sessions::{key_of, Key};
use crate::submit::Edit;

verus! {

/// What the parts of the client that hold no state here make of one press.
#[derive(Debug)]
pub struct Given {
    /// The verb the press has behind a leader key, and the line that names them all.
    pub verb: Option<LeaderVerb>,
    pub hint: String,
    pub details_bound: bool,
    /// The example the press chooses on a blank home.
    pub example: Option<usize>,
    /// The editor that has the focus, after the press.
    pub edit: Edit,
    /// How many rows the ledger draws, and the event under its cursor that is only excerpted.
    pub rows: usize,
    pub excerpt: Option<u64>,
    /// New ids, for a session and for a turn.
    pub session_id: String,
    pub turn_id: String,
}

/// Where a press went, and what of it is left to others.
#[derive(Debug)]
pub struct Typed {
    pub route: Route,
    /// The session that a completed chord goes back through.
    pub back: Option<Key>,
    /// The verb of a leader key that is carried out outside.
    pub verb: Option<LeaderVerb>,
    pub ledger: LedgerKey,
}

impl App {
    /// The ledger is drawn, and the press is one of its keys.
    pub open spec fn ledger_claims(&self, ledger: Ledger, press: Press) -> bool {
        self.ledger_drawn() && ledger.claims(press, self.prompt_empty())
    }

    /// A row of the ledger opened, and the event it excerpts was asked for.
    pub open spec fn row_opened(&self, after: App, r: LedgerKey, excerpt: Option<u64>) -> bool {
        match (key_of(self.sessions.open), excerpt) {
            (Some((plane, id)), Some(sequence)) => if r == LedgerKey::Expand || r
                == LedgerKey::Toggle {
                self.event_detail_fetched(after, plane, id, sequence)
            } else {
                after == *self
            },
            _ => after == *self,
        }
    }

    /// What a press did, once it is known where it went.
    pub open spec fn acted(
        &self,
        after: App,
        ledger: Ledger,
        ledger_after: Ledger,
        press: Press,
        hits: Hits,
        standing: Standing,
        given: Given,
        typed: Typed,
    ) -> bool {
        &&& typed.route != Route::Ledger ==> ledger_after == ledger && typed.ledger
            == LedgerKey::Passed
        &&& match typed.route {
            Route::Leader => self.led(
                after,
                press.code,
                given.verb,
                hits.settings,
                given.details_bound,
                given.hint@,
            ),
            Route::Composer => self.composer_keyed(
                after,
                given.edit,
                given.turn_id@,
                standing.drawn as int,
            ),
            Route::Home => self.home_keyed(
                after,
                press.code == KeyCode::Enter,
                given.example,
                given.edit,
                given.session_id@,
                given.turn_id@,
            ),
            Route::Ledger => {
                &&& ledger.keyed(
                    ledger_after,
                    press,
                    self.prompt_empty(),
                    given.rows as int,
                    typed.ledger,
                )
                &&& self.row_opened(after, typed.ledger, given.excerpt)
            },
            _ => after == *self,
        }
    }

    /// A press, all of it.
    pub open spec fn typed(
        &self,
        after: App,
        ledger: Ledger,
        ledger_after: Ledger,
        press: Press,
        hits: Hits,
        standing: Standing,
        given: Given,
        typed: Typed,
    ) -> bool {
        let read = Standing { ledger: self.ledger_claims(ledger, press), ..standing };
        &&& exists|mid: App|
            #[trigger] self.keyed(mid, press, hits, read, typed.route) && mid.acted(
                after,
                ledger,
                ledger_after,
                press,
                hits,
                read,
                given,
                typed,
            )
        &&& key_of(typed.back) == if typed.route is Backtrack {
            self.armed_session(hits.backtrack)
        } else {
            None
        }
        &&& typed.verb == if typed.route is Leader && press.code != KeyCode::Esc && given.verb
            is Some && given.verb->0.is_outside() {
            given.verb
        } else {
            None
        }
    }

    fn open_row(&mut self, r: LedgerKey, excerpt: Option<u64>)
        requires
            old(self).wf(),
        ensures
            final(self).wf(),
            old(self).row_opened(*final(self), r, excerpt),
    {
        if r != LedgerKey::Expand && r != LedgerKey::Toggle {
            return;
        }
        if let Some(sequence) = excerpt {
            let key = match &self.sessions.open {
                Some(key) => Some(Key::new(key.plane, key.id.as_str())),
                None => None,
            };
            if let Some(key) = key {
                let _ = self.fetch_event_detail(key.plane, key.id.as_str(), sequence);
            }
        }
    }

    fn act(
        &mut self,
        ledger: &mut Ledger,
        route: Route,
        press: Press,
        hits: &Hits,
        standing: &Standing,
        given: Given,
    ) -> (r: (Option<LeaderVerb>, LedgerKey))
        requires
            old(self).wf(),
            route == Route::Ledger ==> old(self).ledger_drawn(),
        ensures
            final(self).wf(),
            r.0 == if route is Leader && press.code != KeyCode::Esc && given.verb is Some
                && given.verb->0.is_outside() {
                given.verb
            } else {
                None
            },
            forall|typed: Typed|
                typed.route == route && typed.ledger == r.1 ==> #[trigger] old(self).acted(
                    *final(self),
                    *old(ledger),
                    *final(ledger),
                    press,
                    *hits,
                    *standing,
                    given,
                    typed,
                ),
    {
        match route {
            Route::Leader => {
                let left = self.leader_key(
                    press.code,
                    given.verb,
                    hits.settings,
                    given.details_bound,
                    given.hint.as_str(),
                );
                (left, LedgerKey::Passed)
            },
            Route::Composer => {
                self.composer_key(given.edit, given.turn_id.as_str(), standing.drawn);
                (None, LedgerKey::Passed)
            },
            Route::Home => {
                self.home_key(
                    press.code == KeyCode::Enter,
                    given.example,
                    given.edit,
                    given.session_id.as_str(),
                    given.turn_id.as_str(),
                );
                (None, LedgerKey::Passed)
            },
            Route::Ledger => {
                let r = self.details_key(ledger, press, given.rows);
                self.open_row(r, given.excerpt);
                (None, r)
            },
            _ => (None, LedgerKey::Passed),
        }
    }

    /// Takes one press through to its end.
    pub fn take_key(
        &mut self,
        ledger: &mut Ledger,
        press: Press,
        hits: &Hits,
        standing: Standing,
        given: Given,
    ) -> (r: Typed)
        requires
            old(self).wf(),
            standing.leader_ticks <= TICK_CEILING,
            standing.backtrack_ticks <= TICK_CEILING,
        ensures
            final(self).wf(),
            old(self).typed(
                *final(self),
                *old(ledger),
                *final(ledger),
                press,
                *hits,
                standing,
                given,
                r,
            ),
    {
        let ghost start = *self;
        let ghost asked = standing;
        let drawn = self.tab == crate::app::Tab::Sessions && self.sessions.show_event_details
            && self.sessions.open.is_some();
        let claims = drawn && ledger.claims_key(press, self.focused_prompt_empty());
        let read = Standing { ledger: claims, ..standing };
        let (route, back) = self.key(press, hits, &read);
        let ghost mid = *self;
        proof {
            assert(read == (Standing { ledger: start.ledger_claims(*old(ledger), press), ..asked }));
            assert(start.keyed(mid, press, *hits, read, route));
            if route == Route::Ledger {
                reveal(App::wants);
                assert(start.wants(route, press, *hits, read));
            }
        }
        let (verb, taken) = self.act(ledger, route, press, hits, &read, given);
        let typed = Typed { route, back, verb, ledger: taken };
        assert(mid.acted(*self, *old(ledger), *ledger, press, *hits, read, given, typed));
        typed
    }
}

} // verus!
