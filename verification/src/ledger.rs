//! The keys of the event ledger.
//!
//! The ledger shares the screen with the composer. It takes a key only while it is the pane that
//! is drawn and the draft is empty: a reader who has started typing keeps every character.

use vstd::prelude::*;

use crate::app::{App, NoticeKind, Tab};
use crate::forms::{clamp, clamped, shorten, shortened};
use crate::json::JsonView;
use crate::model::Plane;
use crate::outgoing::{left, lemma_a_detail_names_its_event, lemma_detail_method, newest};
use crate::press::{KeyCode, Press};
use crate::tags::{number_param, plain_call, text_param, CallView, Params, TagView};

verus! {

/// What the ledger's own keys change.
#[derive(Debug)]
pub struct Ledger {
    pub filter: String,
    /// The filter is open for typing.
    pub filtering: bool,
    pub selected: usize,
}

/// What became of a key.
#[derive(Debug, Clone, Copy, PartialEq, Eq, Structural)]
pub enum LedgerKey {
    /// It is not the ledger's.
    Passed,
    Taken,
    /// The row under the cursor opens, and what it excerpts is fetched.
    Expand,
    Collapse,
    Toggle,
}

impl Ledger {
    /// The filter holds another text.
    pub open spec fn filtered(&self, after: Ledger, filter: Seq<char>, filtering: bool) -> bool {
        &&& after.filter@ == filter
        &&& after == (Ledger { filter: after.filter, filtering, ..*self })
    }

    /// The row `at` is under the cursor, or the last one before it.
    pub open spec fn placed(&self, at: int) -> Ledger {
        Ledger { selected: at as usize, ..*self }
    }

    pub open spec fn filter_keyed(&self, after: Ledger, code: KeyCode, r: LedgerKey) -> bool {
        match code {
            KeyCode::Esc => r == LedgerKey::Taken && self.filtered(after, Seq::empty(), false),
            KeyCode::Enter => r == LedgerKey::Taken && after == (Ledger {
                filtering: false,
                ..*self
            }),
            KeyCode::Backspace => r == LedgerKey::Taken && self.filtered(
                after,
                shortened(self.filter@),
                true,
            ),
            KeyCode::Char(c) => r == LedgerKey::Taken && self.filtered(
                after,
                self.filter@.push(c),
                true,
            ),
            _ => r == LedgerKey::Passed && after == *self,
        }
    }

    pub open spec fn row_keyed(&self, after: Ledger, code: KeyCode, rows: int, r: LedgerKey) -> bool {
        match code {
            KeyCode::Char('j') | KeyCode::Down => r == LedgerKey::Taken && after == self.placed(
                clamped(self.selected as int, 1, rows),
            ),
            KeyCode::Char('k') | KeyCode::Up => r == LedgerKey::Taken && after == self.placed(
                clamped(self.selected as int, -1, rows),
            ),
            KeyCode::Char('g') => r == LedgerKey::Taken && after == self.placed(0),
            KeyCode::Char('G') => r == LedgerKey::Taken && after == self.placed(
                if rows == 0 {
                    0
                } else {
                    rows - 1
                },
            ),
            KeyCode::Char('/') => r == LedgerKey::Taken && self.filtered(
                after,
                Seq::empty(),
                true,
            ),
            KeyCode::Esc => if self.filter@.len() > 0 {
                r == LedgerKey::Taken && self.filtered(after, Seq::empty(), self.filtering)
            } else {
                r == LedgerKey::Passed && after == *self
            },
            KeyCode::Char('l') | KeyCode::Right => r == LedgerKey::Expand && after == *self,
            KeyCode::Char('h') | KeyCode::Left => r == LedgerKey::Collapse && after == *self,
            KeyCode::Enter => r == LedgerKey::Toggle && after == *self,
            _ => r == LedgerKey::Passed && after == *self,
        }
    }

    /// What a key does, where the ledger is drawn. A chord is never its own, the filter takes
    /// every character while it is open, and anything else waits for an empty draft.
    pub open spec fn keyed(
        &self,
        after: Ledger,
        press: Press,
        prompt_empty: bool,
        rows: int,
        r: LedgerKey,
    ) -> bool {
        if press.ctrl || press.alt {
            r == LedgerKey::Passed && after == *self
        } else if self.filtering {
            self.filter_keyed(after, press.code, r)
        } else if !prompt_empty {
            r == LedgerKey::Passed && after == *self
        } else {
            self.row_keyed(after, press.code, rows, r)
        }
    }

    fn clear(&mut self, filtering: bool)
        ensures
            old(self).filtered(*final(self), Seq::empty(), filtering),
    {
        self.filter = String::new();
        self.filtering = filtering;
        assert(self.filter@ =~= Seq::empty());
    }

    fn filter_key(&mut self, code: KeyCode) -> (r: LedgerKey)
        requires
            old(self).filtering,
        ensures
            old(self).filter_keyed(*final(self), code, r),
    {
        match code {
            KeyCode::Esc => self.clear(false),
            KeyCode::Enter => {
                self.filtering = false;
            },
            KeyCode::Backspace => {
                self.filter = shorten(self.filter.as_str());
            },
            KeyCode::Char(c) => self.filter.push(c),
            _ => {
                return LedgerKey::Passed;
            },
        }
        LedgerKey::Taken
    }

    fn row_key(&mut self, code: KeyCode, rows: usize) -> (r: LedgerKey)
        ensures
            old(self).row_keyed(*final(self), code, rows as int, r),
    {
        match code {
            KeyCode::Char('j') | KeyCode::Down => {
                self.selected = clamp(self.selected, 1, rows);
            },
            KeyCode::Char('k') | KeyCode::Up => {
                self.selected = clamp(self.selected, -1, rows);
            },
            KeyCode::Char('g') => {
                self.selected = 0;
            },
            KeyCode::Char('G') => {
                self.selected = if rows == 0 {
                    0
                } else {
                    rows - 1
                };
            },
            KeyCode::Char('/') => self.clear(true),
            KeyCode::Esc => {
                if self.filter.as_str().is_empty() {
                    return LedgerKey::Passed;
                }
                let filtering = self.filtering;
                self.clear(filtering);
            },
            KeyCode::Char('l') | KeyCode::Right => {
                return LedgerKey::Expand;
            },
            KeyCode::Char('h') | KeyCode::Left => {
                return LedgerKey::Collapse;
            },
            KeyCode::Enter => {
                return LedgerKey::Toggle;
            },
            _ => {
                return LedgerKey::Passed;
            },
        }
        LedgerKey::Taken
    }

    /// The key is the ledger's, whatever it does there.
    pub open spec fn claims(&self, press: Press, prompt_empty: bool) -> bool {
        if press.ctrl || press.alt {
            false
        } else if self.filtering {
            match press.code {
                KeyCode::Esc | KeyCode::Enter | KeyCode::Backspace | KeyCode::Char(_) => true,
                _ => false,
            }
        } else if !prompt_empty {
            false
        } else {
            match press.code {
                KeyCode::Char(c) => c == 'j' || c == 'k' || c == 'g' || c == 'G' || c == '/' || c
                    == 'l' || c == 'h',
                KeyCode::Down
                | KeyCode::Up
                | KeyCode::Right
                | KeyCode::Left
                | KeyCode::Enter => true,
                KeyCode::Esc => self.filter@.len() > 0,
                _ => false,
            }
        }
    }

    pub fn claims_key(&self, press: Press, prompt_empty: bool) -> (r: bool)
        ensures
            r == self.claims(press, prompt_empty),
    {
        if press.ctrl || press.alt {
            return false;
        }
        if self.filtering {
            return match press.code {
                KeyCode::Esc | KeyCode::Enter | KeyCode::Backspace | KeyCode::Char(_) => true,
                _ => false,
            };
        }
        prompt_empty && match press.code {
            KeyCode::Char(c) => c == 'j' || c == 'k' || c == 'g' || c == 'G' || c == '/' || c == 'l'
                || c == 'h',
            KeyCode::Down | KeyCode::Up | KeyCode::Right | KeyCode::Left | KeyCode::Enter => true,
            KeyCode::Esc => !self.filter.as_str().is_empty(),
            _ => false,
        }
    }

    pub fn key(&mut self, press: Press, prompt_empty: bool, rows: usize) -> (r: LedgerKey)
        ensures
            old(self).keyed(*final(self), press, prompt_empty, rows as int, r),
    {
        if press.ctrl || press.alt {
            LedgerKey::Passed
        } else if self.filtering {
            self.filter_key(press.code)
        } else if !prompt_empty {
            LedgerKey::Passed
        } else {
            self.row_key(press.code, rows)
        }
    }
}

impl App {
    /// The ledger is the pane that is drawn.
    pub open spec fn ledger_drawn(&self) -> bool {
        self.tab == Tab::Sessions && self.sessions.show_event_details && self.sessions.open is Some
    }

    /// One key for the ledger, of which `rows` rows are drawn; or it is left to the composer.
    pub fn details_key(&self, ledger: &mut Ledger, press: Press, rows: usize) -> (r: LedgerKey)
        ensures
            if self.ledger_drawn() {
                old(ledger).keyed(*final(ledger), press, self.prompt_empty(), rows as int, r)
            } else {
                r == LedgerKey::Passed && *final(ledger) == *old(ledger)
            },
    {
        if self.tab != Tab::Sessions || !self.sessions.show_event_details
            || self.sessions.open.is_none() {
            return LedgerKey::Passed;
        }
        let empty = self.focused_prompt_empty();
        ledger.key(press, empty, rows)
    }

    pub open spec fn event_detail_call(plane: Plane, id: Seq<char>, sequence: u64) -> CallView {
        plain_call(
            TagView::EventDetail { plane, id, sequence },
            plane.method_of("event_detail"@),
            JsonView::Object(seq![text_param("id"@, id), number_param("sequence"@, sequence)]),
        )
    }

    /// One event is fetched whole, or it is said that the excerpt is all there is.
    pub open spec fn event_detail_fetched(
        &self,
        after: App,
        plane: Plane,
        id: Seq<char>,
        sequence: u64,
    ) -> bool {
        if self.hello.lists(plane.method_of("event_detail"@)) {
            self.sent(after, App::event_detail_call(plane, id, sequence))
        } else {
            self.noticed(
                after,
                "this runtime does not serve "@ + plane.method_of("event_detail"@)
                    + " \u{2014} the excerpt is all there is here"@,
                NoticeKind::Info,
            )
        }
    }

    /// Returns whether the event was asked for.
    pub fn fetch_event_detail(&mut self, plane: Plane, id: &str, sequence: u64) -> (r: bool)
        requires
            old(self).wf(),
        ensures
            final(self).wf(),
            r == old(self).hello.lists(plane.method_of("event_detail"@)),
            old(self).event_detail_fetched(*final(self), plane, id@, sequence),
            r && !old(self).queue@.in_flight.contains(
                TagView::EventDetail { plane, id: id@, sequence },
            ) ==> {
                &&& left(*old(self), *final(self))
                &&& newest(*final(self)).params.member_text("id"@) == Some(id@)
                &&& newest(*final(self)).params.member("sequence"@) == Some(
                    JsonView::Unsigned(sequence),
                )
            },
    {
        let method = plane.method("event_detail");
        if !self.hello.serves(method.as_str()) {
            self.inform(
                crate::text::cat3(
                    "this runtime does not serve ",
                    method.as_str(),
                    " \u{2014} the excerpt is all there is here",
                ),
                NoticeKind::Info,
            );
            return false;
        }
        let params = Params::new().text("id", id).number("sequence", sequence);
        assert(params@ =~= seq![text_param("id"@, id@), number_param("sequence"@, sequence)]);
        let tag = crate::tags::Tag::EventDetail { plane, id: id.to_owned(), sequence };
        self.send_call(crate::tags::Call::new(tag, method.as_str(), params.done()));
        proof {
            lemma_detail_method(plane);
            if !old(self).queue@.in_flight.contains(tag@) {
                lemma_a_detail_names_its_event(*old(self), *self, plane, id@, sequence);
            }
        }
        true
    }
}

// ----- laws -------------------------------------------------------------------------

/// A reader who has started typing keeps every character: with text in the draft and no filter
/// open, the ledger takes nothing.
pub proof fn lemma_a_draft_keeps_its_keys(
    before: Ledger,
    after: Ledger,
    press: Press,
    rows: int,
    r: LedgerKey,
)
    requires
        !before.filtering,
        before.keyed(after, press, false, rows, r),
    ensures
        r == LedgerKey::Passed,
        after == before,
{
}

/// A chord with a modifier is never the ledger's.
pub proof fn lemma_a_chord_is_never_the_ledgers(
    before: Ledger,
    after: Ledger,
    press: Press,
    prompt_empty: bool,
    rows: int,
    r: LedgerKey,
)
    requires
        press.ctrl || press.alt,
        before.keyed(after, press, prompt_empty, rows, r),
    ensures
        r == LedgerKey::Passed,
        after == before,
{
}

/// The ledger acts on the keys it claims and on no others.
pub proof fn lemma_the_ledger_acts_on_what_it_claims(
    before: Ledger,
    after: Ledger,
    press: Press,
    prompt_empty: bool,
    rows: int,
    r: LedgerKey,
)
    requires
        before.keyed(after, press, prompt_empty, rows, r),
    ensures
        r != LedgerKey::Passed <==> before.claims(press, prompt_empty),
{
}

} // verus!
