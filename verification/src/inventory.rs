//! The devices view: when the inventory is asked for, what its answers do, and its keys.

use vstd::prelude::*;

use crate::access::{digit_row, row_for_digit};
use crate::app::{App, Overlay};
use crate::devices::{clean, devices_refusal, drawn_words, filter_after, narrowed, refuses,
    DevicesState, FleetSubset, Inventory, Refusal, NARROWING_ROWS};
use crate::forms::{down, next_row, prior_row, shorten, shortened, up};
use crate::json::{Json, JsonView};
use crate::panel::Loadable;
use crate::press::KeyCode;
use crate::tags::{no_params, nothing, plain_call, Call, Tag, TagView};
use crate::text::{cat3, said};
use crate::wire::ClientError;

verus! {

/// A list of machines is read when it is asked for, and not again by itself.
pub const INVENTORY_HOLD: u64 = 0x3fff_ffff_ffff_ffff;

/// How many rows a page of the view is.
pub const DEVICES_PAGE: usize = 10;

impl DevicesState {
    pub open spec fn row_count(&self) -> nat {
        match self.inventory.value {
            Some(inventory) => self.shown_rows(inventory).len(),
            None => 0,
        }
    }

    /// The list is long enough to be narrowed.
    pub open spec fn narrows(&self) -> bool {
        self.inventory.value is Some && self.inventory.value->0.devices@.len() > NARROWING_ROWS
    }

    fn rows(&self) -> (r: usize)
        ensures
            r == self.row_count(),
    {
        match &self.inventory.value {
            Some(inventory) => {
                let rows = self.visible(inventory);
                assert(rows@.len() == crate::devices::behind(rows@).len());
                rows.len()
            },
            None => 0,
        }
    }

    fn narrows_now(&self) -> (r: bool)
        ensures
            r == self.narrows(),
    {
        match &self.inventory.value {
            Some(inventory) => self.narrowing(inventory),
            None => false,
        }
    }

    /// Both lists are read again at the next chance.
    pub open spec fn stale(&self) -> DevicesState {
        DevicesState {
            inventory: Loadable { next_tick: 0, ..self.inventory },
            fallback: Loadable { next_tick: 0, ..self.fallback },
            ..*self
        }
    }

    /// The view with an inventory: nothing is refused any more, and the cursor stays on a row.
    pub open spec fn filled(&self, inventory: Inventory, ticks: u64) -> DevicesState {
        let rows = self.shown_rows(inventory).len();
        let last = if rows == 0 {
            0
        } else {
            rows - 1
        };
        DevicesState {
            refusal: None,
            cursor: if self.cursor > last {
                last as usize
            } else {
                self.cursor
            },
            inventory: self.inventory.after_ok(inventory, ticks, INVENTORY_HOLD),
            ..*self
        }
    }

    fn fill(&mut self, inventory: Inventory, ticks: u64)
        requires
            ticks + INVENTORY_HOLD <= u64::MAX,
        ensures
            *final(self) == old(self).filled(inventory, ticks),
    {
        let rows: usize = {
            let rows = self.visible(&inventory);
            assert(rows@.len() == crate::devices::behind(rows@).len());
            rows.len()
        };
        let last: usize = if rows == 0 {
            0
        } else {
            rows - 1
        };
        self.refusal = None;
        if self.cursor > last {
            self.cursor = last;
        }
        self.inventory.ok(inventory, ticks, INVENTORY_HOLD);
    }

    /// The view as it is while a key that does not page is acted on.
    pub open spec fn unpaged(&self, code: KeyCode) -> DevicesState {
        match code {
            KeyCode::PageDown | KeyCode::PageUp => *self,
            _ => DevicesState { inventory_paging: false, ..*self },
        }
    }

    /// The search field holds `query`, and the cursor is on the first row.
    pub open spec fn searched(&self, after: DevicesState, query: Seq<char>, searching: bool) -> bool {
        &&& after.query@ == query
        &&& after == (DevicesState { query: after.query, searching, cursor: 0, ..*self })
    }

    /// What a key does while the search field is open: every printable character is typed.
    pub open spec fn search_keyed(&self, after: DevicesState, code: KeyCode) -> bool {
        match code {
            KeyCode::Esc => self.searched(after, Seq::empty(), false),
            KeyCode::Enter => after == (DevicesState { searching: false, ..*self }),
            KeyCode::Backspace => self.searched(after, shortened(self.query@), true),
            KeyCode::Char(c) => self.searched(after, self.query@.push(c), true),
            _ => after == *self,
        }
    }

    fn search_key(&mut self, code: KeyCode)
        requires
            old(self).searching,
        ensures
            old(self).search_keyed(*final(self), code),
    {
        match code {
            KeyCode::Esc => {
                self.searching = false;
                self.query = String::new();
                self.cursor = 0;
                assert(self.query@ =~= Seq::empty());
            },
            KeyCode::Enter => {
                self.searching = false;
            },
            KeyCode::Backspace => {
                self.query = shorten(self.query.as_str());
                self.cursor = 0;
            },
            KeyCode::Char(c) => {
                self.query.push(c);
                self.cursor = 0;
            },
            _ => {},
        }
    }

    /// What a key does to the list itself, where it does nothing else. Below the length at which
    /// a list is narrowed, the keys that narrow it do nothing; a digit selects a row only where
    /// rows are numbered.
    pub open spec fn list_keyed(&self, after: DevicesState, code: KeyCode, numbered: bool) -> bool {
        match code {
            KeyCode::Char('/') => if self.narrows() {
                after.query@ == Seq::<char>::empty() && after == (DevicesState {
                    searching: true,
                    query: after.query,
                    ..*self
                })
            } else {
                after == *self
            },
            KeyCode::Char('f') => after == if self.narrows() {
                DevicesState { filter: filter_after(self.filter), cursor: 0, ..*self }
            } else {
                *self
            },
            KeyCode::Char('j') | KeyCode::Down => after == (DevicesState {
                cursor: next_row(self.cursor, self.row_count()),
                ..*self
            }),
            KeyCode::Char('k') | KeyCode::Up => after == (DevicesState {
                cursor: prior_row(self.cursor),
                ..*self
            }),
            KeyCode::PageDown => after == (DevicesState {
                inventory_paging: true,
                scroll: if self.scroll + DEVICES_PAGE > usize::MAX {
                    usize::MAX
                } else {
                    (self.scroll + DEVICES_PAGE) as usize
                },
                ..*self
            }),
            KeyCode::PageUp => after == (DevicesState {
                inventory_paging: true,
                scroll: if self.scroll < DEVICES_PAGE {
                    0
                } else {
                    (self.scroll - DEVICES_PAGE) as usize
                },
                ..*self
            }),
            KeyCode::Enter => after == (DevicesState { details: !self.details, ..*self }),
            KeyCode::Char(c) => after == if numbered && digit_row(c) is Some && digit_row(c)->0
                < self.row_count() {
                DevicesState { cursor: digit_row(c)->0 as usize, ..*self }
            } else {
                *self
            },
            _ => after == *self,
        }
    }

    fn list_key(&mut self, code: KeyCode, numbered: bool)
        ensures
            old(self).list_keyed(*final(self), code, numbered),
    {
        let rows: usize = self.rows();
        let narrows = self.narrows_now();
        match code {
            KeyCode::Char('/') => {
                if narrows {
                    self.searching = true;
                    self.query = String::new();
                    assert(self.query@ =~= Seq::<char>::empty());
                }
            },
            KeyCode::Char('f') => {
                if narrows {
                    self.filter = self.filter.next();
                    self.cursor = 0;
                }
            },
            KeyCode::Char('j') | KeyCode::Down => {
                self.cursor = down(self.cursor, rows);
            },
            KeyCode::Char('k') | KeyCode::Up => {
                self.cursor = up(self.cursor);
            },
            KeyCode::PageDown => {
                self.inventory_paging = true;
                self.scroll = self.scroll.saturating_add(DEVICES_PAGE);
            },
            KeyCode::PageUp => {
                self.inventory_paging = true;
                self.scroll = self.scroll.saturating_sub(DEVICES_PAGE);
            },
            KeyCode::Enter => {
                self.details = !self.details;
            },
            KeyCode::Char(c) => {
                if numbered {
                    if let Some(row) = row_for_digit(c) {
                        if row < rows {
                            self.cursor = row;
                        }
                    }
                }
            },
            _ => {},
        }
    }
}

impl App {
    // ----- asking -------------------------------------------------------------------

    /// The status of the fleet is asked for in place of an inventory, where it is served.
    pub open spec fn fallback_polled(&self, after: App) -> bool {
        if self.hello.lists("fleet.status"@) && self.devices.fallback.is_due(self.ticks) {
            &&& after.queue@ == self.queue@.with(
                plain_call(TagView::FleetStatus, "fleet.status"@, no_params()),
            )
            &&& after == (App {
                devices: DevicesState {
                    fallback: Loadable { pending: true, ..self.devices.fallback },
                    ..self.devices
                },
                queue: after.queue,
                ..*self
            })
        } else {
            after == *self
        }
    }

    fn poll_devices_fallback(&mut self)
        requires
            old(self).wf(),
        ensures
            final(self).wf(),
            old(self).fallback_polled(*final(self)),
    {
        if !self.hello.serves("fleet.status") {
            return;
        }
        if self.devices.fallback.due(self.ticks) {
            self.devices.fallback.started();
            self.queue.put(Call::new(Tag::FleetStatus, "fleet.status", nothing()));
        }
    }

    /// The inventory is asked for where the view is open and it is due. A gateway that does not
    /// serve it is asked for the status of the fleet instead.
    pub open spec fn devices_polled(&self, after: App) -> bool {
        if !(self.overlay matches Some(Overlay::Devices)) {
            after == *self
        } else if self.hello.lists("fleet.devices"@) {
            if self.devices.inventory.is_due(self.ticks) {
                &&& after.queue@ == self.queue@.with(
                    plain_call(TagView::Inventory, "fleet.devices"@, no_params()),
                )
                &&& after == (App {
                    devices: DevicesState {
                        inventory: Loadable { pending: true, ..self.devices.inventory },
                        ..self.devices
                    },
                    queue: after.queue,
                    ..*self
                })
            } else {
                after == *self
            }
        } else {
            (App {
                devices: DevicesState {
                    refusal: Some(Refusal::CapabilityAbsent),
                    ..self.devices
                },
                ..*self
            }).fallback_polled(after)
        }
    }

    pub fn poll_devices(&mut self)
        requires
            old(self).wf(),
        ensures
            final(self).wf(),
            old(self).devices_polled(*final(self)),
    {
        match &self.overlay {
            Some(Overlay::Devices) => {},
            _ => {
                return;
            },
        }
        if self.hello.serves("fleet.devices") {
            if self.devices.inventory.due(self.ticks) {
                self.devices.inventory.started();
                self.queue.put(Call::new(Tag::Inventory, "fleet.devices", nothing()));
            }
        } else {
            self.devices.refusal = Some(Refusal::CapabilityAbsent);
            self.poll_devices_fallback();
        }
    }

    /// The view opens on what is there now, and not on what was; a second time closes it.
    pub open spec fn devices_opened(&self, after: App) -> bool {
        if self.overlay matches Some(Overlay::Devices) {
            after == (App { overlay: None, ..*self })
        } else {
            (App {
                devices: DevicesState {
                    inventory_paging: false,
                    details: false,
                    ..self.devices.stale()
                },
                overlay: Some(Overlay::Devices),
                ..*self
            }).devices_polled(after)
        }
    }

    pub fn open_devices(&mut self)
        requires
            old(self).wf(),
        ensures
            final(self).wf(),
            old(self).devices_opened(*final(self)),
    {
        if let Some(Overlay::Devices) = &self.overlay {
            self.close_devices();
            return;
        }
        self.devices.inventory_paging = false;
        self.devices.details = false;
        self.devices.inventory.invalidate();
        self.devices.fallback.invalidate();
        self.overlay = Some(Overlay::Devices);
        self.poll_devices();
    }

    /// Leaves the view, which holds nothing that has to be undone.
    pub fn close_devices(&mut self)
        ensures
            *final(self) == (App { overlay: None, ..*old(self) }),
    {
        self.overlay = None;
    }

    /// Whether the view is offered: a runtime that refuses this identity still has a view worth
    /// opening, where the refusal is explained.
    pub fn devices_offered(&self) -> (r: bool)
        ensures
            r == (self.hello.lists("fleet.devices"@) || self.hello.lists("fleet.status"@)),
    {
        self.hello.serves("fleet.devices") || self.hello.serves("fleet.status")
    }

    /// The dashboard's line about this view, under the key that opens it.
    pub fn devices_hint(&self, shortcut: &str) -> (r: Option<String>)
        ensures
            said(r) == if self.hello.lists("fleet.devices"@) || self.hello.lists("fleet.status"@) {
                Some("devices   "@ + shortcut@ + " \u{b7} the machines this runtime can see"@)
            } else {
                None
            },
    {
        if !self.devices_offered() {
            return None;
        }
        Some(cat3("devices   ", shortcut, " \u{b7} the machines this runtime can see"))
    }

    /// The runtime is back: the lists are read again, where the view is open.
    pub fn devices_reconnected(&mut self)
        requires
            old(self).wf(),
        ensures
            final(self).wf(),
            (App { devices: old(self).devices.stale(), ..*old(self) }).devices_polled(*final(self)),
    {
        self.devices.inventory.invalidate();
        self.devices.fallback.invalidate();
        self.poll_devices();
    }

    // ----- answers ------------------------------------------------------------------

    /// The inventory came in.
    pub open spec fn inventory_answered(&self, after: App, value: JsonView) -> bool {
        exists|inventory: Inventory|
            #[trigger] inventory.reads(value) && after == (App {
                devices: self.devices.filled(inventory, self.ticks),
                ..*self
            })
    }

    pub(crate) fn answer_inventory(&mut self, value: &Json)
        requires
            old(self).wf(),
        ensures
            final(self).wf(),
            old(self).inventory_answered(*final(self), value@),
    {
        let inventory = Inventory::decode(value);
        assert(inventory.reads(value@));
        self.devices.fill(inventory, self.ticks);
    }

    /// The inventory was refused: the reason is kept, the last list stays, and the status of the
    /// fleet is asked for instead.
    pub open spec fn inventory_refused(&self, after: App, error: ClientError) -> bool {
        exists|mid: App|
            {
                &&& #[trigger] self.inventory_failed(mid, error)
                &&& mid.fallback_polled(after)
            }
    }

    pub open spec fn inventory_failed(&self, after: App, error: ClientError) -> bool {
        &&& after.devices.refusal is Some
        &&& refuses(error, after.devices.refusal->0)
        &&& said(after.devices.inventory.error) == Some(drawn_words(error.words()))
        &&& after == (App {
            devices: DevicesState {
                refusal: after.devices.refusal,
                inventory: self.devices.inventory.after_failure(
                    after.devices.inventory.error,
                    self.ticks,
                    INVENTORY_HOLD,
                ),
                ..self.devices
            },
            ..*self
        })
    }

    pub(crate) fn refuse_inventory(&mut self, error: &ClientError)
        requires
            old(self).wf(),
        ensures
            final(self).wf(),
            old(self).inventory_refused(*final(self), *error),
    {
        let ghost start = *self;
        self.devices.refusal = Some(devices_refusal(error));
        let words = error.message();
        self.devices.inventory.failed(clean(words.as_str()), self.ticks, INVENTORY_HOLD);
        let ghost mid = *self;
        assert(start.inventory_failed(mid, *error));
        self.poll_devices_fallback();
    }

    /// The status of the fleet came in, in place of an inventory.
    pub open spec fn subset_answered(&self, after: App, value: JsonView) -> bool {
        exists|subset: FleetSubset|
            #[trigger] subset.reads(value) && after == (App {
                devices: DevicesState {
                    fallback: self.devices.fallback.after_ok(subset, self.ticks, INVENTORY_HOLD),
                    ..self.devices
                },
                ..*self
            })
    }

    pub(crate) fn answer_fleet_status(&mut self, value: &Json)
        requires
            old(self).wf(),
        ensures
            final(self).wf(),
            old(self).subset_answered(*final(self), value@),
    {
        let subset = FleetSubset::decode(value);
        assert(subset.reads(value@));
        self.devices.fallback.ok(subset, self.ticks, INVENTORY_HOLD);
    }

    pub open spec fn subset_refused(&self, after: App, error: ClientError) -> bool {
        &&& said(after.devices.fallback.error) == Some(drawn_words(error.words()))
        &&& after == (App {
            devices: DevicesState {
                fallback: self.devices.fallback.after_failure(
                    after.devices.fallback.error,
                    self.ticks,
                    INVENTORY_HOLD,
                ),
                ..self.devices
            },
            ..*self
        })
    }

    pub(crate) fn refuse_fleet_status(&mut self, error: &ClientError)
        requires
            old(self).wf(),
        ensures
            final(self).wf(),
            old(self).subset_refused(*final(self), *error),
    {
        let words = error.message();
        self.devices.fallback.failed(clean(words.as_str()), self.ticks, INVENTORY_HOLD);
    }

    // ----- keys ---------------------------------------------------------------------

    /// A key while the view has the keyboard. The search field takes every key while it is open;
    /// Esc closes the details before it closes the view.
    pub open spec fn devices_keyed(&self, after: App, code: KeyCode, numbered: bool) -> bool {
        let state = self.devices.unpaged(code);
        if state.searching {
            &&& state.search_keyed(after.devices, code)
            &&& after == (App { devices: after.devices, ..*self })
        } else {
            match code {
                KeyCode::Esc => after == if state.details {
                    App { devices: DevicesState { details: false, ..state }, ..*self }
                } else {
                    App { devices: state, overlay: None, ..*self }
                },
                KeyCode::Char('q') => after == (App { devices: state, overlay: None, ..*self }),
                KeyCode::Char('r') => (App { devices: state.stale(), ..*self }).devices_polled(
                    after,
                ),
                _ => {
                    &&& state.list_keyed(after.devices, code, numbered)
                    &&& after == (App { devices: after.devices, ..*self })
                },
            }
        }
    }

    /// `numbered` where the rows are numbered, so that a digit selects one.
    pub fn devices_key(&mut self, code: KeyCode, numbered: bool)
        requires
            old(self).wf(),
        ensures
            final(self).wf(),
            old(self).devices_keyed(*final(self), code, numbered),
    {
        match code {
            KeyCode::PageDown | KeyCode::PageUp => {},
            _ => {
                self.devices.inventory_paging = false;
            },
        }
        if self.devices.searching {
            self.devices.search_key(code);
            return;
        }
        match code {
            KeyCode::Esc => {
                if self.devices.details {
                    self.devices.details = false;
                } else {
                    self.close_devices();
                }
            },
            KeyCode::Char('q') => self.close_devices(),
            KeyCode::Char('r') => self.devices_reconnected(),
            _ => self.devices.list_key(code, numbered),
        }
    }

    /// A paste while the view has the keyboard. Only the search field takes text.
    pub fn devices_paste(&mut self, flattened: &str) -> (r: bool)
        ensures
            r == old(self).devices.searching,
            if r {
                &&& final(self).devices.query@ == old(self).devices.query@ + flattened@
                &&& *final(self) == (App {
                    devices: DevicesState {
                        query: final(self).devices.query,
                        cursor: 0,
                        ..old(self).devices
                    },
                    ..*old(self)
                })
            } else {
                *final(self) == *old(self)
            },
    {
        if !self.devices.searching {
            return false;
        }
        self.devices.query.append(flattened);
        self.devices.cursor = 0;
        true
    }
}

// ----- laws -------------------------------------------------------------------------

impl DevicesState {
    /// The cursor is on a row, or on the first place of an empty list.
    pub open spec fn placed(&self) -> bool {
        self.cursor == 0 || self.cursor < self.row_count()
    }
}

proof fn lemma_a_blank_query_drops_least(
    rows: Seq<crate::devices::DeviceRow>,
    filter: crate::devices::Filter,
    query: Seq<char>,
    blank: Seq<char>,
)
    requires
        blank.len() == 0,
    ensures
        narrowed(rows, filter, query).len() <= narrowed(rows, filter, blank).len(),
    decreases rows.len(),
{
    if rows.len() > 0 {
        lemma_a_blank_query_drops_least(rows.drop_last(), filter, query, blank);
        lemma_a_blank_query_is_blank(blank);
        assert(crate::devices::passes_query(rows.last(), blank));
    }
}

proof fn lemma_a_blank_query_is_blank(blank: Seq<char>)
    requires
        blank.len() == 0,
    ensures
        crate::text::lowered(crate::text::trimmed(blank)).len() == 0,
{
}

/// No key takes the cursor off the list, however the list was narrowed.
pub proof fn lemma_no_key_loses_the_cursor(before: App, after: App, code: KeyCode, numbered: bool)
    requires
        before.devices.placed(),
        before.devices_keyed(after, code, numbered),
    ensures
        after.devices.placed(),
{
    let state = before.devices.unpaged(code);
    assert(state.placed());
    if !state.searching && code == KeyCode::Char('/') && state.narrows() {
        let inventory = state.inventory.value->0;
        lemma_a_blank_query_drops_least(
            crate::devices::in_order(inventory.devices@),
            state.filter,
            state.query@,
            after.devices.query@,
        );
    }
}

/// A new inventory leaves the cursor on a row, and takes back every refusal.
pub proof fn lemma_an_inventory_places_the_cursor(
    state: DevicesState,
    inventory: Inventory,
    ticks: u64,
)
    ensures
        state.filled(inventory, ticks).placed(),
        state.filled(inventory, ticks).refusal is None,
{
    let filled = state.filled(inventory, ticks);
    assert(filled.shown_rows(inventory) == state.shown_rows(inventory));
}

/// The view never asks twice: while a list is out, neither opening the view again nor a key asks
/// for it.
pub proof fn lemma_one_inventory_at_a_time(before: App, after: App)
    requires
        before.devices_polled(after),
        before.hello.lists("fleet.devices"@),
        before.devices.inventory.pending,
    ensures
        after == before,
{
}

} // verus!
