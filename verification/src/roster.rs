//! What the list of devices says, held against what the runtime reported of them.

use vstd::prelude::*;

use crate::app::App;
use crate::clock::digits_end;
use crate::devices::{
    connected_count, field, fleet_rows, in_order, is_about, is_connected, is_this_machine, latest,
    lemma_the_list_is_ordered, narrowed, older, optional_precedes, passes_filter, passes_query,
    rank, DeviceRow, DevicesState, Filter, Inventory, OperationSummary, FIELD_COLUMNS,
    NARROWING_ROWS,
};
use crate::devices_view::{
    command_part, details_view, is_narrow, row_view, Role, COMMAND_PANE_COLUMNS,
};
use crate::fleet::drawn;
use crate::json::JsonView;
use crate::press::KeyCode;
use crate::readings::{lemma_a_number_inside_reads_back, number_at};
use crate::text::{
    decimal, lemma_precedes_irreflexive, lemma_precedes_total, lemma_precedes_transitive, padded,
    precedes, said,
};
use crate::wire::{ClientError, ErrorCode};

verus! {

// ----- states -----------------------------------------------------------------------

proof fn lemma_state_names()
    ensures
        "this_device"@.len() == 11,
        "this_device_without_profile"@.len() == 27,
        "fleet_member"@.len() == 12 && "fleet_member"@[0] == 'f',
        "fleet_member_not_visible"@.len() == 24,
        "fleet_member_connected"@.len() == 22,
        "discovered_installation_unknown"@.len() == 31,
        "peer_offline"@.len() == 12 && "peer_offline"@[0] == 'p',
        "unsupported_platform"@.len() == 20,
        "no_usable_ipv4"@.len() == 14,
{
    reveal_strlit("this_device");
    reveal_strlit("this_device_without_profile");
    reveal_strlit("fleet_member");
    reveal_strlit("fleet_member_not_visible");
    reveal_strlit("fleet_member_connected");
    reveal_strlit("discovered_installation_unknown");
    reveal_strlit("peer_offline");
    reveal_strlit("unsupported_platform");
    reveal_strlit("no_usable_ipv4");
}

/// What can be done about a device depends on the state the runtime gave it: a device that was
/// only discovered can be added at its address, this one can be set up, a member can leave, and
/// about any other there is nothing to do.
#[verifier::rlimit(60)]
pub proof fn lemma_a_command_fits_the_state(row: DeviceRow)
    ensures
        row.state@ == "this_device_without_profile"@ ==> row.recipe_words() == Some(
            "ouro fleet setup --machine "@ + row.machine_word(),
        ),
        row.state@ == "discovered_installation_unknown"@ ==> row.recipe_words() == Some(
            "ouro fleet add USER@"@ + row.address_word() + " --machine "@ + row.machine_word(),
        ),
        row.state@ == "this_device"@ ==> row.recipe_words() == Some("ouro fleet leave"@),
        row.state@ == "fleet_member"@ || row.state@ == "fleet_member_not_visible"@ || row.state@
            == "fleet_member_connected"@ ==> row.recipe_words() == Some(
            "ouro fleet leave --machine "@ + row.machine_word() + " --user USER"@,
        ),
        row.state@ == "peer_offline"@ || row.state@ == "unsupported_platform"@ || row.state@
            == "no_usable_ipv4"@ ==> row.recipe_words() is None,
        row.recipe_words() is None <==> row.no_recipe_words() is Some,
{
    lemma_state_names();
}

/// The column that says how a device stands to the fleet calls a member one only where it is one,
/// and says where it is not connected.
pub proof fn lemma_the_column_tells_members_from_others(row: DeviceRow)
    ensures
        row.state@ == "fleet_member"@ || row.state@ == "this_device"@ ==> row.word() == if row.connected
            == Some(false) {
            "in the fleet \u{b7} not connected"@
        } else {
            "in the fleet"@
        },
        row.state@ == "fleet_member_not_visible"@ ==> row.word()
            == "in the fleet \u{b7} not connected"@,
        row.state@ == "fleet_member_connected"@ ==> row.word() == "in the fleet"@,
        row.state@ == "discovered_installation_unknown"@ || row.state@
            == "this_device_without_profile"@ ==> row.word() == "not set up"@,
        row.state@ == "peer_offline"@ ==> row.word() == "offline"@,
        row.state@ == "unsupported_platform"@ || row.state@ == "no_usable_ipv4"@ ==> row.word()
            == "can't run Ouroboros"@,
{
    lemma_state_names();
}

/// Presence leads with a full dot exactly where the device is online, and with an open one
/// everywhere else.
#[verifier::rlimit(60)]
pub proof fn lemma_the_dot_is_full_when_online(row: DeviceRow, now: int)
    ensures
        ({
            let words = row.presence_short_words(now);
            &&& words.len() > 2
            &&& words[0] == '\u{25cf}' <==> row.online == Some(true)
            &&& words[0] == '\u{25cb}' <==> row.online != Some(true)
            &&& words.len() >= 9 && words.subrange(2, 9) == "offline"@ <==> row.online == Some(
                false,
            )
        }),
{
    reveal_strlit("\u{25cf} online");
    reveal_strlit("\u{25cb} offline, seen ");
    reveal_strlit("\u{25cb} offline");
    reveal_strlit("\u{25cb} last seen ");
    reveal_strlit("\u{25cb} presence unknown");
    reveal_strlit("offline");
    let words = row.presence_short_words(now);
    assert("offline"@[0] == 'o' && "offline"@[1] == 'f');
    if row.online == Some(false) {
        assert(words.subrange(2, 9) =~= "offline"@);
    } else if words.len() >= 9 {
        assert(words.subrange(2, 9)[0] == words[2]);
        assert(words.subrange(2, 9)[1] == words[3]);
    }
}

// ----- operations -------------------------------------------------------------------

proof fn lemma_not_before(a: Option<Seq<char>>, b: Option<Seq<char>>, c: Option<Seq<char>>)
    requires
        !optional_precedes(a, b),
        !optional_precedes(b, c),
    ensures
        !optional_precedes(a, c),
{
    if a is Some && b is Some && c is Some {
        lemma_precedes_total(a->0, b->0);
        lemma_precedes_total(b->0, c->0);
        if precedes(b->0, a->0) && precedes(c->0, b->0) {
            lemma_precedes_transitive(c->0, b->0, a->0);
        }
        if precedes(a->0, c->0) && precedes(c->0, a->0) {
            lemma_precedes_transitive(a->0, c->0, a->0);
            lemma_precedes_irreflexive(a->0);
        }
        if precedes(a->0, c->0) && a->0 == c->0 {
            lemma_precedes_irreflexive(a->0);
        }
    }
}

/// The operation that is told of a device is one of its own, and no other of its own was updated
/// later.
pub proof fn lemma_the_newest_operation_is_told(
    operations: Seq<OperationSummary>,
    row: DeviceRow,
    i: int,
)
    requires
        0 <= i < operations.len(),
        operations[i].operation@.len() > 0,
        operations[i].target is Some,
        operations[i].target->0.matches_row(row),
    ensures
        ({
            let told = latest(operations, row);
            &&& told is Some
            &&& operations.contains(told->0)
            &&& told->0.target is Some && told->0.target->0.matches_row(row)
            &&& operations[i].updated_at is Some ==> told->0.updated_at is Some && !precedes(
                told->0.updated_at->0@,
                operations[i].updated_at->0@,
            )
        }),
    decreases operations.len(),
{
    lemma_latest(operations, row, i);
    let told = latest(operations, row)->0;
    assert(!optional_precedes(said(told.updated_at), said(operations[i].updated_at)));
}

proof fn lemma_latest(operations: Seq<OperationSummary>, row: DeviceRow, i: int)
    requires
        0 <= i < operations.len(),
        is_about(operations[i], row),
    ensures
        latest(operations, row) is Some,
        operations.contains(latest(operations, row)->0),
        is_about(latest(operations, row)->0, row),
        !optional_precedes(
            said(latest(operations, row)->0.updated_at),
            said(operations[i].updated_at),
        ),
    decreases operations.len(),
{
    let rest = operations.drop_last();
    let last = operations.last();
    assert(operations[operations.len() - 1] == last);
    let best = latest(rest, row);
    if i < rest.len() {
        assert(rest[i] == operations[i]);
        lemma_latest(rest, row, i);
        let k = choose|k: int| 0 <= k < rest.len() && rest[k] == best->0;
        assert(operations[k] == best->0);
        if is_about(last, row) && !older(last, best->0) {
            lemma_not_before(
                said(last.updated_at),
                said(best->0.updated_at),
                said(operations[i].updated_at),
            );
        }
    } else {
        if said(last.updated_at) is Some {
            lemma_precedes_irreflexive(said(last.updated_at)->0);
        }
        if best is Some {
            lemma_latest_is_about(rest, row);
            let k = choose|k: int| 0 <= k < rest.len() && rest[k] == best->0;
            assert(operations[k] == best->0);
            if older(last, best->0) {
                let (a, b) = (said(best->0.updated_at), said(last.updated_at));
                if a is Some && b is Some {
                    if precedes(b->0, a->0) && precedes(a->0, b->0) {
                        lemma_precedes_transitive(a->0, b->0, a->0);
                        lemma_precedes_irreflexive(a->0);
                    }
                    lemma_precedes_irreflexive(a->0);
                }
            }
        }
    }
}

proof fn lemma_latest_is_about(operations: Seq<OperationSummary>, row: DeviceRow)
    requires
        latest(operations, row) is Some,
    ensures
        operations.contains(latest(operations, row)->0),
        is_about(latest(operations, row)->0, row),
    decreases operations.len(),
{
    let rest = operations.drop_last();
    let last = operations.last();
    assert(operations[operations.len() - 1] == last);
    if latest(rest, row) is Some {
        lemma_latest_is_about(rest, row);
        let best = latest(rest, row)->0;
        let k = choose|k: int| 0 <= k < rest.len() && rest[k] == best;
        assert(operations[k] == best);
    }
}

/// A removal is told as a removal and a setup as a setup, and each as over exactly where it is.
#[verifier::rlimit(60)]
pub proof fn lemma_an_operation_is_told_by_its_kind(
    inventory: Inventory,
    row: DeviceRow,
    operation: OperationSummary,
    state: Seq<char>,
)
    requires
        latest(inventory.operations@, row) == Some(operation),
        said(operation.state) == Some(state),
        state != "cancelled"@,
        state != "interrupted"@,
    ensures
        ({
            let word = inventory.word_for(row);
            &&& word.take(5) == "remov"@ <==> said(operation.kind) == Some("leave"@)
            &&& word.take(3) == "set"@ <==> said(operation.kind) != Some("leave"@)
            &&& word.last() == '\u{2026}' <==> state != "failed"@ && state != "completed"@
            &&& word.skip(word.len() - 6) == "failed"@ <==> state == "failed"@
        }),
{
    reveal_strlit("removal failed");
    reveal_strlit("setup failed");
    reveal_strlit("removed just now");
    reveal_strlit("set up just now");
    reveal_strlit("removing\u{2026}");
    reveal_strlit("setting up\u{2026}");
    reveal_strlit("remov");
    reveal_strlit("set");
    reveal_strlit("failed");
    reveal_strlit("completed");
    assert("failed"@.len() != "completed"@.len());
    let word = inventory.word_for(row);
    let n = word.len() as int;
    assert("remov"@[0] == 'r' && "set"@[0] == 's');
    assert("failed"@.last() == 'd');
    assert(word.take(5)[0] == word[0]);
    assert(word.take(3)[0] == word[0]);
    assert(word.skip(n - 6).last() == word.last());
    if said(operation.kind) == Some("leave"@) {
        assert(word.take(5) =~= "remov"@);
    } else {
        assert(word.take(3) =~= "set"@);
    }
    if state == "failed"@ {
        assert(word.skip(n - 6) =~= "failed"@);
    }
}

// ----- counts -----------------------------------------------------------------------

/// The machines of the fleet among the devices.
pub open spec fn named_machines(rows: Seq<DeviceRow>) -> Seq<DeviceRow> {
    rows.filter(|row: DeviceRow| row.machine is Some)
}

/// Those of them that are connected, as the runtime said: by a flag, or by their state.
pub open spec fn reached_machines(rows: Seq<DeviceRow>) -> Seq<DeviceRow> {
    named_machines(rows).filter(
        |row: DeviceRow|
            row.connected == Some(true) || row.state@ == "fleet_member_connected"@ || row.state@
                == "this_device"@,
    )
}

proof fn lemma_fleet_rows(rows: Seq<DeviceRow>)
    ensures
        fleet_rows(rows) == named_machines(rows),
    decreases rows.len(),
{
    reveal(Seq::filter);
    if rows.len() > 0 {
        lemma_fleet_rows(rows.drop_last());
    }
}

proof fn lemma_connected_rows(rows: Seq<DeviceRow>)
    ensures
        connected_count(rows) == rows.filter(
            |row: DeviceRow|
                row.connected == Some(true) || row.state@ == "fleet_member_connected"@ || row.state@
                    == "this_device"@,
        ).len(),
    decreases rows.len(),
{
    reveal(Seq::filter);
    lemma_state_names();
    if rows.len() > 0 {
        lemma_connected_rows(rows.drop_last());
        assert(is_connected(rows.last()) <==> rows.last().connected == Some(true)
            || rows.last().state@ == "fleet_member_connected"@ || rows.last().state@
            == "this_device"@);
    }
}

/// The line above the list counts the machines of the fleet, and how many of them are connected.
#[verifier::rlimit(60)]
pub proof fn lemma_the_status_line_counts_machines(inventory: Inventory)
    requires
        !inventory.is_standalone(),
        named_machines(inventory.devices@).len() > 0,
    ensures
        ({
            let words = inventory.status_words();
            let at = inventory.fleet_label().len() + 3;
            let of = digits_end(words, at);
            &&& words.take(inventory.fleet_label().len() as int) == inventory.fleet_label()
            &&& number_at(words, at) == reached_machines(inventory.devices@).len()
            &&& words.subrange(of as int, of as int + 4) == " of "@
            &&& number_at(words, of + 4) == named_machines(inventory.devices@).len()
        }),
{
    reveal_strlit(" \u{b7} ");
    reveal_strlit(" of ");
    reveal_strlit(" machine connected");
    reveal_strlit(" machines connected");
    let rows = inventory.devices@;
    lemma_fleet_rows(rows);
    let members = fleet_rows(rows);
    lemma_connected_rows(members);
    assert(rows.len() > 0) by {
        rows.lemma_filter_len(|row: DeviceRow| row.machine is Some);
    }
    let words = inventory.status_words();
    let head = inventory.fleet_label() + " \u{b7} "@;
    let tail = if members.len() == 1 {
        " machine connected"@
    } else {
        " machines connected"@
    };
    let (some, all) = (decimal(connected_count(members)), decimal(members.len()));
    let rest = " of "@ + all + tail;
    assert(words =~= head + some + rest);
    assert(rest[0] == ' ');
    lemma_a_number_inside_reads_back(words, head, connected_count(members), rest);
    let before = head + some + " of "@;
    assert(words =~= before + all + tail);
    lemma_a_number_inside_reads_back(words, before, members.len(), tail);
    let end = head.len() + some.len();
    assert(words.subrange(end as int, end as int + 4) =~= " of "@);
    assert(words.take(inventory.fleet_label().len() as int) =~= inventory.fleet_label());
}

// ----- what is listed ---------------------------------------------------------------

proof fn lemma_narrowed(rows: Seq<DeviceRow>, filter: Filter, query: Seq<char>, row: DeviceRow)
    ensures
        narrowed(rows, filter, query).contains(row) <==> rows.contains(row) && passes_filter(
            row,
            filter,
        ) && passes_query(row, query),
    decreases rows.len(),
{
    if rows.len() > 0 {
        let rest = rows.drop_last();
        let inner = narrowed(rest, filter, query);
        let out = narrowed(rows, filter, query);
        lemma_narrowed(rest, filter, query, row);
        if out.contains(row) {
            let k = choose|k: int| 0 <= k < out.len() && out[k] == row;
            if k < inner.len() {
                assert(inner[k] == row);
                let j = choose|j: int| 0 <= j < rest.len() && rest[j] == row;
                assert(rows[j] == row);
            } else {
                assert(rows[rows.len() - 1] == row);
            }
        }
        if rows.contains(row) && passes_filter(row, filter) && passes_query(row, query) {
            let j = choose|j: int| 0 <= j < rows.len() && rows[j] == row;
            if j < rest.len() {
                assert(rest[j] == row);
                let k = choose|k: int| 0 <= k < inner.len() && inner[k] == row;
                assert(out[k] == row);
            } else {
                assert(out[out.len() - 1] == row);
            }
        }
    }
}

/// A list that is narrowed to the fleet shows its machines alone, one that is narrowed to what is
/// available shows everything else, and a query hides nothing while it is blank.
pub proof fn lemma_a_narrowed_list_shows_what_it_says(
    state: DevicesState,
    inventory: Inventory,
    row: DeviceRow,
)
    requires
        inventory.devices@.contains(row),
    ensures
        inventory.devices@.len() <= NARROWING_ROWS ==> state.shown_rows(inventory).contains(row),
        state.filter == Filter::All && state.query@.len() == 0 ==> state.shown_rows(
            inventory,
        ).contains(row),
        inventory.devices@.len() > NARROWING_ROWS && state.filter == Filter::Fleet
            && state.shown_rows(inventory).contains(row) ==> row.machine is Some || row.state@
            == "this_device_without_profile"@ || row.state@ == "fleet_member_connected"@,
        inventory.devices@.len() > NARROWING_ROWS && state.filter == Filter::Available
            && row.machine is Some ==> !state.shown_rows(inventory).contains(row),
{
    lemma_state_names();
    let rows = inventory.devices@;
    lemma_the_list_is_ordered(rows);
    assert(in_order(rows).contains(row)) by {
        broadcast use vstd::seq_lib::group_to_multiset_ensures;

        assert(rows.to_multiset().count(row) > 0);
        assert(in_order(rows).to_multiset().count(row) > 0);
    }
    lemma_narrowed(in_order(rows), state.filter, state.query@, row);
    if state.query@.len() == 0 {
        assert(state.query@ =~= Seq::empty());
        assert(crate::text::trimmed(state.query@).len() == 0);
        assert(crate::text::lowered(crate::text::trimmed(state.query@)).len() == 0);
    }
}

/// This machine is listed first, and no device of the network stands above a machine of the fleet.
pub proof fn lemma_this_machine_is_listed_first(inventory: Inventory, i: int, j: int)
    requires
        0 <= i < j < in_order(inventory.devices@).len(),
    ensures
        ({
            let (upper, lower) = (in_order(inventory.devices@)[i], in_order(inventory.devices@)[j]);
            &&& lower.state@ == "this_device"@ ==> is_this_machine(upper)
            &&& lower.machine is Some ==> upper.machine is Some || is_this_machine(upper)
                || upper.state@ == "fleet_member_connected"@
        }),
{
    lemma_state_names();
    lemma_the_list_is_ordered(inventory.devices@);
    let (upper, lower) = (in_order(inventory.devices@)[i], in_order(inventory.devices@)[j]);
    assert(rank(upper) <= rank(lower));
    assert(lower.state@ == "this_device"@ ==> rank(lower) == 0);
}

// ----- what was answered ------------------------------------------------------------

/// An inventory that is answered is the one that is listed: a row for each device, in the order
/// they were reported, and each with what was reported of it.
#[verifier::rlimit(60)]
pub proof fn lemma_a_row_is_what_was_reported(
    before: App,
    after: App,
    value: JsonView,
    items: Seq<JsonView>,
    i: int,
)
    requires
        before.inventory_answered(after, value),
        value.member("devices"@) == Some(JsonView::List(items)),
        0 <= i < items.len(),
    ensures
        after.devices.refusal is None,
        after.devices.inventory.value is Some,
        after.devices.inventory.error is None,
        after.devices.inventory.value->0.devices@.len() == items.len(),
        ({
            let row = after.devices.inventory.value->0.devices@[i];
            let told = items[i];
            &&& row.online == told.member_truth("online"@)
            &&& row.connected == told.member_truth("connected"@)
            &&& row.compatible == told.member_truth("compatible"@)
            &&& row.runtime_running == told.member_truth("runtime_running"@)
            &&& said(row.address) == field(told.member("address"@), FIELD_COLUMNS as nat)
            &&& said(row.machine) == field(told.member("machine"@), FIELD_COLUMNS as nat)
            &&& said(row.os) == field(told.member("os"@), FIELD_COLUMNS as nat)
            &&& said(row.last_seen) == field(told.member("last_seen"@), FIELD_COLUMNS as nat)
            &&& field(told.member("name"@), FIELD_COLUMNS as nat) is Some ==> Some(row.name@)
                == field(told.member("name"@), FIELD_COLUMNS as nat)
            &&& field(told.member("state"@), FIELD_COLUMNS as nat) is Some ==> Some(row.state@)
                == field(told.member("state"@), FIELD_COLUMNS as nat)
        }),
        after.devices.fallback == before.devices.fallback,
{
    let inventory = choose|inventory: Inventory| #[trigger]
        inventory.reads(value) && after == (App {
            devices: before.devices.filled(inventory, before.ticks),
            ..before
        });
    assert(inventory.devices@[i].reads(items[i]));
}

/// A refused inventory keeps the last one that was read, and says by the kind of the refusal whether
/// the gateway lacks it or this identity may not have it.
pub proof fn lemma_a_refused_inventory_says_why(before: App, after: App, error: ClientError)
    requires
        before.inventory_failed(after, error),
    ensures
        after.devices.inventory.value == before.devices.inventory.value,
        after.devices.refusal is Some,
        after.devices.refusal->0 is CapabilityAbsent <==> error is Rpc && (error->Rpc_0).code
            == ErrorCode::MethodNotFound,
        after.devices.refusal->0 is NotAdministrator <==> error is Rpc && (error->Rpc_0).code
            == ErrorCode::ScopeDenied,
        after.queue == before.queue,
{
}

// ----- keys -------------------------------------------------------------------------

/// A letter that is typed into the search can be taken back, escape clears the search and enter
/// keeps it.
pub proof fn lemma_a_search_can_be_taken_back(
    before: DevicesState,
    typed: DevicesState,
    after: DevicesState,
    c: char,
)
    requires
        before.search_keyed(typed, KeyCode::Char(c)),
        typed.search_keyed(after, KeyCode::Backspace) || typed.search_keyed(after, KeyCode::Esc)
            || typed.search_keyed(after, KeyCode::Enter),
    ensures
        typed.query@ == before.query@.push(c),
        typed.search_keyed(after, KeyCode::Backspace) && after.searching ==> after.query@
            == before.query@,
        typed.search_keyed(after, KeyCode::Esc) && after.query@ != typed.query@ ==> after.query@.len()
            == 0 || after.searching,
        after.filter == before.filter,
        after.inventory == before.inventory,
{
    assert(before.query@.push(c).drop_last() =~= before.query@);
}

/// The keys of the list: a digit goes to the row it is drawn before, the filter key goes round the
/// three filters, enter shows and hides the details, and none of them forgets what was read.
pub proof fn lemma_the_keys_of_the_list(
    before: DevicesState,
    after: DevicesState,
    code: KeyCode,
    numbered: bool,
)
    requires
        before.list_keyed(after, code, numbered),
    ensures
        after.inventory == before.inventory,
        after.fallback == before.fallback,
        code == KeyCode::Enter ==> after.details != before.details && after.cursor
            == before.cursor,
        code != KeyCode::Enter ==> after.details == before.details,
        code == KeyCode::Char('3') && numbered && before.row_count() > 2 ==> after.cursor == 2,
        code == KeyCode::Char('1') && numbered && before.row_count() > 0 ==> after.cursor == 0,
        code == KeyCode::Char('f') && before.narrows() ==> after.filter != before.filter
            && after.cursor == 0,
        code != KeyCode::Char('f') ==> after.filter == before.filter,
        code == KeyCode::Down && before.cursor + 1 < before.row_count() <= usize::MAX
            ==> after.cursor == before.cursor + 1,
        code == KeyCode::Up && before.cursor > 0 ==> after.cursor + 1 == before.cursor,
{
}

// ----- how a row is drawn -----------------------------------------------------------

/// Exactly the row under the cursor is marked. A device that is online is drawn as well, and a
/// command as something to run exactly where there is one.
#[verifier::rlimit(60)]
pub proof fn lemma_a_row_is_drawn_as_it_stands(
    cursor: nat,
    inventory: Inventory,
    row: DeviceRow,
    index: nat,
    terminal: nat,
    now: int,
)
    ensures
        ({
            let lines = row_view(cursor, inventory, row, index, terminal, now);
            let first = lines[0];
            let presence = if is_narrow(terminal) {
                first.last()
            } else {
                first[3]
            };
            let command = lines.last().last();
            &&& lines.len() == if is_narrow(terminal) {
                2int
            } else {
                1
            }
            &&& first[0].0[0] == '>' <==> cursor == index
            &&& first[0].1 == Role::Chosen <==> cursor == index
            &&& presence.1 == Role::Good <==> row.online == Some(true)
            &&& command.1 == Role::Action <==> inventory.recipe_for(row) is Some
        }),
{
    reveal_strlit("> ");
    reveal_strlit("  ");
}

/// The pane of a device shows, behind each label, what the label says.
#[verifier::rlimit(60)]
pub proof fn lemma_the_pane_shows_what_its_labels_say(inventory: Inventory, row: DeviceRow)
    ensures
        ({
            let page = details_view(inventory, row);
            let at = command_part(inventory, row).len() as int;
            &&& page[0] == seq![(inventory.label_words(row), Role::Heading)]
            &&& page[1][0].0 == "  "@ + padded("to run"@, 12)
            &&& inventory.recipe_for(row) matches Some(command) ==> page[1][1] == (
                drawn(command, COMMAND_PANE_COLUMNS as nat),
                Role::Action,
            )
            &&& inventory.recipe_for(row) is None ==> page[1][1] == ("\u{2014}"@, Role::Muted)
            &&& page[at + 1][0].0 == "  "@ + padded("address"@, 12)
            &&& page[at + 2][0].0 == "  "@ + padded("presence"@, 12)
            &&& page[at + 2][1].0 == row.presence_words()
            &&& page[at + 3][0].0 == "  "@ + padded("ouroboros"@, 12)
        }),
        row.online == Some(true) ==> row.presence_words() == "online now"@,
        row.online == Some(false) ==> row.presence_words().take(7) == "offline"@,
        row.online is None ==> row.presence_words().take(7) == "unknown"@,
{
    reveal_strlit("offline");
    reveal_strlit("offline, last seen ");
    reveal_strlit("unknown");
    reveal_strlit("unknown, last seen ");
    if row.online == Some(false) {
        assert(row.presence_words().take(7) =~= "offline"@);
    }
    if row.online is None {
        assert(row.presence_words().take(7) =~= "unknown"@);
    }
}

} // verus!
