//! The devices page, line by line.
//!
//! A line is a list of spans, and a span is text with the part it plays. What a part looks like
//! is the terminal's business. Each cell of a row ends at a column this build decides, whatever a
//! device calls itself.

use vstd::prelude::*;

use crate::access::{numbered, numbered_text};
use crate::devices::{
    behind, latest, latest_operation_for, or, DeviceRow, DevicesState, Filter, FleetSubset,
    Inventory, OperationSummary, Recipe, MESSAGE_COLUMNS, NAME_COLUMNS,
};
use crate::fleet::{cell, column, drawn, fill, filled, scrub};
use crate::text::{
    as_deref, cat2, cat3, cat4, count, decimal, join, joined, pad, padded, said, texts,
};

verus! {

pub const OS_COLUMNS: usize = 6;

pub const ADDRESS_COLUMNS: usize = 16;

pub const PRESENCE_COLUMNS: usize = 28;

pub const STATE_COLUMNS: usize = 30;

/// What a row gives a command on a terminal only just wide enough for one-line rows.
pub const COMMAND_COLUMNS: usize = 29;

pub const COMMAND_LIMIT: usize = 72;

/// What the details pane gives a command, which is all of it.
pub const COMMAND_PANE_COLUMNS: usize = 340;

pub const ROW_FIELD_COLUMNS: usize = 44;

pub const OWN_WORDS_COLUMNS: usize = 96;

/// The columns a one-line row needs.
pub const FULL_ROW_COLUMNS: usize = 140;

pub const ROW_COLUMNS_BEFORE_COMMAND: usize = 111;

pub const UNKNOWN_KEYS_NAMED: usize = 4;

pub const UNKNOWN_KEY_COLUMNS: usize = 32;

/// The row budget is the sum of its parts: the marker, the name with room for a number, each
/// column with two columns after it, and the command.
pub proof fn lemma_the_row_budget_adds_up()
    ensures
        FULL_ROW_COLUMNS == 2 + NAME_COLUMNS + 4 + OS_COLUMNS + 2 + ADDRESS_COLUMNS + 2
            + PRESENCE_COLUMNS + 2 + STATE_COLUMNS + 2 + COMMAND_COLUMNS,
        ROW_COLUMNS_BEFORE_COMMAND + COMMAND_COLUMNS == FULL_ROW_COLUMNS,
{
}

/// The part a span plays.
#[derive(Debug, Clone, Copy, PartialEq, Eq, Structural)]
pub enum Role {
    Plain,
    Heading,
    Label,
    Muted,
    Good,
    Warn,
    Accent,
    /// The name under the cursor.
    Chosen,
    /// A command to run.
    Action,
}

#[derive(Debug)]
pub struct Span {
    pub text: String,
    pub role: Role,
}

#[derive(Debug)]
pub struct Line {
    pub spans: Vec<Span>,
}

/// What a line says, span by span.
pub type Said = Seq<(Seq<char>, Role)>;

impl Line {
    pub open spec fn view(&self) -> Said {
        self.spans@.map_values(|span: Span| (span.text@, span.role))
    }
}

pub open spec fn page_of(lines: Seq<Line>) -> Seq<Said> {
    lines.map_values(|line: Line| line@)
}

fn push(lines: &mut Vec<Line>, line: Line)
    ensures
        page_of(final(lines)@) == page_of(old(lines)@).push(line@),
{
    let ghost before = lines@;
    lines.push(line);
    assert(page_of(lines@) =~= page_of(before).push(line@));
}

fn one(text: String, role: Role) -> (r: Line)
    ensures
        r@ == seq![(text@, role)],
{
    let mut spans: Vec<Span> = Vec::new();
    let ghost said = text@;
    spans.push(Span { text, role });
    let line = Line { spans };
    assert(line@ =~= seq![(said, role)]);
    line
}

fn two(a: String, first: Role, b: String, second: Role) -> (r: Line)
    ensures
        r@ == seq![(a@, first), (b@, second)],
{
    let ghost x = a@;
    let ghost y = b@;
    let mut spans: Vec<Span> = Vec::new();
    spans.push(Span { text: a, role: first });
    spans.push(Span { text: b, role: second });
    let line = Line { spans };
    assert(line@ =~= seq![(x, first), (y, second)]);
    line
}

pub open spec fn blank_line() -> Said {
    seq![(""@, Role::Plain)]
}

fn blank() -> (r: Line)
    ensures
        r@ == blank_line(),
{
    one("".to_owned(), Role::Plain)
}

// ----- widths -----------------------------------------------------------------------

/// The columns the page has for a line on a terminal of a width: 92 % of it inside a border. A
/// width that is not known yet counts as wide.
pub open spec fn overlay_width(terminal: nat) -> nat {
    if terminal == 0 {
        usize::MAX as nat
    } else if terminal * 92 / 100 >= 2 {
        (terminal * 92 / 100 - 2) as nat
    } else {
        0
    }
}

fn overlay_columns(terminal: u16) -> (r: usize)
    ensures
        r == overlay_width(terminal as nat),
{
    if terminal == 0 {
        usize::MAX
    } else {
        let share: usize = (terminal as usize) * 92 / 100;
        if share >= 2 {
            share - 2
        } else {
            0
        }
    }
}

pub open spec fn is_narrow(terminal: nat) -> bool {
    overlay_width(terminal) < FULL_ROW_COLUMNS
}

/// Whether the list has to fold each row onto two lines to fit.
pub fn narrow_rows(terminal: u16) -> (r: bool)
    ensures
        r == is_narrow(terminal as nat),
{
    overlay_columns(terminal) < FULL_ROW_COLUMNS
}

/// How much of the command a row can show: what is left after the fixed columns, between a floor
/// and a ceiling.
pub open spec fn command_width(terminal: nat) -> nat {
    let left = overlay_width(terminal) - ROW_COLUMNS_BEFORE_COMMAND;
    if left < COMMAND_COLUMNS {
        COMMAND_COLUMNS as nat
    } else if left > COMMAND_LIMIT {
        COMMAND_LIMIT as nat
    } else {
        left as nat
    }
}

fn command_columns(terminal: u16) -> (r: usize)
    ensures
        r == command_width(terminal as nat),
{
    let all: usize = overlay_columns(terminal);
    let left: usize = if all > ROW_COLUMNS_BEFORE_COMMAND {
        all - ROW_COLUMNS_BEFORE_COMMAND
    } else {
        0
    };
    if left < COMMAND_COLUMNS {
        COMMAND_COLUMNS
    } else if left > COMMAND_LIMIT {
        COMMAND_LIMIT
    } else {
        left
    }
}

// ----- one device -------------------------------------------------------------------

/// One device: its name, system, address, presence, the Ouroboros word and the command. On a
/// narrow terminal the word and the command stand on a second line under the name.
pub open spec fn row_view(
    cursor: nat,
    inventory: Inventory,
    row: DeviceRow,
    index: nat,
    terminal: nat,
    now: int,
) -> Seq<Said> {
    let selected = cursor == index;
    let recipe = inventory.recipe_for(row);
    let presence_role = if row.online == Some(true) {
        Role::Good
    } else {
        Role::Muted
    };
    let name = (
        (if selected {
            "> "@
        } else {
            "  "@
        }) + filled(numbered_text(index, inventory.label_words(row)), (NAME_COLUMNS + 4) as nat),
        if selected {
            Role::Chosen
        } else {
            Role::Plain
        },
    );
    let os = (cell(or(said(row.os), "?"@), OS_COLUMNS as nat), Role::Muted);
    let address = (
        cell(or(said(row.address), "no address"@), ADDRESS_COLUMNS as nat),
        Role::Plain,
    );
    let state = (cell(inventory.word_for(row), STATE_COLUMNS as nat), Role::Plain);
    let command = (
        drawn(or(recipe, "\u{2014}"@), command_width(terminal)),
        if recipe is None {
            Role::Muted
        } else {
            Role::Action
        },
    );
    if is_narrow(terminal) {
        seq![
            seq![
                name,
                address,
                (drawn(row.presence_short_words(now), PRESENCE_COLUMNS as nat), presence_role),
            ],
            seq![("      "@, Role::Plain), state, command],
        ]
    } else {
        seq![
            seq![
                name,
                os,
                address,
                (cell(row.presence_short_words(now), PRESENCE_COLUMNS as nat), presence_role),
                state,
                command,
            ],
        ]
    }
}

fn row_line(
    cursor: usize,
    inventory: &Inventory,
    row: &DeviceRow,
    index: usize,
    terminal: u16,
    now: u64,
    lines: &mut Vec<Line>,
)
    ensures
        page_of(final(lines)@) == page_of(old(lines)@) + row_view(
            cursor as nat,
            *inventory,
            *row,
            index as nat,
            terminal as nat,
            now as int,
        ),
{
    let ghost before = page_of(lines@);
    let ghost expected = row_view(
        cursor as nat,
        *inventory,
        *row,
        index as nat,
        terminal as nat,
        now as int,
    );
    let selected = cursor == index;
    let marker = if selected {
        "> "
    } else {
        "  "
    };
    let label = numbered(index, inventory.row_label(row).as_str());
    let recipe = inventory.recipe(row);
    let presence = row.presence_short(now);
    let presence_role = if matches!(row.online, Some(true)) {
        Role::Good
    } else {
        Role::Muted
    };
    let name_span = Span {
        text: cat2(marker, fill(label.as_str(), NAME_COLUMNS + 4).as_str()),
        role: if selected {
            Role::Chosen
        } else {
            Role::Plain
        },
    };
    let os_text = match as_deref(&row.os) {
        Some(os) => os,
        None => "?",
    };
    let address_text = match as_deref(&row.address) {
        Some(address) => address,
        None => "no address",
    };
    let address_span = Span { text: column(address_text, ADDRESS_COLUMNS), role: Role::Plain };
    let state_span = Span {
        text: column(inventory.ouroboros_word(row).as_str(), STATE_COLUMNS),
        role: Role::Plain,
    };
    let command_span = Span {
        text: scrub(recipe.words().as_str(), command_columns(terminal)),
        role: match recipe {
            Recipe::Nothing => Role::Muted,
            Recipe::Command(_) => Role::Action,
        },
    };
    if narrow_rows(terminal) {
        let mut first: Vec<Span> = Vec::new();
        first.push(name_span);
        first.push(address_span);
        first.push(
            Span { text: scrub(presence.as_str(), PRESENCE_COLUMNS), role: presence_role },
        );
        let mut second: Vec<Span> = Vec::new();
        second.push(Span { text: "      ".to_owned(), role: Role::Plain });
        second.push(state_span);
        second.push(command_span);
        let upper = Line { spans: first };
        let lower = Line { spans: second };
        assert(upper@ =~= expected[0]);
        assert(lower@ =~= expected[1]);
        push(lines, upper);
        push(lines, lower);
        assert(page_of(lines@) =~= before + expected);
    } else {
        let mut spans: Vec<Span> = Vec::new();
        spans.push(name_span);
        spans.push(Span { text: column(os_text, OS_COLUMNS), role: Role::Muted });
        spans.push(address_span);
        spans.push(
            Span { text: column(presence.as_str(), PRESENCE_COLUMNS), role: presence_role },
        );
        spans.push(state_span);
        spans.push(command_span);
        let line = Line { spans };
        assert(line@ =~= expected[0]);
        push(lines, line);
        assert(page_of(lines@) =~= before + expected);
    }
}

// ----- the details pane -------------------------------------------------------------

pub open spec fn detail(label: Seq<char>, value: Seq<char>, role: Role) -> Said {
    seq![("  "@ + padded(label, 12), Role::Label), (value, role)]
}

fn detail_field(lines: &mut Vec<Line>, label: &str, value: String, role: Role)
    ensures
        page_of(final(lines)@) == page_of(old(lines)@).push(detail(label@, value@, role)),
{
    push(lines, two(cat2("  ", pad(label, 12).as_str()), Role::Label, value, role));
}

/// Where a device is: its address, the path to it, and its name in the fleet.
pub open spec fn where_parts(row: DeviceRow) -> Seq<Seq<char>> {
    let first = seq![drawn(or(said(row.address), "no address"@), ROW_FIELD_COLUMNS as nat)];
    let second = match said(row.path) {
        Some(path) => first.push(drawn(path, ROW_FIELD_COLUMNS as nat)),
        None => first,
    };
    match said(row.machine) {
        Some(machine) => second.push("in the fleet as "@ + drawn(machine, NAME_COLUMNS as nat)),
        None => second,
    }
}

pub open spec fn operation_parts(operation: OperationSummary) -> Seq<Seq<char>> {
    let first = seq![
        drawn(operation.operation@, OWN_WORDS_COLUMNS as nat),
        operation.state_label_words(),
    ];
    let second = if operation.running {
        first.push("a worker is running it"@)
    } else {
        first
    };
    match said(operation.updated_at) {
        Some(updated) => second.push(drawn(updated, ROW_FIELD_COLUMNS as nat)),
        None => second,
    }
}

pub open spec fn command_part(inventory: Inventory, row: DeviceRow) -> Seq<Said> {
    match inventory.recipe_for(row) {
        Some(command) => seq![
            detail("to run"@, drawn(command, COMMAND_PANE_COLUMNS as nat), Role::Action),
            detail(
                ""@,
                drawn(inventory.host.actions_text(), OWN_WORDS_COLUMNS as nat),
                Role::Muted,
            ),
        ],
        None => seq![detail("to run"@, "\u{2014}"@, Role::Muted)],
    }
}

pub open spec fn operation_part(inventory: Inventory, row: DeviceRow) -> Seq<Said> {
    match latest(inventory.operations@, row) {
        None => Seq::empty(),
        Some(operation) => {
            let first = seq![
                detail("operation"@, joined(operation_parts(operation), " \u{b7} "@), Role::Plain),
            ];
            match said(operation.last_error) {
                Some(error) => first.push(
                    detail("last error"@, drawn(error, OWN_WORDS_COLUMNS as nat), Role::Warn),
                ),
                None => first,
            }
        },
    }
}

pub open spec fn runtime_part(row: DeviceRow) -> Seq<Said> {
    match row.facts_words() {
        Some(facts) => seq![
            detail("runtime"@, drawn(facts, OWN_WORDS_COLUMNS as nat), Role::Plain),
        ],
        None => Seq::empty(),
    }
}

/// Why there is no command, and whose name this device has taken.
pub open spec fn caution_part(row: DeviceRow) -> Seq<Said> {
    let reason = match row.no_recipe_words() {
        Some(reason) => seq![
            seq![("  "@ + drawn(reason, MESSAGE_COLUMNS as nat), Role::Muted)],
        ],
        None => Seq::empty(),
    };
    match said(row.name_conflict) {
        Some(machine) => reason.push(
            seq![
                (
                    "  this device calls itself "@ + drawn(machine, NAME_COLUMNS as nat)
                        + ", which is the name of a machine in this fleet at a different address. It is not that machine."@,
                    Role::Warn,
                ),
            ],
        ),
        None => reason,
    }
}

/// The pane under the list: the command in full and whose shell it belongs in, the facts that do
/// not fit on a row, and what the runtime is already doing about this device.
pub open spec fn details_view(inventory: Inventory, row: DeviceRow) -> Seq<Said> {
    seq![seq![(inventory.label_words(row), Role::Heading)]] + command_part(inventory, row) + seq![
        detail("address"@, joined(where_parts(row), " \u{b7} "@), Role::Plain),
        detail("presence"@, row.presence_words(), Role::Plain),
        detail(
            "ouroboros"@,
            drawn(inventory.word_for(row), OWN_WORDS_COLUMNS as nat),
            Role::Plain,
        ),
    ] + runtime_part(row) + operation_part(inventory, row) + caution_part(row)
}

fn push_command(inventory: &Inventory, row: &DeviceRow, lines: &mut Vec<Line>)
    ensures
        page_of(final(lines)@) == page_of(old(lines)@) + command_part(*inventory, *row),
{
    let ghost start = page_of(lines@);
    match inventory.recipe(row).command() {
        Some(command) => {
            detail_field(lines, "to run", scrub(command, COMMAND_PANE_COLUMNS), Role::Action);
            detail_field(
                lines,
                "",
                scrub(inventory.host.actions_line().as_str(), OWN_WORDS_COLUMNS),
                Role::Muted,
            );
        },
        None => {
            detail_field(lines, "to run", "\u{2014}".to_owned(), Role::Muted);
        },
    }
    assert(page_of(lines@) =~= start + command_part(*inventory, *row));
}

fn where_text(row: &DeviceRow) -> (r: String)
    ensures
        r@ == joined(where_parts(*row), " \u{b7} "@),
{
    let mut place: Vec<String> = Vec::new();
    place.push(
        scrub(
            match as_deref(&row.address) {
                Some(address) => address,
                None => "no address",
            },
            ROW_FIELD_COLUMNS,
        ),
    );
    if let Some(path) = as_deref(&row.path) {
        place.push(scrub(path, ROW_FIELD_COLUMNS));
    }
    if let Some(machine) = as_deref(&row.machine) {
        place.push(cat2("in the fleet as ", scrub(machine, NAME_COLUMNS).as_str()));
    }
    assert(texts(place@) =~= where_parts(*row));
    join(&place, " \u{b7} ")
}

fn push_operation(inventory: &Inventory, row: &DeviceRow, lines: &mut Vec<Line>)
    ensures
        page_of(final(lines)@) == page_of(old(lines)@) + operation_part(*inventory, *row),
{
    let ghost start = page_of(lines@);
    if let Some(summary) = latest_operation_for(inventory, row) {
        let mut parts: Vec<String> = Vec::new();
        parts.push(scrub(summary.operation.as_str(), OWN_WORDS_COLUMNS));
        parts.push(summary.state_label());
        if summary.running {
            parts.push("a worker is running it".to_owned());
        }
        if let Some(updated) = as_deref(&summary.updated_at) {
            parts.push(scrub(updated, ROW_FIELD_COLUMNS));
        }
        assert(texts(parts@) =~= operation_parts(*summary));
        detail_field(lines, "operation", join(&parts, " \u{b7} "), Role::Plain);
        if let Some(error) = as_deref(&summary.last_error) {
            detail_field(lines, "last error", scrub(error, OWN_WORDS_COLUMNS), Role::Warn);
        }
    }
    assert(page_of(lines@) =~= start + operation_part(*inventory, *row));
}

fn push_caution(row: &DeviceRow, lines: &mut Vec<Line>)
    ensures
        page_of(final(lines)@) == page_of(old(lines)@) + caution_part(*row),
{
    let ghost start = page_of(lines@);
    if let Some(reason) = row.no_recipe_reason() {
        push(
            lines,
            one(cat2("  ", scrub(reason.as_str(), MESSAGE_COLUMNS).as_str()), Role::Muted),
        );
    }
    if let Some(machine) = as_deref(&row.name_conflict) {
        push(
            lines,
            one(
                cat3(
                    "  this device calls itself ",
                    scrub(machine, NAME_COLUMNS).as_str(),
                    ", which is the name of a machine in this fleet at a different address. It is not that machine.",
                ),
                Role::Warn,
            ),
        );
    }
    assert(page_of(lines@) =~= start + caution_part(*row));
}

fn details_lines(inventory: &Inventory, row: &DeviceRow, lines: &mut Vec<Line>)
    ensures
        page_of(final(lines)@) == page_of(old(lines)@) + details_view(*inventory, *row),
{
    let ghost start = page_of(lines@);
    push(lines, one(inventory.row_label(row), Role::Heading));
    push_command(inventory, row, lines);
    detail_field(lines, "address", where_text(row), Role::Plain);
    detail_field(lines, "presence", row.presence(), Role::Plain);
    detail_field(
        lines,
        "ouroboros",
        scrub(inventory.ouroboros_word(row).as_str(), OWN_WORDS_COLUMNS),
        Role::Plain,
    );
    let ghost held = page_of(lines@);
    if let Some(facts) = row.runtime_facts() {
        detail_field(lines, "runtime", scrub(facts.as_str(), OWN_WORDS_COLUMNS), Role::Plain);
    }
    assert(page_of(lines@) =~= held + runtime_part(*row));
    push_operation(inventory, row, lines);
    push_caution(row, lines);
    proof {
        let head = seq![seq![(inventory.label_words(*row), Role::Heading)]];
        let command = command_part(*inventory, *row);
        let middle = seq![
            detail("address"@, joined(where_parts(*row), " \u{b7} "@), Role::Plain),
            detail("presence"@, row.presence_words(), Role::Plain),
            detail(
                "ouroboros"@,
                drawn(inventory.word_for(*row), OWN_WORDS_COLUMNS as nat),
                Role::Plain,
            ),
        ];
        assert(held =~= start + head + command + middle);
        lemma_appended(
            start,
            head,
            command,
            middle,
            runtime_part(*row),
            operation_part(*inventory, *row),
            caution_part(*row),
        );
    }
}

proof fn lemma_appended(
    start: Seq<Said>,
    a: Seq<Said>,
    b: Seq<Said>,
    c: Seq<Said>,
    d: Seq<Said>,
    e: Seq<Said>,
    f: Seq<Said>,
)
    ensures
        start + a + b + c + d + e + f == start + (a + b + c + d + e + f),
{
    assert(start + a + b + c + d + e + f =~= start + (a + b + c + d + e + f));
}

// ----- the page ---------------------------------------------------------------------

/// The first keys, each bounded, as far as they are named.
pub open spec fn named_keys(keys: Seq<String>) -> Seq<Seq<char>> {
    let n = if keys.len() < UNKNOWN_KEYS_NAMED {
        keys.len() as int
    } else {
        UNKNOWN_KEYS_NAMED as int
    };
    keys.take(n).map_values(|key: String| drawn(key@, UNKNOWN_KEY_COLUMNS as nat))
}

/// The keys this client does not read, named while they fit and counted after that.
pub open spec fn unknown_words(keys: Seq<String>) -> Seq<char> {
    let named = joined(named_keys(keys), ", "@);
    let more = keys.len() - UNKNOWN_KEYS_NAMED;
    let sentence = if more <= 0 {
        "this runtime also reported "@ + named + ", which this client does not read"@
    } else {
        "this runtime also reported "@ + named + " and "@ + decimal(more as nat) + (if more == 1 {
            " other key"@
        } else {
            " other keys"@
        }) + ", which this client does not read"@
    };
    drawn(sentence, MESSAGE_COLUMNS as nat)
}

pub fn unknown_keys_line(keys: &Vec<String>) -> (r: String)
    ensures
        r@ == unknown_words(keys@),
{
    let mut named: Vec<String> = Vec::new();
    let mut i: usize = 0;
    while i < keys.len() && i < UNKNOWN_KEYS_NAMED
        invariant
            i <= keys@.len(),
            i <= UNKNOWN_KEYS_NAMED,
            named@.len() == i,
            forall|k: int|
                0 <= k < i ==> (#[trigger] named@[k])@ == drawn(
                    keys@[k]@,
                    UNKNOWN_KEY_COLUMNS as nat,
                ),
        decreases keys@.len() - i,
    {
        named.push(scrub(keys[i].as_str(), UNKNOWN_KEY_COLUMNS));
        i += 1;
    }
    assert(texts(named@) =~= named_keys(keys@));
    let list = join(&named, ", ");
    let sentence = if keys.len() <= UNKNOWN_KEYS_NAMED {
        cat3("this runtime also reported ", list.as_str(), ", which this client does not read")
    } else {
        let more: usize = keys.len() - UNKNOWN_KEYS_NAMED;
        let mut out = cat4(
            "this runtime also reported ",
            list.as_str(),
            " and ",
            count(more).as_str(),
        );
        out.append(
            if more == 1 {
                " other key"
            } else {
                " other keys"
            },
        );
        out.append(", which this client does not read");
        out
    };
    scrub(sentence.as_str(), MESSAGE_COLUMNS)
}

/// What an empty list says.
pub open spec fn empty_words(state: DevicesState, inventory: Inventory) -> Seq<char> {
    if inventory.devices@.len() > crate::devices::NARROWING_ROWS && (state.query@.len() > 0
        || state.filter != Filter::All) {
        "no device here matches the filter and search in force"@
    } else {
        match said(inventory.discovery.detail) {
            Some(detail) => inventory.discovery.headline_words() + " \u{2014} "@ + detail,
            None => inventory.discovery.headline_words(),
        }
    }
}

fn empty_sentence(state: &DevicesState, inventory: &Inventory) -> (r: String)
    ensures
        r@ == empty_words(*state, *inventory),
{
    if state.narrowing(inventory) && (!state.query.as_str().is_empty() || state.filter
        != Filter::All) {
        return "no device here matches the filter and search in force".to_owned();
    }
    match as_deref(&inventory.discovery.detail) {
        Some(detail) => cat3(inventory.discovery.headline().as_str(), " \u{2014} ", detail),
        None => inventory.discovery.headline(),
    }
}

pub open spec fn subset_rows(subset: FleetSubset) -> Seq<Said> {
    Seq::new(
        subset.machines@.len(),
        |i: int|
            seq![
                (
                    numbered_text(
                        i as nat,
                        subset.machines@[i].0@ + " \u{b7} "@ + subset.machines@[i].1@,
                    ),
                    Role::Plain,
                ),
            ],
    )
}

/// The page of a listener that cannot have the inventory: its fleet membership.
pub open spec fn fallback_view(state: DevicesState) -> Seq<Said> {
    let head = seq![seq![("Fleet devices"@, Role::Heading)]];
    match state.fallback.value {
        None => head.push(
            seq![
                (
                    match said(state.fallback.error) {
                        Some(error) => "fleet.status could not be read either: "@ + error,
                        None => "reading this machine's fleet membership"@,
                    },
                    Role::Muted,
                ),
            ],
        ),
        Some(subset) => {
            let named = match said(subset.fleet_name) {
                Some(name) => head.push(
                    seq![("fleet       "@, Role::Label), (name, Role::Plain)],
                ),
                None => head,
            };
            if subset.machines@.len() == 0 {
                named.push(seq![("this runtime reports no fleet members"@, Role::Muted)])
            } else {
                named + subset_rows(subset)
            }
        },
    }
}

fn fallback_lines(state: &DevicesState, lines: &mut Vec<Line>)
    ensures
        page_of(final(lines)@) == page_of(old(lines)@) + fallback_view(*state),
{
    let ghost start = page_of(lines@);
    push(lines, one("Fleet devices".to_owned(), Role::Heading));
    match &state.fallback.value {
        None => {
            let text = match as_deref(&state.fallback.error) {
                Some(error) => cat2("fleet.status could not be read either: ", error),
                None => "reading this machine's fleet membership".to_owned(),
            };
            push(lines, one(text, Role::Muted));
            assert(page_of(lines@) =~= start + fallback_view(*state));
        },
        Some(subset) => {
            if let Some(name) = as_deref(&subset.fleet_name) {
                push(
                    lines,
                    two("fleet       ".to_owned(), Role::Label, name.to_owned(), Role::Plain),
                );
            }
            let ghost held = page_of(lines@);
            if subset.machines.len() == 0 {
                push(lines, one("this runtime reports no fleet members".to_owned(), Role::Muted));
                assert(page_of(lines@) =~= start + fallback_view(*state));
                return;
            }
            let ghost rows = subset_rows(*subset);
            let mut i: usize = 0;
            assert(held + rows.take(0) =~= held);
            while i < subset.machines.len()
                invariant
                    i <= subset.machines@.len(),
                    rows == subset_rows(*subset),
                    page_of(lines@) == held + rows.take(i as int),
                decreases subset.machines@.len() - i,
            {
                let entry = &subset.machines[i];
                let text = numbered(
                    i,
                    cat3(entry.0.as_str(), " \u{b7} ", entry.1.as_str()).as_str(),
                );
                let ghost before = page_of(lines@);
                let line = one(text, Role::Plain);
                assert(line@ =~= rows[i as int]);
                push(lines, line);
                assert(page_of(lines@) =~= held + rows.take(i + 1));
                i += 1;
            }
            assert(rows.take(i as int) =~= rows);
            assert(page_of(lines@) =~= start + fallback_view(*state));
        },
    }
}

/// Every row of the list, in order.
pub open spec fn rows_view(
    rows: Seq<DeviceRow>,
    cursor: nat,
    inventory: Inventory,
    terminal: nat,
    now: int,
) -> Seq<Said>
    decreases rows.len(),
{
    if rows.len() == 0 {
        Seq::empty()
    } else {
        rows_view(rows.drop_last(), cursor, inventory, terminal, now) + row_view(
            cursor,
            inventory,
            rows.last(),
            (rows.len() - 1) as nat,
            terminal,
            now,
        )
    }
}

/// The lines above the list of an inventory.
pub open spec fn head_view(state: DevicesState, inventory: Inventory) -> Seq<Said> {
    let status = seq![
        seq![
            (
                inventory.status_words(),
                if inventory.is_standalone() {
                    Role::Accent
                } else if inventory.has_a_fleet() {
                    Role::Good
                } else {
                    Role::Muted
                },
            ),
        ],
        seq![(inventory.host.actions_text(), Role::Muted)],
    ];
    let notice = match inventory.discovery.notice_words() {
        Some(notice) => status.push(seq![(drawn(notice, MESSAGE_COLUMNS as nat), Role::Warn)]),
        None => status,
    };
    let blocker = match inventory.host.blocker_words() {
        Some(blocker) => notice.push(seq![(drawn(blocker, MESSAGE_COLUMNS as nat), Role::Warn)]),
        None => notice,
    };
    if inventory.devices@.len() > crate::devices::NARROWING_ROWS {
        blocker.push(
            seq![
                ("filter "@, Role::Label),
                (crate::devices::filter_words(state.filter), Role::Plain),
                ("   search "@, Role::Label),
                (
                    if state.query@.len() == 0 {
                        "(none)"@
                    } else {
                        state.query@
                    },
                    Role::Plain,
                ),
                (
                    if state.searching {
                        "  typing"@
                    } else {
                        ""@
                    },
                    Role::Accent,
                ),
            ],
        )
    } else {
        blocker
    }
}

pub open spec fn list_view(
    state: DevicesState,
    inventory: Inventory,
    terminal: nat,
    now: int,
) -> Seq<Said> {
    let rows = state.shown_rows(inventory);
    if rows.len() == 0 {
        seq![seq![(empty_words(state, inventory), Role::Muted)]]
    } else {
        rows_view(rows, state.cursor as nat, inventory, terminal, now)
    }
}

pub open spec fn tail_view(state: DevicesState, inventory: Inventory) -> Seq<Said> {
    let details = match state.selected_row(inventory) {
        Some(row) => if state.details {
            seq![blank_line()] + details_view(inventory, row)
        } else {
            Seq::empty()
        },
        None => Seq::empty(),
    };
    let unknown = if inventory.unknown@.len() > 0 {
        seq![seq![(unknown_words(inventory.unknown@), Role::Muted)]]
    } else {
        Seq::empty()
    };
    details + seq![
        blank_line(),
        seq![
            ("Not listed?  "@, Role::Muted),
            ("ouro fleet add USER@ADDRESS --machine NAME"@, Role::Action),
        ],
    ] + unknown
}

/// The whole page.
pub open spec fn page_view(state: DevicesState, terminal: nat, now: int) -> Seq<Said> {
    let title = seq![seq![("Devices"@, Role::Heading)]];
    match state.refusal {
        Some(refusal) => title + seq![seq![(refusal.words(), Role::Warn)], blank_line()]
            + fallback_view(state),
        None => match state.inventory.value {
            None => title.push(
                seq![
                    (
                        match said(state.inventory.error) {
                            Some(error) => "the inventory could not be read: "@ + error,
                            None => "reading this machine's inventory"@,
                        },
                        Role::Muted,
                    ),
                ],
            ),
            Some(inventory) => title + head_view(state, inventory) + seq![blank_line()]
                + list_view(state, inventory, terminal, now) + tail_view(state, inventory),
        },
    }
}

fn head_lines(state: &DevicesState, inventory: &Inventory, lines: &mut Vec<Line>)
    ensures
        page_of(final(lines)@) == page_of(old(lines)@) + head_view(*state, *inventory),
{
    let ghost start = page_of(lines@);
    let role = if inventory.standalone() {
        Role::Accent
    } else if inventory.describes_a_fleet() {
        Role::Good
    } else {
        Role::Muted
    };
    push(lines, one(inventory.status_line(), role));
    push(lines, one(inventory.host.actions_line(), Role::Muted));
    if let Some(notice) = inventory.discovery.notice() {
        push(lines, one(scrub(notice.as_str(), MESSAGE_COLUMNS), Role::Warn));
    }
    if let Some(blocker) = inventory.host.blocker() {
        push(lines, one(scrub(blocker.as_str(), MESSAGE_COLUMNS), Role::Warn));
    }
    if state.narrowing(inventory) {
        let mut spans: Vec<Span> = Vec::new();
        spans.push(Span { text: "filter ".to_owned(), role: Role::Label });
        spans.push(Span { text: state.filter.label().to_owned(), role: Role::Plain });
        spans.push(Span { text: "   search ".to_owned(), role: Role::Label });
        spans.push(
            Span {
                text: if state.query.as_str().is_empty() {
                    "(none)".to_owned()
                } else {
                    state.query.clone()
                },
                role: Role::Plain,
            },
        );
        spans.push(
            Span {
                text: if state.searching {
                    "  typing".to_owned()
                } else {
                    "".to_owned()
                },
                role: Role::Accent,
            },
        );
        let line = Line { spans };
        assert(line@ =~= head_view(*state, *inventory).last());
        push(lines, line);
    }
    assert(page_of(lines@) =~= start + head_view(*state, *inventory));
}

fn list_lines(
    state: &DevicesState,
    inventory: &Inventory,
    terminal: u16,
    now: u64,
    lines: &mut Vec<Line>,
)
    ensures
        page_of(final(lines)@) == page_of(old(lines)@) + list_view(
            *state,
            *inventory,
            terminal as nat,
            now as int,
        ),
{
    let ghost start = page_of(lines@);
    let rows = state.visible(inventory);
    let ghost shown = behind(rows@);
    assert(rows@.len() == shown.len());
    if rows.len() == 0 {
        push(lines, one(empty_sentence(state, inventory), Role::Muted));
        assert(page_of(lines@) =~= start + list_view(
            *state,
            *inventory,
            terminal as nat,
            now as int,
        ));
        return;
    }
    let mut i: usize = 0;
    proof {
        assert(start + rows_view(
            shown.take(0),
            state.cursor as nat,
            *inventory,
            terminal as nat,
            now as int,
        ) =~= start);
    }
    while i < rows.len()
        invariant
            i <= rows@.len(),
            shown == behind(rows@),
            rows@.len() == shown.len(),
            page_of(lines@) == start + rows_view(
                shown.take(i as int),
                state.cursor as nat,
                *inventory,
                terminal as nat,
                now as int,
            ),
        decreases rows@.len() - i,
    {
        let row = rows[i];
        let ghost before = rows_view(
            shown.take(i as int),
            state.cursor as nat,
            *inventory,
            terminal as nat,
            now as int,
        );
        let ghost added = row_view(
            state.cursor as nat,
            *inventory,
            *row,
            i as nat,
            terminal as nat,
            now as int,
        );
        proof {
            assert(shown.take(i + 1).drop_last() =~= shown.take(i as int));
            assert(shown.take(i + 1).last() == *row);
        }
        row_line(state.cursor, inventory, row, i, terminal, now, lines);
        assert(start + before + added =~= start + (before + added));
        i += 1;
    }
    assert(shown.take(i as int) =~= shown);
}

fn tail_lines(state: &DevicesState, inventory: &Inventory, lines: &mut Vec<Line>)
    ensures
        page_of(final(lines)@) == page_of(old(lines)@) + tail_view(*state, *inventory),
{
    let ghost start = page_of(lines@);
    if state.details {
        if let Some(row) = state.selected(inventory) {
            push(lines, blank());
            details_lines(inventory, row, lines);
        }
    }
    let ghost held = page_of(lines@);
    proof {
        let details = match state.selected_row(*inventory) {
            Some(row) => if state.details {
                seq![blank_line()] + details_view(*inventory, row)
            } else {
                Seq::empty()
            },
            None => Seq::empty(),
        };
        assert(held =~= start + details);
    }
    push(lines, blank());
    push(
        lines,
        two("Not listed?  ".to_owned(), Role::Muted, Recipe::manual(), Role::Action),
    );
    if inventory.unknown.len() > 0 {
        push(lines, one(unknown_keys_line(&inventory.unknown), Role::Muted));
    }
    assert(page_of(lines@) =~= start + tail_view(*state, *inventory));
}

fn inventory_lines(state: &DevicesState, terminal: u16, now: u64, lines: &mut Vec<Line>)
    ensures
        page_of(final(lines)@) == page_of(old(lines)@) + page_view(
            *state,
            terminal as nat,
            now as int,
        ),
{
    let ghost start = page_of(lines@);
    push(lines, one("Devices".to_owned(), Role::Heading));
    if let Some(refusal) = &state.refusal {
        push(lines, one(refusal.sentence(), Role::Warn));
        push(lines, blank());
        fallback_lines(state, lines);
        assert(page_of(lines@) =~= start + page_view(*state, terminal as nat, now as int));
        return;
    }
    match &state.inventory.value {
        None => {
            let text = match as_deref(&state.inventory.error) {
                Some(error) => cat2("the inventory could not be read: ", error),
                None => "reading this machine's inventory".to_owned(),
            };
            push(lines, one(text, Role::Muted));
        },
        Some(inventory) => {
            head_lines(state, inventory, lines);
            push(lines, blank());
            list_lines(state, inventory, terminal, now, lines);
            tail_lines(state, inventory, lines);
        },
    }
    assert(page_of(lines@) =~= start + page_view(*state, terminal as nat, now as int));
}

/// The page, for a terminal of a width and at a moment in seconds since the epoch. A width of
/// zero is one that is not known yet.
pub fn devices_lines(state: &DevicesState, terminal: u16, now: u64) -> (r: Vec<Line>)
    ensures
        page_of(r@) == page_view(*state, terminal as nat, now as int),
{
    let mut lines: Vec<Line> = Vec::new();
    inventory_lines(state, terminal, now, &mut lines);
    assert(page_of(lines@) =~= page_view(*state, terminal as nat, now as int));
    lines
}

// ----- the hint ---------------------------------------------------------------------

pub open spec fn hint_words(state: DevicesState, terminal: nat) -> Seq<char> {
    if state.searching {
        "type to search by name or address \u{b7} Enter keeps it \u{b7} Esc clears it"@
    } else if state.inventory_paging {
        "PgUp/PgDn scroll \u{b7} Enter details \u{b7} Esc close"@
    } else {
        let narrowing = state.inventory.value is Some
            && state.inventory.value->0.devices@.len() > crate::devices::NARROWING_ROWS;
        (if is_narrow(terminal) {
            "\u{2191}\u{2193} Enter "@ + (if state.details {
                "hide"@
            } else {
                "details"@
            }) + " \u{b7} r refresh"@ + (if narrowing {
                " \u{b7} / f"@
            } else {
                ""@
            })
        } else {
            "\u{2191}\u{2193} select \u{b7} Enter "@ + (if state.details {
                "hide details"@
            } else {
                "show details"@
            }) + " \u{b7} r refresh"@ + (if narrowing {
                " \u{b7} / search \u{b7} f filter"@
            } else {
                ""@
            })
        }) + " \u{b7} Esc close"@
    }
}

/// The keys that work here, now. Searching and filtering are offered only on a list long enough
/// to narrow.
pub fn devices_hint_line(state: &DevicesState, terminal: u16) -> (r: String)
    ensures
        r@ == hint_words(*state, terminal as nat),
{
    if state.searching {
        return "type to search by name or address \u{b7} Enter keeps it \u{b7} Esc clears it".to_owned();
    }
    if state.inventory_paging {
        return "PgUp/PgDn scroll \u{b7} Enter details \u{b7} Esc close".to_owned();
    }
    let narrowing = match &state.inventory.value {
        Some(inventory) => state.narrowing(inventory),
        None => false,
    };
    let narrow = narrow_rows(terminal);
    let mut hint = if narrow {
        cat3(
            "\u{2191}\u{2193} Enter ",
            if state.details {
                "hide"
            } else {
                "details"
            },
            " \u{b7} r refresh",
        )
    } else {
        cat3(
            "\u{2191}\u{2193} select \u{b7} Enter ",
            if state.details {
                "hide details"
            } else {
                "show details"
            },
            " \u{b7} r refresh",
        )
    };
    hint.append(
        if narrowing {
            if narrow {
                " \u{b7} / f"
            } else {
                " \u{b7} / search \u{b7} f filter"
            }
        } else {
            ""
        },
    );
    hint.append(" \u{b7} Esc close");
    hint
}

} // verus!
