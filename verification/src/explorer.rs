//! A list on the left and a value tree on the right.

use vstd::prelude::*;

use crate::forms::{clamp, clamped};
use crate::json::{items_view, seen, Json, JsonView};
use crate::panel::Loadable;
use crate::text::{cat2, cat3, cat5, said, same};

verus! {

/// How often a list is asked for, in ticks.
pub const LIST_TICKS: u64 = 12;

/// How often the detail of a row is: it is a whole state tree.
pub const DETAIL_TICKS: u64 = 40;

pub const UPGRADE_TICKS: u64 = 20;

#[derive(Debug, Clone, Copy, PartialEq, Eq, Structural)]
pub enum Pane {
    List,
    Detail,
}

/// One row of a list, read off whatever the method answered.
#[derive(Debug)]
pub struct Row {
    pub id: String,
    pub label: String,
    pub status: Option<String>,
    pub raw: Json,
}

// ----- trees ------------------------------------------------------------------------

/// Which row of a tree the cursor is on, and which nodes are open.
#[derive(Debug)]
pub struct TreeState {
    pub selected: usize,
    /// The paths of the open nodes.
    pub open: Vec<String>,
}

/// The row of a tree the cursor is on, as it was drawn.
#[derive(Debug)]
pub struct TreeRow {
    pub path: String,
    pub expandable: bool,
    pub expanded: bool,
}

pub open spec fn paths(open: Seq<String>) -> Set<Seq<char>> {
    crate::text::texts(open).to_set()
}

impl TreeState {
    /// The root is open: a tree whose root is closed shows one line where the answer is.
    pub open spec fn is_fresh(&self) -> bool {
        self.selected == 0 && self.open@.len() == 1 && self.open@[0]@.len() == 0
    }

    pub fn opened() -> (r: TreeState)
        ensures
            r.is_fresh(),
    {
        let mut open: Vec<String> = Vec::new();
        open.push(String::new());
        TreeState { selected: 0, open }
    }

    pub fn reset(&mut self)
        ensures
            final(self).is_fresh(),
    {
        let mut fresh = TreeState::opened();
        std::mem::swap(self, &mut fresh);
    }

    pub fn move_by(&mut self, delta: isize, rows: usize)
        ensures
            *final(self) == (TreeState {
                selected: clamped(
                    old(self).selected as int,
                    delta as int,
                    rows as int,
                ) as usize,
                ..*old(self)
            }),
    {
        self.selected = clamp(self.selected, delta, rows);
    }

    fn find(&self, path: &str) -> (r: Option<usize>)
        ensures
            match r {
                Some(i) => i < self.open@.len() && self.open@[i as int]@ == path@ && paths(
                    self.open@,
                ).contains(path@),
                None => !paths(self.open@).contains(path@),
            },
    {
        let mut i: usize = 0;
        while i < self.open.len()
            invariant
                i <= self.open@.len(),
                forall|k: int| 0 <= k < i ==> (#[trigger] self.open@[k])@ != path@,
            decreases self.open@.len() - i,
        {
            if same(self.open[i].as_str(), path) {
                assert(crate::text::texts(self.open@)[i as int] == path@);
                return Some(i);
            }
            i += 1;
        }
        assert(!crate::text::texts(self.open@).contains(path@));
        None
    }

    /// Closes a node, wherever it is open.
    pub fn collapse(&mut self, path: &str)
        ensures
            paths(final(self).open@) == paths(old(self).open@).remove(path@),
            final(self).selected == old(self).selected,
    {
        let ghost start = paths(self.open@);
        let ghost row: usize = self.selected;
        let mut i: usize = 0;
        let mut kept: Vec<String> = Vec::new();
        while i < self.open.len()
            invariant
                i <= self.open@.len(),
                start == paths(self.open@),
                self.selected == row,
                forall|p: Seq<char>|
                    #[trigger] paths(kept@).contains(p) <==> p != path@ && exists|k: int|
                        0 <= k < i && (#[trigger] self.open@[k])@ == p,
            decreases self.open@.len() - i,
        {
            let ghost before = kept@;
            if !same(self.open[i].as_str(), path) {
                kept.push(self.open[i].clone());
            }
            assert forall|p: Seq<char>|
                #[trigger] paths(kept@).contains(p) <==> p != path@ && exists|k: int|
                    0 <= k < i + 1 && (#[trigger] self.open@[k])@ == p by {
                let now = crate::text::texts(kept@);
                let was = crate::text::texts(before);
                if now.contains(p) {
                    let j = choose|j: int| 0 <= j < now.len() && now[j] == p;
                    if j < was.len() {
                        assert(was[j] == p);
                        assert(paths(before).contains(p));
                        let k = choose|k: int| 0 <= k < i && (#[trigger] self.open@[k])@ == p;
                        assert(0 <= k < i + 1);
                    } else {
                        assert(self.open@[i as int]@ == p);
                    }
                }
                if p != path@ && exists|k: int| 0 <= k < i + 1 && (#[trigger] self.open@[k])@ == p {
                    let k = choose|k: int| 0 <= k < i + 1 && (#[trigger] self.open@[k])@ == p;
                    if k < i {
                        assert(paths(before).contains(p));
                        let j = choose|j: int| 0 <= j < was.len() && was[j] == p;
                        assert(now[j] == p);
                    } else {
                        assert(now[was.len() as int] == p);
                    }
                }
            }
            i += 1;
        }
        proof {
            assert(paths(kept@) =~= start.remove(path@)) by {
                assert forall|p: Seq<char>|
                    #[trigger] paths(kept@).contains(p) <==> start.contains(p) && p != path@ by {
                    if start.contains(p) {
                        let all = crate::text::texts(self.open@);
                        let k = choose|k: int| 0 <= k < all.len() && all[k] == p;
                        assert(self.open@[k]@ == p);
                    }
                    if paths(kept@).contains(p) {
                        let k = choose|k: int| 0 <= k < i && (#[trigger] self.open@[k])@ == p;
                        assert(crate::text::texts(self.open@)[k] == p);
                    }
                }
            }
        }
        self.open = kept;
    }

    /// Opens a closed node, and closes an open one.
    pub open spec fn turned(&self, after: TreeState, path: Seq<char>) -> bool {
        &&& paths(after.open@) == if paths(self.open@).contains(path) {
            paths(self.open@).remove(path)
        } else {
            paths(self.open@).insert(path)
        }
        &&& after.selected == self.selected
    }

    pub fn toggle(&mut self, path: &str)
        ensures
            old(self).turned(*final(self), path@),
    {
        if self.find(path).is_some() {
            self.collapse(path);
        } else {
            let ghost was = crate::text::texts(self.open@);
            self.open.push(path.to_owned());
            proof {
                let now = crate::text::texts(self.open@);
                assert(now =~= was.push(path@));
                assert(now.to_set() =~= was.to_set().insert(path@)) by {
                    assert forall|p: Seq<char>| now.contains(p) <==> was.contains(p) || p
                        == path@ by {
                        if was.contains(p) {
                            let k = choose|k: int| 0 <= k < was.len() && was[k] == p;
                            assert(now[k] == p);
                        }
                        if p == path@ {
                            assert(now[was.len() as int] == p);
                        }
                    }
                }
            }
        }
    }
}

// ----- the explorer -----------------------------------------------------------------

#[derive(Debug)]
pub struct Explorer {
    pub rows: Loadable<Vec<Row>>,
    pub selected: usize,
    pub detail: Loadable<Json>,
    pub tree: TreeState,
    pub focus: Pane,
    /// The row whose detail is held.
    pub detail_of: Option<String>,
}

impl Default for Explorer {
    fn default() -> (r: Explorer)
        ensures
            r.is_fresh(),
    {
        Explorer {
            rows: Loadable::default(),
            selected: 0,
            detail: Loadable::default(),
            tree: TreeState::opened(),
            focus: Pane::List,
            detail_of: None,
        }
    }
}

impl Explorer {
    pub open spec fn is_fresh(&self) -> bool {
        &&& self.rows == Loadable::<Vec<Row>>::blank()
        &&& self.selected == 0
        &&& self.detail == Loadable::<Json>::blank()
        &&& self.tree.is_fresh()
        &&& self.focus is List
        &&& self.detail_of is None
    }

    pub open spec fn count(&self) -> nat {
        match self.rows.value {
            Some(rows) => rows@.len(),
            None => 0,
        }
    }

    /// The row the cursor is on, where there is one.
    pub open spec fn chosen(&self) -> Option<Row> {
        match self.rows.value {
            Some(rows) => if self.selected < rows@.len() {
                Some(rows@[self.selected as int])
            } else {
                None
            },
            None => None,
        }
    }

    pub fn current(&self) -> (r: Option<&Row>)
        ensures
            match r {
                Some(row) => self.chosen() == Some(*row),
                None => self.chosen() is None,
            },
    {
        match &self.rows.value {
            Some(rows) => if self.selected < rows.len() {
                Some(&rows[self.selected])
            } else {
                None
            },
            None => None,
        }
    }

    pub fn move_by(&mut self, delta: isize)
        ensures
            *final(self) == (Explorer {
                selected: clamped(
                    old(self).selected as int,
                    delta as int,
                    old(self).count() as int,
                ) as usize,
                ..*old(self)
            }),
    {
        let len: usize = match &self.rows.value {
            Some(rows) => rows.len(),
            None => 0,
        };
        self.selected = clamp(self.selected, delta, len);
    }

    /// The explorer after whichever side has the focus moved; `drawn` is how many rows the tree
    /// has.
    pub open spec fn travelled(&self, delta: int, drawn: int) -> Explorer {
        match self.focus {
            Pane::List => Explorer {
                selected: clamped(self.selected as int, delta, self.count() as int) as usize,
                ..*self
            },
            Pane::Detail => Explorer {
                tree: TreeState {
                    selected: clamped(
                        self.tree.selected as int,
                        delta,
                        if self.detail.value is Some {
                            drawn
                        } else {
                            0
                        },
                    ) as usize,
                    ..self.tree
                },
                ..*self
            },
        }
    }

    pub fn travel(&mut self, delta: isize, drawn: usize)
        ensures
            *final(self) == old(self).travelled(delta as int, drawn as int),
    {
        match self.focus {
            Pane::List => self.move_by(delta),
            Pane::Detail => {
                let rows: usize = if self.detail.value.is_some() {
                    drawn
                } else {
                    0
                };
                self.tree.move_by(delta, rows);
            },
        }
    }

    /// The node the cursor is on is closed, or the list has the focus again where it was not open.
    pub open spec fn left(&self, after: Explorer, row: Option<TreeRow>) -> bool {
        &&& after == (Explorer { tree: after.tree, focus: after.focus, ..*self })
        &&& if self.focus is Detail && self.detail.value is Some && row is Some
            && row->0.expanded {
            &&& after.focus == Pane::Detail
            &&& paths(after.tree.open@) == paths(self.tree.open@).remove(row->0.path@)
            &&& after.tree.selected == self.tree.selected
        } else {
            after.focus == Pane::List && after.tree == self.tree
        }
    }

    pub fn leave(&mut self, row: &Option<TreeRow>)
        ensures
            old(self).left(*final(self), *row),
    {
        if self.focus == Pane::List {
            return;
        }
        if self.detail.value.is_none() {
            self.focus = Pane::List;
            return;
        }
        match row {
            Some(row) if row.expanded => self.tree.collapse(row.path.as_str()),
            _ => {
                self.focus = Pane::List;
            },
        }
    }

    /// The detail has the focus; where it had it already, the node the cursor is on was opened or
    /// closed.
    pub open spec fn entered(&self, after: Explorer, row: Option<TreeRow>) -> bool {
        &&& after == (Explorer { tree: after.tree, focus: Pane::Detail, ..*self })
        &&& if self.focus is Detail && self.detail.value is Some && row is Some
            && row->0.expandable {
            self.tree.turned(after.tree, row->0.path@)
        } else {
            after.tree == self.tree
        }
    }

    pub fn enter(&mut self, row: &Option<TreeRow>)
        ensures
            old(self).entered(*final(self), *row),
    {
        if self.focus == Pane::List {
            self.focus = Pane::Detail;
            return;
        }
        if self.detail.value.is_none() {
            return;
        }
        if let Some(row) = row {
            if row.expandable {
                self.tree.toggle(row.path.as_str());
            }
        }
    }

    /// The row whose detail is wanted moved: it is asked for at once, in a fresh tree.
    pub fn follow(&mut self, id: &str)
        ensures
            if said(old(self).detail_of) == Some(id@) {
                *final(self) == *old(self)
            } else {
                &&& final(self).detail == (Loadable { next_tick: 0, ..old(self).detail })
                &&& final(self).tree.is_fresh()
                &&& said(final(self).detail_of) == Some(id@)
                &&& *final(self) == (Explorer {
                    detail: final(self).detail,
                    tree: final(self).tree,
                    detail_of: final(self).detail_of,
                    ..*old(self)
                })
            },
    {
        let held = match &self.detail_of {
            Some(held) => same(held.as_str(), id),
            None => false,
        };
        if !held {
            self.detail.invalidate();
            self.tree.reset();
            self.detail_of = Some(id.to_owned());
        }
    }

    /// The list was answered. The cursor stays on a row.
    pub fn fill_rows(&mut self, rows: Vec<Row>, ticks: u64)
        requires
            ticks + LIST_TICKS <= u64::MAX,
        ensures
            *final(self) == (Explorer {
                rows: old(self).rows.after_ok(rows, ticks, LIST_TICKS),
                selected: if old(self).selected < rows@.len() {
                    old(self).selected
                } else if rows@.len() == 0 {
                    0
                } else {
                    (rows@.len() - 1) as usize
                },
                ..*old(self)
            }),
    {
        let len: usize = rows.len();
        if self.selected >= len {
            self.selected = if len == 0 {
                0
            } else {
                len - 1
            };
        }
        self.rows.ok(rows, ticks, LIST_TICKS);
    }
}

// ----- rows -------------------------------------------------------------------------

pub open spec fn brief_of(value: Option<JsonView>) -> Seq<char> {
    match value {
        Some(value) => value.brief(),
        None => Seq::empty(),
    }
}

fn brief(value: Option<&Json>) -> (r: String)
    ensures
        r@ == brief_of(seen(value)),
{
    match value {
        Some(value) => value.in_brief(),
        None => String::new(),
    }
}

/// Which list a row is of.
#[derive(Debug, Clone, Copy, PartialEq, Eq, Structural)]
pub enum Listing {
    Agents,
    Teams,
    Plans,
    Runs,
}

/// What a row reads as.
pub open spec fn row_label(listing: Listing, value: JsonView) -> Seq<char> {
    let id = brief_of(value.member("id"@));
    match listing {
        Listing::Agents => id + "  "@ + brief_of(value.member("node"@)),
        Listing::Teams => id + "  "@ + brief_of(value.member("worker_count"@)) + " workers  "@
            + brief_of(value.member("delegation_count"@)) + " delegations"@,
        Listing::Plans => id + "  v"@ + brief_of(value.member("version"@)),
        Listing::Runs => id + "  rev "@ + brief_of(value.member("revision"@)),
    }
}

pub open spec fn row_status(listing: Listing, value: JsonView) -> Option<Seq<char>> {
    match listing {
        Listing::Agents => match value.member("replicas"@) {
            Some(replicas) => Some(replicas.brief() + " replicas"@),
            None => None,
        },
        _ => match value.member("status"@) {
            Some(status) => Some(status.brief()),
            None => None,
        },
    }
}

impl Row {
    pub open spec fn reads(&self, listing: Listing, value: JsonView) -> bool {
        &&& self.id@ == brief_of(value.member("id"@))
        &&& self.label@ == row_label(listing, value)
        &&& said(self.status) == row_status(listing, value)
        &&& self.raw@ == value
    }
}

fn status_of(value: &Json) -> (r: Option<String>)
    ensures
        said(r) == match value@.member("status"@) {
            Some(status) => Some(status.brief()),
            None => None,
        },
{
    match value.get("status") {
        Some(status) => Some(status.in_brief()),
        None => None,
    }
}

fn project_agent(value: &Json, id: &str) -> (r: (String, Option<String>))
    requires
        id@ == brief_of(value@.member("id"@)),
    ensures
        r.0@ == row_label(Listing::Agents, value@),
        said(r.1) == row_status(Listing::Agents, value@),
{
    let status = match value.get("replicas") {
        Some(replicas) => Some(cat2(replicas.in_brief().as_str(), " replicas")),
        None => None,
    };
    (cat3(id, "  ", brief(value.get("node")).as_str()), status)
}

fn project_team(value: &Json, id: &str) -> (r: (String, Option<String>))
    requires
        id@ == brief_of(value@.member("id"@)),
    ensures
        r.0@ == row_label(Listing::Teams, value@),
        said(r.1) == row_status(Listing::Teams, value@),
{
    let counts = cat5(
        id,
        "  ",
        brief(value.get("worker_count")).as_str(),
        " workers  ",
        brief(value.get("delegation_count")).as_str(),
    );
    (cat2(counts.as_str(), " delegations"), status_of(value))
}

fn project_plan(value: &Json, id: &str) -> (r: (String, Option<String>))
    requires
        id@ == brief_of(value@.member("id"@)),
    ensures
        r.0@ == row_label(Listing::Plans, value@),
        said(r.1) == row_status(Listing::Plans, value@),
{
    (cat3(id, "  v", brief(value.get("version")).as_str()), status_of(value))
}

fn project_run(value: &Json, id: &str) -> (r: (String, Option<String>))
    requires
        id@ == brief_of(value@.member("id"@)),
    ensures
        r.0@ == row_label(Listing::Runs, value@),
        said(r.1) == row_status(Listing::Runs, value@),
{
    (cat3(id, "  rev ", brief(value.get("revision")).as_str()), status_of(value))
}

/// One row of a list, where the value has an id.
pub fn project(listing: Listing, value: Json) -> (r: Option<Row>)
    ensures
        match r {
            Some(row) => value@.member("id"@) is Some && row.reads(listing, value@),
            None => value@.member("id"@) is None,
        },
{
    let id = match value.get("id") {
        Some(id) => id.in_brief(),
        None => {
            return None;
        },
    };
    let (label, status) = match listing {
        Listing::Agents => project_agent(&value, id.as_str()),
        Listing::Teams => project_team(&value, id.as_str()),
        Listing::Plans => project_plan(&value, id.as_str()),
        Listing::Runs => project_run(&value, id.as_str()),
    };
    Some(Row { id, label, status, raw: value })
}

/// The values that have an id, in order.
pub open spec fn with_id(values: Seq<JsonView>) -> Seq<JsonView>
    decreases values.len(),
{
    if values.len() == 0 {
        Seq::empty()
    } else if values.last().member("id"@) is Some {
        with_id(values.drop_last()).push(values.last())
    } else {
        with_id(values.drop_last())
    }
}

/// The rows are those of the values, one for each that has an id.
pub open spec fn are_rows(rows: Seq<Row>, listing: Listing, values: Seq<JsonView>) -> bool {
    &&& rows.len() == with_id(values).len()
    &&& forall|i: int|
        0 <= i < rows.len() ==> (#[trigger] rows[i]).reads(listing, with_id(values)[i])
}

/// The values a list answer holds; an answer that is no list holds none.
pub open spec fn listed_values(value: JsonView) -> Seq<JsonView> {
    match value {
        JsonView::List(items) => items,
        _ => Seq::empty(),
    }
}

pub fn rows_of(listing: Listing, value: Json) -> (r: Vec<Row>)
    ensures
        are_rows(r@, listing, listed_values(value@)),
{
    let mut rows: Vec<Row> = Vec::new();
    if let Json::List(items) = value {
        proof {
            crate::json::lemma_list_view(items@);
        }
        let ghost whole = items_view(items@);
        let ghost kept = items@;
        assert(whole.take(0).len() == 0);
        for item in it: items.into_iter()
            invariant
                it.seq() == kept,
                whole == items_view(kept),
                are_rows(rows@, listing, whole.take(it.index() as int)),
        {
            let ghost at = it.index() as int;
            let ghost before = rows@;
            assert(whole.take(at + 1).drop_last() =~= whole.take(at));
            assert(whole.take(at + 1).last() == item@);
            if let Some(row) = project(listing, item) {
                rows.push(row);
                assert forall|i: int| 0 <= i < rows@.len() implies (#[trigger] rows@[i]).reads(
                    listing,
                    with_id(whole.take(at + 1))[i],
                ) by {
                    if i < before.len() {
                        assert(before[i].reads(listing, with_id(whole.take(at))[i]));
                    }
                }
            }
        }
        assert(whole.take(whole.len() as int) =~= whole);
        assert(kept.len() == whole.len());
    }
    rows
}

// ----- upgrades ---------------------------------------------------------------------

#[derive(Debug, Clone, Copy, PartialEq, Eq, Structural)]
pub enum UpgradeSection {
    Status,
    Rollouts,
    History,
    Signing,
    Grants,
}

impl UpgradeSection {
    pub const ALL: [UpgradeSection; 5] = [
        UpgradeSection::Status,
        UpgradeSection::Rollouts,
        UpgradeSection::History,
        UpgradeSection::Signing,
        UpgradeSection::Grants,
    ];

    pub open spec fn name(self) -> Seq<char> {
        match self {
            UpgradeSection::Status => "node executor"@,
            UpgradeSection::Rollouts => "rollouts"@,
            UpgradeSection::History => "module history"@,
            UpgradeSection::Signing => "signing decisions"@,
            UpgradeSection::Grants => "effect grants"@,
        }
    }

    pub fn title(self) -> (r: &'static str)
        ensures
            r@ == self.name(),
    {
        match self {
            UpgradeSection::Status => "node executor",
            UpgradeSection::Rollouts => "rollouts",
            UpgradeSection::History => "module history",
            UpgradeSection::Signing => "signing decisions",
            UpgradeSection::Grants => "effect grants",
        }
    }

    pub open spec fn call(self) -> Seq<char> {
        match self {
            UpgradeSection::Status => "upgrade.status"@,
            UpgradeSection::Rollouts => "upgrade.rollouts"@,
            UpgradeSection::History => "upgrade.history"@,
            UpgradeSection::Signing => "signing.decisions"@,
            UpgradeSection::Grants => "grants.list"@,
        }
    }

    pub fn method(self) -> (r: &'static str)
        ensures
            r@ == self.call(),
    {
        match self {
            UpgradeSection::Status => "upgrade.status",
            UpgradeSection::Rollouts => "upgrade.rollouts",
            UpgradeSection::History => "upgrade.history",
            UpgradeSection::Signing => "signing.decisions",
            UpgradeSection::Grants => "grants.list",
        }
    }
}

#[derive(Debug)]
pub struct UpgradeTab {
    pub section: usize,
    pub status: Loadable<Json>,
    pub rollouts: Loadable<Json>,
    pub history: Loadable<Json>,
    pub history_module: Option<String>,
    pub signing: Loadable<Json>,
    pub grants: Loadable<Json>,
    pub grants_principal: Option<String>,
    pub tree: TreeState,
    pub focus: Pane,
}

impl Default for UpgradeTab {
    fn default() -> (r: UpgradeTab)
        ensures
            r.is_fresh(),
    {
        UpgradeTab {
            section: 0,
            status: Loadable::default(),
            rollouts: Loadable::default(),
            history: Loadable::default(),
            history_module: None,
            signing: Loadable::default(),
            grants: Loadable::default(),
            grants_principal: None,
            tree: TreeState::opened(),
            focus: Pane::List,
        }
    }
}

impl UpgradeTab {
    pub open spec fn is_fresh(&self) -> bool {
        &&& self.section == 0
        &&& self.status == Loadable::<Json>::blank()
        &&& self.rollouts == Loadable::<Json>::blank()
        &&& self.history == Loadable::<Json>::blank()
        &&& self.history_module is None
        &&& self.signing == Loadable::<Json>::blank()
        &&& self.grants == Loadable::<Json>::blank()
        &&& self.grants_principal is None
        &&& self.tree.is_fresh()
        &&& self.focus is List
    }

    pub open spec fn chosen(&self) -> UpgradeSection {
        UpgradeSection::ALL@[if self.section < 5 {
            self.section as int
        } else {
            4
        }]
    }

    pub fn current(&self) -> (r: UpgradeSection)
        ensures
            r == self.chosen(),
    {
        let all = UpgradeSection::ALL;
        let at: usize = if self.section < 5 {
            self.section
        } else {
            4
        };
        all[at]
    }

    pub open spec fn panel_of(&self, section: UpgradeSection) -> Loadable<Json> {
        match section {
            UpgradeSection::Status => self.status,
            UpgradeSection::Rollouts => self.rollouts,
            UpgradeSection::History => self.history,
            UpgradeSection::Signing => self.signing,
            UpgradeSection::Grants => self.grants,
        }
    }

    pub fn panel(&self, section: UpgradeSection) -> (r: &Loadable<Json>)
        ensures
            *r == self.panel_of(section),
    {
        match section {
            UpgradeSection::Status => &self.status,
            UpgradeSection::Rollouts => &self.rollouts,
            UpgradeSection::History => &self.history,
            UpgradeSection::Signing => &self.signing,
            UpgradeSection::Grants => &self.grants,
        }
    }

    /// The tab with another panel for a section.
    pub open spec fn with_panel(&self, section: UpgradeSection, panel: Loadable<Json>) -> UpgradeTab {
        match section {
            UpgradeSection::Status => UpgradeTab { status: panel, ..*self },
            UpgradeSection::Rollouts => UpgradeTab { rollouts: panel, ..*self },
            UpgradeSection::History => UpgradeTab { history: panel, ..*self },
            UpgradeSection::Signing => UpgradeTab { signing: panel, ..*self },
            UpgradeSection::Grants => UpgradeTab { grants: panel, ..*self },
        }
    }

    pub fn panel_mut(&mut self, section: UpgradeSection) -> (r: &mut Loadable<Json>)
        ensures
            *r == old(self).panel_of(section),
            *final(self) == old(self).with_panel(section, *final(r)),
    {
        match section {
            UpgradeSection::Status => &mut self.status,
            UpgradeSection::Rollouts => &mut self.rollouts,
            UpgradeSection::History => &mut self.history,
            UpgradeSection::Signing => &mut self.signing,
            UpgradeSection::Grants => &mut self.grants,
        }
    }
}

} // verus!
