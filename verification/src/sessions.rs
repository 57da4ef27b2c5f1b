//! The sessions tab: both planes' lists, the watched sessions, and what was written to them.

use vstd::prelude::*;

use crate::explorer::Pane;
use crate::model::{goes_before, lemma_the_list_order_is_total, lemma_the_list_order_is_transitive,
    listed_before, Plane, SessionInfo};
use crate::panel::Loadable;
use crate::tags::ComposerVerb;
use crate::text::{lemma_precedes_irreflexive, precedes, said, same, trim, trimmed};
use crate::watch::Watch;

verus! {

// ----- keys -------------------------------------------------------------------------

/// A session by plane and id.
#[derive(Debug)]
pub struct Key {
    pub plane: Plane,
    pub id: String,
}

impl Key {
    pub open spec fn view(&self) -> (Plane, Seq<char>) {
        (self.plane, self.id@)
    }

    pub fn new(plane: Plane, id: &str) -> (r: Key)
        ensures
            r@ == (plane, id@),
    {
        Key { plane, id: id.to_owned() }
    }

    pub fn is(&self, plane: Plane, id: &str) -> (r: bool)
        ensures
            r == (self@ == (plane, id@)),
    {
        self.plane == plane && same(self.id.as_str(), id)
    }
}

pub open spec fn key_of(key: Option<Key>) -> Option<(Plane, Seq<char>)> {
    match key {
        Some(key) => Some(key@),
        None => None,
    }
}

pub fn is_key(key: &Option<Key>, plane: Plane, id: &str) -> (r: bool)
    ensures
        r == (key_of(*key) == Some((plane, id@))),
{
    match key {
        Some(key) => key.is(plane, id),
        None => false,
    }
}

/// A set of sessions.
#[derive(Debug)]
pub struct Keys {
    pub list: Vec<Key>,
}

impl Keys {
    pub open spec fn view(&self) -> Set<(Plane, Seq<char>)> {
        Seq::new(self.list@.len(), |i: int| self.list@[i]@).to_set()
    }

    pub open spec fn listed(&self) -> Seq<(Plane, Seq<char>)> {
        Seq::new(self.list@.len(), |i: int| self.list@[i]@)
    }

    pub fn new() -> (r: Keys)
        ensures
            r@ == Set::<(Plane, Seq<char>)>::empty(),
    {
        let r = Keys { list: Vec::new() };
        assert(r@ =~= Set::<(Plane, Seq<char>)>::empty());
        r
    }

    pub fn contains(&self, plane: Plane, id: &str) -> (r: bool)
        ensures
            r == self@.contains((plane, id@)),
    {
        let mut i: usize = 0;
        while i < self.list.len()
            invariant
                i <= self.list@.len(),
                forall|k: int| 0 <= k < i ==> (#[trigger] self.list@[k])@ != (plane, id@),
            decreases self.list@.len() - i,
        {
            if self.list[i].is(plane, id) {
                assert(self.listed()[i as int] == (plane, id@));
                return true;
            }
            i += 1;
        }
        assert(!self.listed().contains((plane, id@)));
        false
    }

    pub fn insert(&mut self, plane: Plane, id: &str)
        ensures
            final(self)@ == old(self)@.insert((plane, id@)),
    {
        let ghost was = self.listed();
        self.list.push(Key::new(plane, id));
        proof {
            let now = self.listed();
            assert(now =~= was.push((plane, id@)));
            assert(now.to_set() =~= was.to_set().insert((plane, id@))) by {
                assert forall|k: (Plane, Seq<char>)| now.contains(k) <==> was.contains(k) || k == (
                    plane,
                    id@,
                ) by {
                    if was.contains(k) {
                        let i = choose|i: int| 0 <= i < was.len() && was[i] == k;
                        assert(now[i] == k);
                    }
                    if k == (plane, id@) {
                        assert(now[was.len() as int] == k);
                    }
                }
            }
        }
    }

    pub fn remove(&mut self, plane: Plane, id: &str)
        ensures
            final(self)@ == old(self)@.remove((plane, id@)),
    {
        let ghost start = self.listed();
        let ghost gone = (plane, id@);
        let mut kept: Vec<Key> = Vec::new();
        let mut list: Vec<Key> = Vec::new();
        std::mem::swap(&mut self.list, &mut list);
        let ghost whole = list@;
        for key in it: list.into_iter()
            invariant
                it.seq() == whole,
                start.len() == whole.len(),
                forall|i: int| 0 <= i < whole.len() ==> start[i] == (#[trigger] whole[i])@,
                gone == (plane, id@),
                forall|k: (Plane, Seq<char>)|
                    #[trigger] (Keys { list: kept })@.contains(k) <==> k != gone && start.take(
                        it.index() as int,
                    ).contains(k),
        {
            let ghost at = it.index() as int;
            let ghost was = Keys { list: kept };
            if !key.is(plane, id) {
                kept.push(key);
            }
            proof {
                let now = Keys { list: kept };
                assert forall|k: (Plane, Seq<char>)|
                    #[trigger] (Keys { list: kept })@.contains(k) <==> k != gone && start.take(
                        at + 1,
                    ).contains(k) by {
                    if now.listed().contains(k) {
                        let i = choose|i: int| 0 <= i < now.listed().len() && now.listed()[i] == k;
                        if i < was.listed().len() {
                            assert(was.listed()[i] == k);
                            assert(was@.contains(k));
                            let j = choose|j: int|
                                0 <= j < start.take(at).len() && start.take(at)[j] == k;
                            assert(start.take(at + 1)[j] == k);
                        } else {
                            assert(start.take(at + 1)[at] == k);
                        }
                    }
                    if k != gone && start.take(at + 1).contains(k) {
                        let ahead = start.take(at + 1);
                        let j = choose|j: int| 0 <= j < ahead.len() && ahead[j] == k;
                        if j < at {
                            assert(start.take(at)[j] == k);
                            assert(was@.contains(k));
                            let i = choose|i: int|
                                0 <= i < was.listed().len() && was.listed()[i] == k;
                            assert(now.listed()[i] == k);
                        } else {
                            assert(now.listed()[was.listed().len() as int] == k);
                        }
                    }
                }
            }
        }
        assert(start.take(whole.len() as int) =~= start);
        self.list = kept;
        assert(self@ =~= start.to_set().remove(gone)) by {
            assert forall|k: (Plane, Seq<char>)| #[trigger] self@.contains(k) <==> k != gone
                && start.to_set().contains(k) by {
                assert((Keys { list: kept })@.contains(k) <==> self@.contains(k));
            }
        }
    }
}

// ----- cursors and rounds -----------------------------------------------------------

/// A number for each of some sessions.
#[derive(Debug)]
pub struct Marks {
    pub entries: Vec<(Key, u64)>,
}

pub open spec fn marks(entries: Seq<(Key, u64)>) -> Map<(Plane, Seq<char>), u64>
    decreases entries.len(),
{
    if entries.len() == 0 {
        Map::empty()
    } else {
        marks(entries.drop_last()).insert(entries.last().0@, entries.last().1)
    }
}

proof fn lemma_marks(entries: Seq<(Key, u64)>, at: int, value: u64)
    requires
        Marks::distinct(entries),
        0 <= at < entries.len(),
    ensures
        marks(entries).contains_key(entries[at].0@),
        marks(entries)[entries[at].0@] == entries[at].1,
        marks(entries.update(at, (entries[at].0, value))) == marks(entries).insert(
            entries[at].0@,
            value,
        ),
        marks(entries.remove(at)) == marks(entries).remove(entries[at].0@),
    decreases entries.len(),
{
    let rest = entries.drop_last();
    let last = entries.last();
    assert(Marks::distinct(rest)) by {
        assert forall|i: int, j: int| 0 <= i < j < rest.len() implies (#[trigger] rest[i]).0@ != (
        #[trigger] rest[j]).0@ by {
            assert(entries[i].0@ != entries[j].0@);
        }
    }
    let updated = entries.update(at, (entries[at].0, value));
    let removed = entries.remove(at);
    if at < rest.len() {
        lemma_marks(rest, at, value);
        assert(entries[at].0@ != last.0@);
        assert(updated.drop_last() =~= rest.update(at, (rest[at].0, value)));
        assert(updated.last() == last);
        assert(removed.drop_last() =~= rest.remove(at));
        assert(removed.last() == last);
        assert(marks(updated) =~= marks(entries).insert(entries[at].0@, value));
        assert(marks(removed) =~= marks(entries).remove(entries[at].0@));
    } else {
        assert(updated.drop_last() =~= rest);
        assert(removed =~= rest);
        lemma_no_mark(rest, last.0@);
        assert(marks(updated) =~= marks(entries).insert(last.0@, value));
        assert(marks(removed) =~= marks(entries).remove(last.0@));
    }
}

proof fn lemma_no_mark(entries: Seq<(Key, u64)>, key: (Plane, Seq<char>))
    ensures
        marks(entries).contains_key(key) <==> exists|i: int|
            0 <= i < entries.len() && (#[trigger] entries[i]).0@ == key,
    decreases entries.len(),
{
    if entries.len() > 0 {
        let rest = entries.drop_last();
        lemma_no_mark(rest, key);
        if marks(rest).contains_key(key) {
            let i = choose|i: int| 0 <= i < rest.len() && (#[trigger] rest[i]).0@ == key;
            assert(entries[i].0@ == key);
        }
        if exists|i: int| 0 <= i < entries.len() && (#[trigger] entries[i]).0@ == key {
            let i = choose|i: int| 0 <= i < entries.len() && (#[trigger] entries[i]).0@ == key;
            if i < rest.len() {
                assert(rest[i].0@ == key);
            }
        }
        assert(entries[entries.len() - 1] == entries.last());
    }
}

impl Marks {
    pub open spec fn view(&self) -> Map<(Plane, Seq<char>), u64> {
        marks(self.entries@)
    }

    pub open spec fn distinct(entries: Seq<(Key, u64)>) -> bool {
        forall|i: int, j: int|
            0 <= i < j < entries.len() ==> (#[trigger] entries[i]).0@ != (
            #[trigger] entries[j]).0@
    }

    pub open spec fn wf(&self) -> bool {
        Marks::distinct(self.entries@)
    }

    pub fn new() -> (r: Marks)
        ensures
            r.wf(),
            r@ == Map::<(Plane, Seq<char>), u64>::empty(),
    {
        Marks { entries: Vec::new() }
    }

    fn find(&self, plane: Plane, id: &str) -> (r: Option<usize>)
        requires
            self.wf(),
        ensures
            match r {
                Some(i) => {
                    &&& i < self.entries@.len()
                    &&& self.entries@[i as int].0@ == (plane, id@)
                    &&& self@.contains_key((plane, id@))
                    &&& self@[(plane, id@)] == self.entries@[i as int].1
                },
                None => !self@.contains_key((plane, id@)),
            },
    {
        let mut i: usize = 0;
        while i < self.entries.len()
            invariant
                i <= self.entries@.len(),
                self.wf(),
                forall|k: int| 0 <= k < i ==> (#[trigger] self.entries@[k]).0@ != (plane, id@),
            decreases self.entries@.len() - i,
        {
            if self.entries[i].0.is(plane, id) {
                proof {
                    lemma_marks(self.entries@, i as int, 0);
                }
                return Some(i);
            }
            i += 1;
        }
        proof {
            lemma_no_mark(self.entries@, (plane, id@));
        }
        None
    }

    pub fn get(&self, plane: Plane, id: &str) -> (r: Option<u64>)
        requires
            self.wf(),
        ensures
            r == if self@.contains_key((plane, id@)) {
                Some(self@[(plane, id@)])
            } else {
                None
            },
    {
        match self.find(plane, id) {
            Some(i) => Some(self.entries[i].1),
            None => None,
        }
    }

    pub fn set(&mut self, plane: Plane, id: &str, value: u64)
        requires
            old(self).wf(),
        ensures
            final(self).wf(),
            final(self)@ == old(self)@.insert((plane, id@), value),
    {
        let ghost was = self.entries@;
        match self.find(plane, id) {
            Some(i) => {
                proof {
                    lemma_marks(was, i as int, value);
                }
                let (key, _) = self.entries.remove(i);
                self.entries.insert(i, (key, value));
                assert(self.entries@ =~= was.update(i as int, (was[i as int].0, value)));
            },
            None => {
                proof {
                    lemma_no_mark(was, (plane, id@));
                }
                self.entries.push((Key::new(plane, id), value));
                assert(self.entries@.drop_last() =~= was);
            },
        }
    }

    pub fn forget(&mut self, plane: Plane, id: &str)
        requires
            old(self).wf(),
        ensures
            final(self).wf(),
            final(self)@ == old(self)@.remove((plane, id@)),
    {
        let ghost was = self.entries@;
        match self.find(plane, id) {
            Some(i) => {
                proof {
                    lemma_marks(was, i as int, 0);
                }
                let _ = self.entries.remove(i);
                assert(self.entries@ =~= was.remove(i as int));
            },
            None => {
                assert(marks(was).remove((plane, id@)) =~= marks(was));
            },
        }
    }
}

/// The last sequence seen of each watched session: where a subscription is taken up again after a
/// reconnect.
#[derive(Debug)]
pub struct Cursors {
    pub inner: Marks,
}

impl Cursors {
    pub open spec fn view(&self) -> Map<(Plane, Seq<char>), u64> {
        self.inner@
    }

    pub open spec fn wf(&self) -> bool {
        self.inner.wf()
    }

    pub fn new() -> (r: Cursors)
        ensures
            r.wf(),
            r@ == Map::<(Plane, Seq<char>), u64>::empty(),
    {
        Cursors { inner: Marks::new() }
    }

    pub fn set(&mut self, plane: Plane, id: &str, cursor: u64)
        requires
            old(self).wf(),
        ensures
            final(self).wf(),
            final(self)@ == old(self)@.insert((plane, id@), cursor),
    {
        self.inner.set(plane, id, cursor);
    }

    pub fn forget(&mut self, plane: Plane, id: &str)
        requires
            old(self).wf(),
        ensures
            final(self).wf(),
            final(self)@ == old(self)@.remove((plane, id@)),
    {
        self.inner.forget(plane, id);
    }

    /// Every session and its cursor, each once, ordered by plane and id.
    pub fn snapshot(&self) -> (r: Vec<(Plane, String, u64)>)
        requires
            self.wf(),
        ensures
            forall|i: int, j: int|
                0 <= i < j < r@.len() ==> key_before(
                    ((#[trigger] r@[i]).0, r@[i].1@),
                    ((#[trigger] r@[j]).0, r@[j].1@),
                ),
            forall|i: int|
                0 <= i < r@.len() ==> self@.contains_key(((#[trigger] r@[i]).0, r@[i].1@))
                    && self@[(r@[i].0, r@[i].1@)] == r@[i].2,
            forall|key: (Plane, Seq<char>)|
                #[trigger] self@.contains_key(key) ==> exists|i: int|
                    0 <= i < r@.len() && ((#[trigger] r@[i]).0, r@[i].1@) == key,
    {
        let mut out: Vec<(Plane, String, u64)> = Vec::new();
        let mut i: usize = 0;
        while i < self.inner.entries.len()
            invariant
                i <= self.inner.entries@.len(),
                self.wf(),
                key_sorted(out@),
                forall|k: int|
                    0 <= k < out@.len() ==> exists|m: int|
                        0 <= m < i && (#[trigger] self.inner.entries@[m]).0@ == row_key(
                            #[trigger] out@[k],
                        ) && self.inner.entries@[m].1 == out@[k].2,
                forall|m: int|
                    0 <= m < i ==> exists|k: int|
                        0 <= k < out@.len() && row_key(#[trigger] out@[k]) == (
                        #[trigger] self.inner.entries@[m]).0@,
            decreases self.inner.entries@.len() - i,
        {
            let entry = &self.inner.entries[i];
            let ghost before = out@;
            proof {
                assert forall|k: int| 0 <= k < out@.len() implies row_key(#[trigger] out@[k])
                    != entry.0@ by {
                    let m = choose|m: int|
                        0 <= m < i && (#[trigger] self.inner.entries@[m]).0@ == row_key(out@[k])
                            && self.inner.entries@[m].1 == out@[k].2;
                    assert(self.inner.entries@[m].0@ != self.inner.entries@[i as int].0@);
                }
            }
            let at: usize = file(&mut out, (entry.0.plane, entry.0.id.clone(), entry.1));
            proof {
                assert forall|k: int| 0 <= k < out@.len() implies exists|m: int|
                    0 <= m < i + 1 && (#[trigger] self.inner.entries@[m]).0@ == row_key(
                        #[trigger] out@[k],
                    ) && self.inner.entries@[m].1 == out@[k].2 by {
                    if k == at {
                        assert(self.inner.entries@[i as int].0@ == row_key(out@[k]));
                    } else {
                        let from = if k < at {
                            k
                        } else {
                            k - 1
                        };
                        assert(before[from] == out@[k]);
                        let m = choose|m: int|
                            0 <= m < i && (#[trigger] self.inner.entries@[m]).0@ == row_key(
                                before[from],
                            ) && self.inner.entries@[m].1 == before[from].2;
                        assert(self.inner.entries@[m].0@ == row_key(out@[k]));
                    }
                }
                assert forall|m: int| 0 <= m < i + 1 implies exists|k: int|
                    0 <= k < out@.len() && row_key(#[trigger] out@[k]) == (
                    #[trigger] self.inner.entries@[m]).0@ by {
                    if m == i {
                        assert(row_key(out@[at as int]) == self.inner.entries@[m].0@);
                    } else {
                        let k = choose|k: int|
                            0 <= k < before.len() && row_key(#[trigger] before[k])
                                == self.inner.entries@[m].0@;
                        let to = if k < at {
                            k
                        } else {
                            k + 1
                        };
                        assert(out@[to] == before[k]);
                    }
                }
            }
            i += 1;
        }
        proof {
            assert forall|k: int| 0 <= k < out@.len() implies self@.contains_key(
                ((#[trigger] out@[k]).0, out@[k].1@),
            ) && self@[(out@[k].0, out@[k].1@)] == out@[k].2 by {
                let m = choose|m: int|
                    0 <= m < i && (#[trigger] self.inner.entries@[m]).0@ == row_key(out@[k])
                        && self.inner.entries@[m].1 == out@[k].2;
                lemma_marks(self.inner.entries@, m, 0);
            }
            assert forall|key: (Plane, Seq<char>)| #[trigger] self@.contains_key(key) implies exists|
                k: int,
            |
                0 <= k < out@.len() && ((#[trigger] out@[k]).0, out@[k].1@) == key by {
                lemma_no_mark(self.inner.entries@, key);
                let m = choose|m: int|
                    0 <= m < self.inner.entries@.len() && (#[trigger] self.inner.entries@[m]).0@
                        == key;
                let k = choose|k: int|
                    0 <= k < out@.len() && row_key(#[trigger] out@[k])
                        == self.inner.entries@[m].0@;
                assert((out@[k].0, out@[k].1@) == key);
            }
        }
        out
    }
}

pub open spec fn key_before(a: (Plane, Seq<char>), b: (Plane, Seq<char>)) -> bool {
    if a.0 != b.0 {
        a.0.rank() < b.0.rank()
    } else {
        crate::text::precedes(a.1, b.1)
    }
}

spec fn row_key(row: (Plane, String, u64)) -> (Plane, Seq<char>) {
    (row.0, row.1@)
}

spec fn key_sorted(rows: Seq<(Plane, String, u64)>) -> bool {
    forall|i: int, j: int|
        0 <= i < j < rows.len() ==> key_before(
            row_key(#[trigger] rows[i]),
            row_key(#[trigger] rows[j]),
        )
}

/// Puts a row into its place among rows of other keys.
fn file(rows: &mut Vec<(Plane, String, u64)>, row: (Plane, String, u64)) -> (r: usize)
    requires
        key_sorted(old(rows)@),
        forall|k: int| 0 <= k < old(rows)@.len() ==> row_key(#[trigger] old(rows)@[k]) != row_key(row),
    ensures
        r <= old(rows)@.len(),
        final(rows)@ == old(rows)@.insert(r as int, row),
        key_sorted(final(rows)@),
{
    let ghost before = rows@;
    let mut at: usize = rows.len();
    while at > 0 && goes_first(&row, &rows[at - 1])
        invariant
            at <= rows@.len(),
            rows@ == before,
            forall|k: int|
                at <= k < before.len() ==> key_before(row_key(row), row_key(#[trigger] before[k])),
        decreases at,
    {
        at -= 1;
    }
    rows.insert(at, row);
    proof {
        if at > 0 {
            lemma_key_order(row_key(before[at - 1]), row_key(row));
        }
        assert forall|i: int, j: int| 0 <= i < j < rows@.len() implies key_before(
            row_key(#[trigger] rows@[i]),
            row_key(#[trigger] rows@[j]),
        ) by {
            if j == at {
                assert(rows@[i] == before[i]);
                if i < at - 1 {
                    assert(key_before(row_key(before[i]), row_key(before[at - 1])));
                    lemma_key_transitive(
                        row_key(before[i]),
                        row_key(before[at - 1]),
                        row_key(row),
                    );
                }
            } else if i == at {
                assert(rows@[j] == before[j - 1]);
            } else {
                let from = if i < at {
                    i
                } else {
                    i - 1
                };
                let to = if j < at {
                    j
                } else {
                    j - 1
                };
                assert(key_before(row_key(before[from]), row_key(before[to])));
            }
        }
    }
    at
}

fn goes_first(a: &(Plane, String, u64), b: &(Plane, String, u64)) -> (r: bool)
    ensures
        r == key_before(row_key(*a), row_key(*b)),
{
    if a.0 != b.0 {
        a.0 == Plane::Interactive
    } else {
        crate::text::earlier(a.1.as_str(), b.1.as_str())
    }
}

proof fn lemma_key_order(a: (Plane, Seq<char>), b: (Plane, Seq<char>))
    requires
        a != b,
    ensures
        key_before(a, b) || key_before(b, a),
{
    crate::text::lemma_precedes_total(a.1, b.1);
}

proof fn lemma_key_transitive(a: (Plane, Seq<char>), b: (Plane, Seq<char>), c: (Plane, Seq<char>))
    requires
        key_before(a, b),
        key_before(b, c),
    ensures
        key_before(a, c),
{
    if a.0 == b.0 && b.0 == c.0 {
        crate::text::lemma_precedes_transitive(a.1, b.1, c.1);
    }
}

// ----- drafts -----------------------------------------------------------------------

/// What is being written: the text, and whether a completion menu is open over it.
#[derive(Debug)]
pub struct Draft {
    pub text: String,
    pub completing: bool,
}

impl Draft {
    pub fn new() -> (r: Draft)
        ensures
            r.text@.len() == 0,
            !r.completing,
    {
        Draft { text: String::new(), completing: false }
    }

    pub open spec fn blank(&self) -> bool {
        self.text@.len() == 0
    }

    /// The text to send, where there is anything in it.
    pub open spec fn submission_of(&self) -> Option<Seq<char>> {
        if trimmed(self.text@).len() == 0 {
            None
        } else {
            Some(self.text@)
        }
    }

    pub fn submission(&self) -> (r: Option<String>)
        ensures
            said(r) == self.submission_of(),
    {
        if trim(self.text.as_str()).as_str().is_empty() {
            None
        } else {
            Some(self.text.clone())
        }
    }

    pub fn clear(&mut self)
        ensures
            final(self).text@.len() == 0,
            !final(self).completing,
    {
        self.text = String::new();
        self.completing = false;
    }

    pub fn hold(&mut self, text: &str)
        ensures
            final(self).text@ == text@,
            !final(self).completing,
    {
        self.text = text.to_owned();
        self.completing = false;
    }

    pub fn add(&mut self, text: &str)
        ensures
            final(self).text@ == old(self).text@ + text@,
            final(self).completing == old(self).completing,
    {
        self.text.append(text);
    }
}

/// The turn whose outcome a draft is kept for, and the edit of the draft it was taken at.
#[derive(Debug)]
pub struct ReconciliationOwner {
    pub turn_id: String,
    pub generation: u64,
}

#[derive(Debug)]
pub struct Composer {
    pub verb: ComposerVerb,
    pub editor: Draft,
    /// A restored message is sent again under the id it had. Other submissions get one of their
    /// own when they leave.
    pub next_turn_id: Option<String>,
    /// Goes up whenever the operator changes the draft.
    pub generation: u64,
    pub reconciliation_owner: Option<ReconciliationOwner>,
}

impl Composer {
    pub open spec fn is_fresh(&self, verb: ComposerVerb) -> bool {
        &&& self.verb == verb
        &&& self.editor.blank()
        &&& !self.editor.completing
        &&& self.next_turn_id is None
        &&& self.generation == 0
        &&& self.reconciliation_owner is None
    }

    pub fn new(verb: ComposerVerb) -> (r: Composer)
        ensures
            r.is_fresh(verb),
    {
        Composer {
            verb,
            editor: Draft::new(),
            next_turn_id: None,
            generation: 0,
            reconciliation_owner: None,
        }
    }

    /// The draft is still the one that was kept for this turn.
    pub open spec fn owns(&self, turn_id: Seq<char>) -> bool {
        &&& self.reconciliation_owner is Some
        &&& self.reconciliation_owner->0.turn_id@ == turn_id
        &&& self.reconciliation_owner->0.generation == self.generation
    }

    pub fn owns_reconciliation(&self, turn_id: &str) -> (r: bool)
        ensures
            r == self.owns(turn_id@),
    {
        match &self.reconciliation_owner {
            Some(owner) => same(owner.turn_id.as_str(), turn_id) && owner.generation
                == self.generation,
            None => false,
        }
    }
}

/// A draft of a session that is not open.
#[derive(Debug)]
pub struct SavedDraft {
    pub key: Key,
    pub input: String,
    pub generation: u64,
    pub reconciliation_owner: Option<ReconciliationOwner>,
}

impl SavedDraft {
    pub open spec fn owns(&self, turn_id: Seq<char>) -> bool {
        &&& self.reconciliation_owner is Some
        &&& self.reconciliation_owner->0.turn_id@ == turn_id
        &&& self.reconciliation_owner->0.generation == self.generation
    }

    pub fn owns_reconciliation(&self, turn_id: &str) -> (r: bool)
        ensures
            r == self.owns(turn_id@),
    {
        match &self.reconciliation_owner {
            Some(owner) => same(owner.turn_id.as_str(), turn_id) && owner.generation
                == self.generation,
            None => false,
        }
    }
}

/// A turn whose outcome is not known yet.
#[derive(Debug)]
pub struct Unsettled {
    pub key: Key,
    pub turn_id: String,
    pub input: String,
    pub submission_sequence: u64,
    pub verb: ComposerVerb,
}

// ----- the list ---------------------------------------------------------------------

/// The list with a session put before the first one it goes before, from the end.
pub open spec fn placed(list: Seq<SessionInfo>, session: SessionInfo) -> Seq<SessionInfo>
    decreases list.len(),
{
    if list.len() > 0 && listed_before(session, list.last()) {
        placed(list.drop_last(), session).push(list.last())
    } else {
        list.push(session)
    }
}

/// The sessions by newest activity, then plane, then id; what is equal in all three stays in its
/// order.
pub open spec fn arranged(sessions: Seq<SessionInfo>) -> Seq<SessionInfo>
    decreases sessions.len(),
{
    if sessions.len() == 0 {
        Seq::empty()
    } else {
        placed(arranged(sessions.drop_last()), sessions.last())
    }
}

/// No session is listed after one it goes before.
pub open spec fn in_order(list: Seq<SessionInfo>) -> bool {
    forall|i: int, j: int|
        0 <= i < j < list.len() ==> !listed_before(#[trigger] list[j], #[trigger] list[i])
}

proof fn lemma_placed(list: Seq<SessionInfo>, session: SessionInfo)
    requires
        in_order(list),
    ensures
        in_order(placed(list, session)),
        placed(list, session).len() == list.len() + 1,
        placed(list, session).to_multiset() == list.to_multiset().insert(session),
        forall|i: int|
            0 <= i < placed(list, session).len() ==> (#[trigger] placed(list, session)[i])
                == session || list.contains(placed(list, session)[i]),
        placed(list, session).contains(session),
    decreases list.len(),
{
    broadcast use vstd::seq_lib::group_to_multiset_ensures;

    let out = placed(list, session);
    if list.len() > 0 && listed_before(session, list.last()) {
        let rest = list.drop_last();
        let last = list.last();
        assert(in_order(rest)) by {
            assert forall|i: int, j: int| 0 <= i < j < rest.len() implies !listed_before(
                #[trigger] rest[j],
                #[trigger] rest[i],
            ) by {
                assert(!listed_before(list[j], list[i]));
            }
        }
        lemma_placed(rest, session);
        let inner = placed(rest, session);
        assert(out =~= inner.push(last));
        assert(list =~= rest.push(last));
        assert(out.to_multiset() =~= list.to_multiset().insert(session));
        assert forall|i: int| 0 <= i < out.len() implies (#[trigger] out[i]) == session
            || list.contains(out[i]) by {
            if i < inner.len() {
                assert(inner[i] == session || rest.contains(inner[i]));
                if rest.contains(inner[i]) {
                    let k = choose|k: int| 0 <= k < rest.len() && rest[k] == inner[i];
                    assert(list[k] == out[i]);
                }
            } else {
                assert(list[list.len() - 1] == out[i]);
            }
        }
        assert forall|i: int, j: int| 0 <= i < j < out.len() implies !listed_before(
            #[trigger] out[j],
            #[trigger] out[i],
        ) by {
            if j == inner.len() {
                assert(inner[i] == session || rest.contains(inner[i]));
                if inner[i] == session {
                    lemma_the_list_order_is_total(session, last);
                } else {
                    let k = choose|k: int| 0 <= k < rest.len() && rest[k] == inner[i];
                    assert(!listed_before(list[list.len() - 1], list[k]));
                }
            } else {
                assert(!listed_before(inner[j], inner[i]));
            }
        }
        let k = choose|k: int| 0 <= k < inner.len() && inner[k] == session;
        assert(out[k] == session);
    } else {
        assert(out =~= list.push(session));
        assert(out[list.len() as int] == session);
        assert forall|i: int, j: int| 0 <= i < j < out.len() implies !listed_before(
            #[trigger] out[j],
            #[trigger] out[i],
        ) by {
            if j == list.len() {
                if listed_before(session, list[i]) {
                    let last = list.last();
                    lemma_the_list_order_is_total(list[i], last);
                    if i < list.len() - 1 {
                        assert(!listed_before(list[list.len() - 1], list[i]));
                        if listed_before(list[i], last) {
                            lemma_the_list_order_is_transitive(session, list[i], last);
                        }
                    }
                }
            } else {
                assert(!listed_before(list[j], list[i]));
            }
        }
        assert forall|i: int| 0 <= i < out.len() implies (#[trigger] out[i]) == session
            || list.contains(out[i]) by {
            if i < list.len() {
                assert(list[i] == out[i]);
            }
        }
    }
}

/// The list holds every session once, newest first.
pub proof fn lemma_the_list_is_sorted(sessions: Seq<SessionInfo>)
    ensures
        in_order(arranged(sessions)),
        arranged(sessions).len() == sessions.len(),
        arranged(sessions).to_multiset() == sessions.to_multiset(),
    decreases sessions.len(),
{
    broadcast use vstd::seq_lib::group_to_multiset_ensures;

    if sessions.len() > 0 {
        lemma_the_list_is_sorted(sessions.drop_last());
        lemma_placed(arranged(sessions.drop_last()), sessions.last());
        assert(sessions =~= sessions.drop_last().push(sessions.last()));
    } else {
        assert(arranged(sessions) =~= sessions);
    }
}

/// Newest activity first: no session is listed below one that was active before it, one that has
/// never been active is listed below every one that has, and of two that were active at the same
/// time an interactive session comes before a coding task.
pub proof fn lemma_the_newest_comes_first(tab: SessionsTab, i: int, j: int)
    requires
        0 <= i < j < tab.rows().len(),
    ensures
        ({
            let (upper, lower) = (tab.rows()[i], tab.rows()[j]);
            &&& lower.updated_at is Some ==> upper.updated_at is Some && !precedes(
                upper.updated_at->0@,
                lower.updated_at->0@,
            )
            &&& said(upper.updated_at) == said(lower.updated_at) && upper.plane != lower.plane
                ==> upper.plane == Plane::Interactive && lower.plane == Plane::Coding
            &&& said(upper.updated_at) == said(lower.updated_at) && upper.plane == lower.plane
                ==> !precedes(lower.id@, upper.id@)
        }),
        tab.rows().len() == loaded(tab.interactive).len() + loaded(tab.coding).len(),
{
    let all = loaded(tab.interactive) + loaded(tab.coding);
    lemma_the_list_is_sorted(all);
    let (upper, lower) = (tab.rows()[i], tab.rows()[j]);
    assert(!listed_before(lower, upper));
    if upper.updated_at is Some && lower.updated_at is Some {
        if precedes(upper.updated_at->0@, lower.updated_at->0@) {
            lemma_precedes_irreflexive(upper.updated_at->0@);
        }
    }
}

pub open spec fn seen_rows(rows: Seq<&SessionInfo>) -> Seq<SessionInfo> {
    Seq::new(rows.len(), |i: int| *rows[i])
}

fn place<'a>(list: &mut Vec<&'a SessionInfo>, session: &'a SessionInfo)
    ensures
        seen_rows(final(list)@) == placed(seen_rows(old(list)@), *session),
{
    let ghost before = list@;
    let mut at: usize = list.len();
    proof {
        lemma_place(seen_rows(before), *session, before.len() as int);
    }
    assert(seen_rows(before).take(before.len() as int) =~= seen_rows(before));
    while at > 0 && goes_before(session, list[at - 1])
        invariant
            at <= list@.len(),
            list@ == before,
            placed(seen_rows(before), *session) == placed(
                seen_rows(before).take(at as int),
                *session,
            ) + seen_rows(before).subrange(at as int, before.len() as int),
        decreases at,
    {
        proof {
            lemma_place(seen_rows(before), *session, at as int);
        }
        at -= 1;
    }
    list.insert(at, session);
    proof {
        let head = seen_rows(before).take(at as int);
        assert(placed(head, *session) =~= head.push(*session));
        assert(seen_rows(list@) =~= head.push(*session) + seen_rows(before).subrange(
            at as int,
            before.len() as int,
        ));
    }
}

proof fn lemma_place(list: Seq<SessionInfo>, session: SessionInfo, at: int)
    requires
        0 <= at <= list.len(),
    ensures
        at > 0 && listed_before(session, list[at - 1]) ==> placed(list.take(at), session)
            + list.subrange(at, list.len() as int) == placed(list.take(at - 1), session)
            + list.subrange(at - 1, list.len() as int),
{
    if at > 0 && listed_before(session, list[at - 1]) {
        let head = list.take(at);
        assert(head.last() == list[at - 1]);
        assert(head.drop_last() =~= list.take(at - 1));
        assert(placed(head, session) + list.subrange(at, list.len() as int) =~= placed(
            list.take(at - 1),
            session,
        ) + list.subrange(at - 1, list.len() as int));
    }
}

// ----- the tab ----------------------------------------------------------------------

#[derive(Debug)]
pub struct SessionsTab {
    pub interactive: Loadable<Vec<SessionInfo>>,
    pub coding: Loadable<Vec<SessionInfo>>,
    pub selected: usize,
    pub open: Option<Key>,
    pub watches: Vec<Watch>,
    pub composer: Option<Composer>,
    pub focus: Pane,
    /// The whole event ledger is shown, in place of the conversation.
    pub show_event_details: bool,
    /// Repairs of each session since its last interruption.
    pub rounds: Marks,
    /// Requests that were accepted and have not shown up in the stream yet.
    pub pending_replies: Keys,
    pub composer_drafts: Vec<SavedDraft>,
    pub pending_reconciliations: Vec<Unsettled>,
    /// Sessions whose approvals this client answers by itself.
    pub auto_approve: Keys,
}

pub open spec fn loaded(panel: Loadable<Vec<SessionInfo>>) -> Seq<SessionInfo> {
    match panel.value {
        Some(list) => list@,
        None => Seq::empty(),
    }
}

pub open spec fn watched(watches: Seq<Watch>, plane: Plane, id: Seq<char>) -> bool {
    exists|i: int| 0 <= i < watches.len() && (#[trigger] watches[i]).is(plane, id)
}

/// The place of a session among those watched.
pub open spec fn watch_at(watches: Seq<Watch>, plane: Plane, id: Seq<char>) -> int {
    choose|i: int| 0 <= i < watches.len() && (#[trigger] watches[i]).is(plane, id)
}

/// Each watch is sound, and no session is watched twice.
pub open spec fn sound(watches: Seq<Watch>) -> bool {
    &&& forall|i: int| 0 <= i < watches.len() ==> (#[trigger] watches[i]).wf()
    &&& forall|i: int, j: int|
        0 <= i < j < watches.len() ==> !(#[trigger] watches[i]).is(
            (#[trigger] watches[j]).plane,
            watches[j].id@,
        )
}

pub proof fn lemma_watch_at(watches: Seq<Watch>, at: int)
    requires
        sound(watches),
        0 <= at < watches.len(),
    ensures
        watched(watches, watches[at].plane, watches[at].id@),
        watch_at(watches, watches[at].plane, watches[at].id@) == at,
{
    let (plane, id) = (watches[at].plane, watches[at].id@);
    assert(watches[at].is(plane, id));
    let i = watch_at(watches, plane, id);
    assert(watches[i].is(plane, id));
    if i < at {
        assert(!watches[i].is(watches[at].plane, watches[at].id@));
    } else if at < i {
        assert(!watches[at].is(watches[i].plane, watches[i].id@));
    }
}

/// Changing one watch without giving it away to another session keeps the rest.
pub proof fn lemma_sound_update(watches: Seq<Watch>, at: int, watch: Watch)
    requires
        sound(watches),
        0 <= at < watches.len(),
        watch.wf(),
        watch.is(watches[at].plane, watches[at].id@),
    ensures
        sound(watches.update(at, watch)),
{
    let after = watches.update(at, watch);
    assert forall|i: int, j: int| 0 <= i < j < after.len() implies !(#[trigger] after[i]).is(
        (#[trigger] after[j]).plane,
        after[j].id@,
    ) by {
        assert(!watches[i].is(watches[j].plane, watches[j].id@));
    }
}

/// The place of the draft saved for a session, from a place on.
pub open spec fn saved_at(drafts: Seq<SavedDraft>, plane: Plane, id: Seq<char>, from: int) -> Option<
    int,
>
    decreases drafts.len() - from,
{
    if from < 0 || from >= drafts.len() {
        None
    } else if drafts[from].key@ == (plane, id) {
        Some(from)
    } else {
        saved_at(drafts, plane, id, from + 1)
    }
}

pub(crate) fn find_saved(drafts: &Vec<SavedDraft>, plane: Plane, id: &str) -> (r: Option<usize>)
    ensures
        match r {
            Some(at) => at < drafts@.len() && saved_at(drafts@, plane, id@, 0) == Some(at as int),
            None => saved_at(drafts@, plane, id@, 0) is None,
        },
{
    let mut i: usize = 0;
    while i < drafts.len()
        invariant
            i <= drafts@.len(),
            saved_at(drafts@, plane, id@, 0) == saved_at(drafts@, plane, id@, i as int),
        decreases drafts@.len() - i,
    {
        if drafts[i].key.is(plane, id) {
            return Some(i);
        }
        i += 1;
    }
    None
}

/// The place of the first turn of a session that waits to be reconciled, from a place on.
pub open spec fn unsettled_at(turns: Seq<Unsettled>, plane: Plane, id: Seq<char>, from: int) -> Option<
    int,
>
    decreases turns.len() - from,
{
    if from < 0 || from >= turns.len() {
        None
    } else if turns[from].key@ == (plane, id) {
        Some(from)
    } else {
        unsettled_at(turns, plane, id, from + 1)
    }
}

pub(crate) fn find_unsettled(turns: &Vec<Unsettled>, plane: Plane, id: &str) -> (r: Option<usize>)
    ensures
        match r {
            Some(at) => at < turns@.len() && unsettled_at(turns@, plane, id@, 0) == Some(at as int),
            None => unsettled_at(turns@, plane, id@, 0) is None,
        },
{
    let mut i: usize = 0;
    while i < turns.len()
        invariant
            i <= turns@.len(),
            unsettled_at(turns@, plane, id@, 0) == unsettled_at(turns@, plane, id@, i as int),
        decreases turns@.len() - i,
    {
        if turns[i].key.is(plane, id) {
            return Some(i);
        }
        i += 1;
    }
    None
}

/// A turn of a session waits to be reconciled.
pub open spec fn waits_for(turns: Seq<Unsettled>, plane: Plane, id: Seq<char>, turn_id: Seq<char>) -> bool {
    exists|i: int|
        0 <= i < turns.len() && (#[trigger] turns[i]).key@ == (plane, id) && turns[i].turn_id@
            == turn_id
}

pub(crate) fn is_waiting(turns: &Vec<Unsettled>, plane: Plane, id: &str, turn_id: &str) -> (r: bool)
    ensures
        r == waits_for(turns@, plane, id@, turn_id@),
{
    let mut i: usize = 0;
    while i < turns.len()
        invariant
            i <= turns@.len(),
            forall|k: int|
                0 <= k < i ==> !((#[trigger] turns@[k]).key@ == (plane, id@) && turns@[k].turn_id@
                    == turn_id@),
        decreases turns@.len() - i,
    {
        if turns[i].key.is(plane, id) && same(turns[i].turn_id.as_str(), turn_id) {
            return true;
        }
        i += 1;
    }
    false
}

/// The first row of a list that is this session.
pub open spec fn first_row(list: Seq<SessionInfo>, plane: Plane, id: Seq<char>) -> Option<SessionInfo>
    decreases list.len(),
{
    if list.len() == 0 {
        None
    } else {
        match first_row(list.drop_last(), plane, id) {
            Some(row) => Some(row),
            None => if list.last().plane == plane && list.last().id@ == id {
                Some(list.last())
            } else {
                None
            },
        }
    }
}

proof fn lemma_first_row(list: Seq<SessionInfo>, plane: Plane, id: Seq<char>, n: int)
    requires
        0 <= n <= list.len(),
        first_row(list.take(n), plane, id) is Some,
    ensures
        first_row(list, plane, id) == first_row(list.take(n), plane, id),
    decreases list.len() - n,
{
    if n < list.len() {
        assert(list.take(n + 1).drop_last() =~= list.take(n));
        lemma_first_row(list, plane, id, n + 1);
    } else {
        assert(list.take(n) =~= list);
    }
}

impl SessionsTab {
    pub open spec fn wf(&self) -> bool {
        &&& sound(self.watches@)
        &&& self.rounds.wf()
    }

    pub open spec fn is_fresh(&self) -> bool {
        &&& self.interactive == Loadable::<Vec<SessionInfo>>::blank()
        &&& self.coding == Loadable::<Vec<SessionInfo>>::blank()
        &&& self.selected == 0
        &&& self.open is None
        &&& self.watches@.len() == 0
        &&& self.composer is None
        &&& self.focus is List
        &&& !self.show_event_details
        &&& self.rounds@ == Map::<(Plane, Seq<char>), u64>::empty()
        &&& self.pending_replies@ == Set::<(Plane, Seq<char>)>::empty()
        &&& self.composer_drafts@.len() == 0
        &&& self.pending_reconciliations@.len() == 0
        &&& self.auto_approve@ == Set::<(Plane, Seq<char>)>::empty()
    }

    pub fn new() -> (r: SessionsTab)
        ensures
            r.wf(),
            r.is_fresh(),
    {
        SessionsTab {
            interactive: Loadable::default(),
            coding: Loadable::default(),
            selected: 0,
            open: None,
            watches: Vec::new(),
            composer: None,
            focus: Pane::List,
            show_event_details: false,
            rounds: Marks::new(),
            pending_replies: Keys::new(),
            composer_drafts: Vec::new(),
            pending_reconciliations: Vec::new(),
            auto_approve: Keys::new(),
        }
    }

    /// Both planes' sessions in the order they are listed.
    pub open spec fn rows(&self) -> Seq<SessionInfo> {
        arranged(loaded(self.interactive) + loaded(self.coding))
    }

    pub fn merged(&self) -> (r: Vec<&SessionInfo>)
        ensures
            seen_rows(r@) == self.rows(),
    {
        let mut out: Vec<&SessionInfo> = Vec::new();
        let ghost all = loaded(self.interactive) + loaded(self.coding);
        assert(seen_rows(out@) =~= arranged(all.take(0)));
        let mut done: usize = 0;
        if let Some(list) = &self.interactive.value {
            let mut i: usize = 0;
            while i < list.len()
                invariant
                    i <= list@.len(),
                    list@ == loaded(self.interactive),
                    all == loaded(self.interactive) + loaded(self.coding),
                    seen_rows(out@) == arranged(all.take(i as int)),
                decreases list@.len() - i,
            {
                assert(all.take(i + 1).drop_last() =~= all.take(i as int));
                assert(all.take(i + 1).last() == list@[i as int]);
                place(&mut out, &list[i]);
                i += 1;
            }
            done = i;
        }
        assert(seen_rows(out@) == arranged(all.take(done as int)));
        assert(done == loaded(self.interactive).len());
        if let Some(list) = &self.coding.value {
            let mut i: usize = 0;
            while i < list.len()
                invariant
                    i <= list@.len(),
                    list@ == loaded(self.coding),
                    done == loaded(self.interactive).len(),
                    all == loaded(self.interactive) + loaded(self.coding),
                    seen_rows(out@) == arranged(all.take(done + i)),
                decreases list@.len() - i,
            {
                assert(all.take(done + i + 1).drop_last() =~= all.take(done + i));
                assert(all.take(done + i + 1).last() == list@[i as int]);
                place(&mut out, &list[i]);
                i += 1;
            }
            assert(all.take(done + i) =~= all);
        } else {
            assert(all.take(done as int) =~= all);
        }
        out
    }

    pub open spec fn chosen(&self) -> Option<SessionInfo> {
        if self.selected < self.rows().len() {
            Some(self.rows()[self.selected as int])
        } else {
            None
        }
    }

    pub fn current(&self) -> (r: Option<&SessionInfo>)
        ensures
            match r {
                Some(session) => self.chosen() == Some(*session),
                None => self.chosen() is None,
            },
    {
        let rows = self.merged();
        assert(rows@.len() == self.rows().len()) by {
            assert(seen_rows(rows@).len() == rows@.len());
        }
        if self.selected < rows.len() {
            assert(seen_rows(rows@)[self.selected as int] == *rows@[self.selected as int]);
            Some(rows[self.selected])
        } else {
            None
        }
    }

    /// The place of a watch.
    pub fn find(&self, plane: Plane, id: &str) -> (r: Option<usize>)
        requires
            self.wf(),
        ensures
            match r {
                Some(i) => {
                    &&& i < self.watches@.len()
                    &&& self.watches@[i as int].is(plane, id@)
                    &&& watched(self.watches@, plane, id@)
                    &&& watch_at(self.watches@, plane, id@) == i
                },
                None => !watched(self.watches@, plane, id@),
            },
    {
        let mut i: usize = 0;
        while i < self.watches.len()
            invariant
                i <= self.watches@.len(),
                self.wf(),
                forall|k: int| 0 <= k < i ==> !(#[trigger] self.watches@[k]).is(plane, id@),
            decreases self.watches@.len() - i,
        {
            if self.watches[i].plane == plane && same(self.watches[i].id.as_str(), id) {
                proof {
                    lemma_watch_at(self.watches@, i as int);
                }
                return Some(i);
            }
            i += 1;
        }
        None
    }

    /// The watch of the open session.
    pub open spec fn open_index(&self) -> Option<int> {
        match self.open {
            Some(key) => if watched(self.watches@, key.plane, key.id@) {
                Some(watch_at(self.watches@, key.plane, key.id@))
            } else {
                None
            },
            None => None,
        }
    }

    pub fn open_at(&self) -> (r: Option<usize>)
        requires
            self.wf(),
        ensures
            match r {
                Some(i) => i < self.watches@.len() && self.open_index() == Some(i as int),
                None => self.open_index() is None,
            },
    {
        match &self.open {
            Some(key) => self.find(key.plane, key.id.as_str()),
            None => None,
        }
    }

    pub fn open_watch(&self) -> (r: Option<&Watch>)
        requires
            self.wf(),
        ensures
            match r {
                Some(watch) => self.open_index() is Some && *watch
                    == self.watches@[self.open_index()->0],
                None => self.open_index() is None,
            },
    {
        match self.open_at() {
            Some(i) => Some(&self.watches[i]),
            None => None,
        }
    }

    pub open spec fn list_of(&self, plane: Plane) -> Seq<SessionInfo> {
        match plane {
            Plane::Interactive => loaded(self.interactive),
            Plane::Coding => loaded(self.coding),
        }
    }

    /// A session's row in the latest list of its plane.
    pub open spec fn row(&self, plane: Plane, id: Seq<char>) -> Option<SessionInfo> {
        first_row(self.list_of(plane), plane, id)
    }

    pub fn get(&self, plane: Plane, id: &str) -> (r: Option<&SessionInfo>)
        ensures
            match r {
                Some(info) => self.row(plane, id@) == Some(*info),
                None => self.row(plane, id@) is None,
            },
    {
        let value = match plane {
            Plane::Interactive => &self.interactive.value,
            Plane::Coding => &self.coding.value,
        };
        let list = match value {
            Some(list) => list,
            None => {
                return None;
            },
        };
        let mut i: usize = 0;
        assert(list@.take(0).len() == 0);
        while i < list.len()
            invariant
                i <= list@.len(),
                list@ == self.list_of(plane),
                first_row(list@.take(i as int), plane, id@) is None,
            decreases list@.len() - i,
        {
            assert(list@.take(i + 1).drop_last() =~= list@.take(i as int));
            if list[i].plane == plane && same(list[i].id.as_str(), id) {
                proof {
                    lemma_first_row(list@, plane, id@, i + 1);
                }
                return Some(&list[i]);
            }
            i += 1;
        }
        assert(list@.take(i as int) =~= list@);
        None
    }

    pub open spec fn open_row(&self) -> Option<SessionInfo> {
        match self.open {
            Some(key) => self.row(key.plane, key.id@),
            None => None,
        }
    }

    /// The row of the session whose transcript is open, when the latest list has one.
    pub fn open_info(&self) -> (r: Option<&SessionInfo>)
        ensures
            match r {
                Some(info) => self.open_row() == Some(*info),
                None => self.open_row() is None,
            },
    {
        match &self.open {
            Some(key) => self.get(key.plane, key.id.as_str()),
            None => None,
        }
    }

    pub fn mark_reply_pending(&mut self, plane: Plane, id: &str)
        ensures
            final(self).pending_replies@ == old(self).pending_replies@.insert((plane, id@)),
            *final(self) == (SessionsTab {
                pending_replies: final(self).pending_replies,
                ..*old(self)
            }),
    {
        self.pending_replies.insert(plane, id);
    }

    pub fn clear_reply_pending(&mut self, plane: Plane, id: &str)
        ensures
            final(self).pending_replies@ == old(self).pending_replies@.remove((plane, id@)),
            *final(self) == (SessionsTab {
                pending_replies: final(self).pending_replies,
                ..*old(self)
            }),
    {
        self.pending_replies.remove(plane, id);
    }
}

// ----- turns that are not settled ---------------------------------------------------

impl Unsettled {
    pub open spec fn is(&self, plane: Plane, id: Seq<char>, turn_id: Seq<char>) -> bool {
        self.key@ == (plane, id) && self.turn_id@ == turn_id
    }
}

/// The turns but for one.
pub open spec fn but_for_turn(
    list: Seq<Unsettled>,
    plane: Plane,
    id: Seq<char>,
    turn_id: Seq<char>,
) -> Seq<Unsettled>
    decreases list.len(),
{
    if list.len() == 0 {
        list
    } else {
        let rest = but_for_turn(list.drop_last(), plane, id, turn_id);
        if list.last().is(plane, id, turn_id) {
            rest
        } else {
            rest.push(list.last())
        }
    }
}

/// The saved drafts but for those of a session.
pub open spec fn but_for_session(list: Seq<SavedDraft>, plane: Plane, id: Seq<char>) -> Seq<
    SavedDraft,
>
    decreases list.len(),
{
    if list.len() == 0 {
        list
    } else {
        let rest = but_for_session(list.drop_last(), plane, id);
        if list.last().key@ == (plane, id) {
            rest
        } else {
            rest.push(list.last())
        }
    }
}

fn drop_drafts(list: Vec<SavedDraft>, plane: Plane, id: &str) -> (r: Vec<SavedDraft>)
    ensures
        r@ == but_for_session(list@, plane, id@),
{
    let ghost whole = list@;
    let mut kept: Vec<SavedDraft> = Vec::new();
    assert(whole.take(0).len() == 0);
    assert(kept@ =~= whole.take(0));
    for draft in it: list.into_iter()
        invariant
            it.seq() == whole,
            kept@ == but_for_session(whole.take(it.index() as int), plane, id@),
    {
        let ghost at = it.index() as int;
        assert(whole.take(at + 1).drop_last() =~= whole.take(at));
        assert(whole.take(at + 1).last() == draft);
        if !draft.key.is(plane, id) {
            kept.push(draft);
        }
    }
    assert(whole.take(whole.len() as int) =~= whole);
    kept
}

/// The draft of a session that belongs to a turn.
pub open spec fn kept_for(list: Seq<SavedDraft>, plane: Plane, id: Seq<char>, turn_id: Seq<char>) -> bool {
    exists|i: int|
        0 <= i < list.len() && (#[trigger] list[i]).key@ == (plane, id) && list[i].owns(turn_id)
}

impl SessionsTab {
    /// A turn is no longer waiting for its outcome.
    pub fn settle_pending_reconciliation(&mut self, plane: Plane, id: &str, turn_id: &str)
        ensures
            final(self).pending_reconciliations@ == but_for_turn(
                old(self).pending_reconciliations@,
                plane,
                id@,
                turn_id@,
            ),
            *final(self) == (SessionsTab {
                pending_reconciliations: final(self).pending_reconciliations,
                ..*old(self)
            }),
    {
        let mut list: Vec<Unsettled> = Vec::new();
        std::mem::swap(&mut self.pending_reconciliations, &mut list);
        let ghost whole = list@;
        let mut kept: Vec<Unsettled> = Vec::new();
        assert(whole.take(0).len() == 0);
        assert(kept@ =~= whole.take(0));
        for entry in it: list.into_iter()
            invariant
                it.seq() == whole,
                kept@ == but_for_turn(whole.take(it.index() as int), plane, id@, turn_id@),
        {
            let ghost at = it.index() as int;
            assert(whole.take(at + 1).drop_last() =~= whole.take(at));
            assert(whole.take(at + 1).last() == entry);
            if !(entry.key.is(plane, id) && same(entry.turn_id.as_str(), turn_id)) {
                kept.push(entry);
            }
        }
        assert(whole.take(whole.len() as int) =~= whole);
        self.pending_reconciliations = kept;
    }

    /// A turn that was reconciled arrived: the draft kept for it goes, wherever it is, and a draft
    /// that was changed since stays.
    pub open spec fn draft_accepted(
        &self,
        after: SessionsTab,
        plane: Plane,
        id: Seq<char>,
        turn_id: Seq<char>,
    ) -> bool {
        if key_of(self.open) == Some((plane, id)) {
            match self.composer {
                Some(composer) => if composer.owns(turn_id) {
                    &&& after.composer is Some
                    &&& after.composer->0.editor.blank() && !after.composer->0.editor.completing
                    &&& after.composer->0 == (Composer {
                        editor: after.composer->0.editor,
                        generation: after.composer->0.generation,
                        reconciliation_owner: None,
                        ..composer
                    })
                    &&& after.composer->0.generation == if composer.generation == u64::MAX {
                        u64::MAX
                    } else {
                        (composer.generation + 1) as u64
                    }
                    &&& after.composer_drafts@ == but_for_session(self.composer_drafts@, plane, id)
                    &&& after == (SessionsTab {
                        composer: after.composer,
                        composer_drafts: after.composer_drafts,
                        ..*self
                    })
                } else {
                    after == *self
                },
                None => after == *self,
            }
        } else if kept_for(self.composer_drafts@, plane, id, turn_id) {
            &&& after.composer_drafts@ == but_for_session(self.composer_drafts@, plane, id)
            &&& after == (SessionsTab { composer_drafts: after.composer_drafts, ..*self })
        } else {
            after == *self
        }
    }

    fn saved_for(&self, plane: Plane, id: &str, turn_id: &str) -> (r: Option<usize>)
        ensures
            match r {
                Some(i) => i < self.composer_drafts@.len() && self.composer_drafts@[i as int].key@
                    == (plane, id@) && self.composer_drafts@[i as int].owns(turn_id@) && kept_for(
                    self.composer_drafts@,
                    plane,
                    id@,
                    turn_id@,
                ) && forall|k: int|
                    0 <= k < i ==> !((#[trigger] self.composer_drafts@[k]).key@ == (plane, id@)
                        && self.composer_drafts@[k].owns(turn_id@)),
                None => !kept_for(self.composer_drafts@, plane, id@, turn_id@),
            },
    {
        let mut i: usize = 0;
        while i < self.composer_drafts.len()
            invariant
                i <= self.composer_drafts@.len(),
                forall|k: int|
                    0 <= k < i ==> !((#[trigger] self.composer_drafts@[k]).key@ == (plane, id@)
                        && self.composer_drafts@[k].owns(turn_id@)),
            decreases self.composer_drafts@.len() - i,
        {
            if self.composer_drafts[i].key.is(plane, id)
                && self.composer_drafts[i].owns_reconciliation(turn_id) {
                assert(self.composer_drafts@[i as int].key@ == (plane, id@));
                return Some(i);
            }
            i += 1;
        }
        None
    }

    pub(crate) fn drop_saved(&mut self, plane: Plane, id: &str)
        ensures
            final(self).composer_drafts@ == but_for_session(
                old(self).composer_drafts@,
                plane,
                id@,
            ),
            *final(self) == (SessionsTab {
                composer_drafts: final(self).composer_drafts,
                ..*old(self)
            }),
    {
        let mut list: Vec<SavedDraft> = Vec::new();
        std::mem::swap(&mut self.composer_drafts, &mut list);
        self.composer_drafts = drop_drafts(list, plane, id);
    }

    pub fn accept_reconciled_composer_draft(&mut self, plane: Plane, id: &str, turn_id: &str)
        ensures
            old(self).draft_accepted(*final(self), plane, id@, turn_id@),
    {
        if is_key(&self.open, plane, id) {
            let ours = match &self.composer {
                Some(composer) => composer.owns_reconciliation(turn_id),
                None => false,
            };
            if !ours {
                return;
            }
            let mut held: Option<Composer> = None;
            std::mem::swap(&mut self.composer, &mut held);
            if let Some(composer) = held {
                let mut composer = composer;
                composer.editor.clear();
                composer.generation = composer.generation.saturating_add(1);
                composer.reconciliation_owner = None;
                self.composer = Some(composer);
            }
            self.drop_saved(plane, id);
        } else if self.saved_for(plane, id, turn_id).is_some() {
            self.drop_saved(plane, id);
        }
    }

    /// A turn that was reconciled did not arrive: the draft kept for it is an ordinary one again.
    pub open spec fn draft_released(
        &self,
        after: SessionsTab,
        plane: Plane,
        id: Seq<char>,
        turn_id: Seq<char>,
    ) -> bool {
        if key_of(self.open) == Some((plane, id)) {
            match self.composer {
                Some(composer) => after == (SessionsTab {
                    composer: Some(
                        if composer.owns(turn_id) {
                            Composer { reconciliation_owner: None, ..composer }
                        } else {
                            composer
                        },
                    ),
                    ..*self
                }),
                None => after == *self,
            }
        } else if kept_for(self.composer_drafts@, plane, id, turn_id) {
            &&& exists|i: int|
                {
                    &&& 0 <= i < self.composer_drafts@.len()
                    &&& (#[trigger] self.composer_drafts@[i]).key@ == (plane, id)
                    &&& self.composer_drafts@[i].owns(turn_id)
                    &&& after.composer_drafts@ == self.composer_drafts@.update(
                        i,
                        SavedDraft { reconciliation_owner: None, ..self.composer_drafts@[i] },
                    )
                }
            &&& after == (SessionsTab { composer_drafts: after.composer_drafts, ..*self })
        } else {
            after == *self
        }
    }

    pub fn release_reconciliation_draft(&mut self, plane: Plane, id: &str, turn_id: &str)
        ensures
            old(self).draft_released(*final(self), plane, id@, turn_id@),
    {
        let ghost start = *self;
        if is_key(&self.open, plane, id) {
            let ours = match &self.composer {
                Some(composer) => composer.owns_reconciliation(turn_id),
                None => false,
            };
            if ours {
                let mut held: Option<Composer> = None;
                std::mem::swap(&mut self.composer, &mut held);
                if let Some(composer) = held {
                    let mut composer = composer;
                    composer.reconciliation_owner = None;
                    self.composer = Some(composer);
                }
            }
            return;
        }
        if let Some(i) = self.saved_for(plane, id, turn_id) {
            let mut draft = self.composer_drafts.remove(i);
            draft.reconciliation_owner = None;
            self.composer_drafts.insert(i, draft);
            assert(self.composer_drafts@ =~= start.composer_drafts@.update(
                i as int,
                SavedDraft { reconciliation_owner: None, ..start.composer_drafts@[i as int] },
            ));
        }
    }
}

proof fn lemma_found_row(list: Seq<SessionInfo>, plane: Plane, id: Seq<char>)
    ensures
        match first_row(list, plane, id) {
            Some(row) => list.contains(row) && row.plane == plane && row.id@ == id,
            None => forall|i: int|
                0 <= i < list.len() ==> !((#[trigger] list[i]).plane == plane && list[i].id@ == id),
        },
    decreases list.len(),
{
    if list.len() > 0 {
        let rest = list.drop_last();
        let last = list.len() - 1;
        lemma_found_row(rest, plane, id);
        assert(list[last] == list.last());
        if let Some(row) = first_row(rest, plane, id) {
            let k = choose|k: int| 0 <= k < rest.len() && rest[k] == row;
            assert(list[k] == row);
        } else {
            assert forall|i: int| 0 <= i < last implies !((#[trigger] list[i]).plane == plane
                && list[i].id@ == id) by {
                assert(rest[i] == list[i]);
            }
        }
    }
}

/// The row of a session is its own, and there is none only where the list of its plane has none.
pub proof fn lemma_a_session_is_found_by_its_id(tab: SessionsTab, plane: Plane, id: Seq<char>)
    ensures
        match tab.row(plane, id) {
            Some(row) => tab.list_of(plane).contains(row) && row.plane == plane && row.id@ == id,
            None => forall|i: int|
                0 <= i < tab.list_of(plane).len() ==> !((#[trigger] tab.list_of(plane)[i]).plane
                    == plane && tab.list_of(plane)[i].id@ == id),
        },
{
    lemma_found_row(tab.list_of(plane), plane, id);
}

} // verus!
