//! Text as a sequence of characters: the operations the rest of the crate writes with.
//!
//! Every function here is stated over `Seq<char>`. A character is one Unicode scalar value, so
//! a length in this module counts characters and never bytes.

use vstd::prelude::*;

verus! {

/// `String::push` appends one character to the end.
pub assume_specification[ String::push ](s: &mut String, c: char)
    ensures
        final(s)@ == old(s)@.push(c),
;

/// Whether two pieces of text are equal. Calls `str`'s `PartialEq::eq`, which is true exactly
/// when both sides hold the same characters.
#[verifier::external_body]
pub(crate) fn same(a: &str, b: &str) -> (r: bool)
    ensures
        r == (a@ == b@),
{
    a == b
}

/// How `std` prints a piece of text for a programmer: between double quotes, with its escapes.
pub uninterp spec fn debug_text(s: Seq<char>) -> Seq<char>;

/// Prints a piece of text for a programmer. Calls `format!` with the `Debug` impl of `str`; what it
/// writes depends on the text alone and is named by `debug_text`.
#[verifier::external_body]
pub(crate) fn debug(s: &str) -> (r: String)
    ensures
        r@ == debug_text(s@),
{
    format!("{s:?}")
}

// ----- classes of characters --------------------------------------------------------

/// The Unicode `White_Space` property.
pub open spec fn is_space(c: char) -> bool {
    ||| '\u{9}' <= c <= '\u{d}'
    ||| c == ' '
    ||| c == '\u{85}'
    ||| c == '\u{a0}'
    ||| c == '\u{1680}'
    ||| '\u{2000}' <= c <= '\u{200a}'
    ||| c == '\u{2028}'
    ||| c == '\u{2029}'
    ||| c == '\u{202f}'
    ||| c == '\u{205f}'
    ||| c == '\u{3000}'
}

/// The Unicode general category `Cc`: the C0 and C1 controls and delete.
pub open spec fn is_control(c: char) -> bool {
    c <= '\u{1f}' || '\u{7f}' <= c <= '\u{9f}'
}

pub open spec fn is_ascii_digit(c: char) -> bool {
    '0' <= c <= '9'
}

pub open spec fn is_ascii_upper(c: char) -> bool {
    'A' <= c <= 'Z'
}

pub open spec fn is_ascii_alnum(c: char) -> bool {
    is_ascii_digit(c) || is_ascii_upper(c) || 'a' <= c <= 'z'
}

pub fn space(c: char) -> (r: bool)
    ensures
        r == is_space(c),
{
    ('\u{9}' <= c && c <= '\u{d}') || c == ' ' || c == '\u{85}' || c == '\u{a0}' || c == '\u{1680}'
        || ('\u{2000}' <= c && c <= '\u{200a}') || c == '\u{2028}' || c == '\u{2029}' || c
        == '\u{202f}' || c == '\u{205f}' || c == '\u{3000}'
}

pub fn control(c: char) -> (r: bool)
    ensures
        r == is_control(c),
{
    c <= '\u{1f}' || ('\u{7f}' <= c && c <= '\u{9f}')
}

pub fn ascii_digit(c: char) -> (r: bool)
    ensures
        r == is_ascii_digit(c),
{
    '0' <= c && c <= '9'
}

pub fn ascii_alnum(c: char) -> (r: bool)
    ensures
        r == is_ascii_alnum(c),
{
    ('0' <= c && c <= '9') || ('A' <= c && c <= 'Z') || ('a' <= c && c <= 'z')
}

// ----- characters in and out --------------------------------------------------------

/// The characters of a piece of text, in order.
pub fn chars_of(s: &str) -> (r: Vec<char>)
    ensures
        r@ == s@,
{
    let mut out: Vec<char> = Vec::new();
    for c in it: s.chars()
        invariant
            out@ == s@.take(it.index() as int),
            it.seq() == s@,
    {
        assert(s@.take(it.index() + 1) == s@.take(it.index() as int).push(c));
        out.push(c);
    }
    assert(s@.take(s@.len() as int) == s@);
    out
}

/// The text that holds the characters `from..to`.
pub fn slice_text(v: &Vec<char>, from: usize, to: usize) -> (r: String)
    requires
        from <= to <= v@.len(),
    ensures
        r@ == v@.subrange(from as int, to as int),
{
    let mut out = String::new();
    let mut i: usize = from;
    while i < to
        invariant
            from <= i <= to <= v@.len(),
            out@ == v@.subrange(from as int, i as int),
        decreases to - i,
    {
        out.push(v[i]);
        i += 1;
        assert(v@.subrange(from as int, i as int) == v@.subrange(from as int, i - 1).push(
            v@[i - 1],
        ));
    }
    out
}

pub fn text_of(v: &Vec<char>) -> (r: String)
    ensures
        r@ == v@,
{
    assert(v@.subrange(0, v@.len() as int) == v@);
    slice_text(v, 0, v.len())
}

// ----- joining ----------------------------------------------------------------------

pub fn cat2(a: &str, b: &str) -> (r: String)
    ensures
        r@ == a@ + b@,
{
    let mut out = a.to_owned();
    out.append(b);
    out
}

pub fn cat3(a: &str, b: &str, c: &str) -> (r: String)
    ensures
        r@ == a@ + b@ + c@,
{
    let mut out = cat2(a, b);
    out.append(c);
    out
}

pub fn cat4(a: &str, b: &str, c: &str, d: &str) -> (r: String)
    ensures
        r@ == a@ + b@ + c@ + d@,
{
    let mut out = cat3(a, b, c);
    out.append(d);
    out
}

pub fn cat5(a: &str, b: &str, c: &str, d: &str, e: &str) -> (r: String)
    ensures
        r@ == a@ + b@ + c@ + d@ + e@,
{
    let mut out = cat4(a, b, c, d);
    out.append(e);
    out
}

/// The parts in order with `separator` between each two of them.
pub open spec fn joined(parts: Seq<Seq<char>>, separator: Seq<char>) -> Seq<char>
    decreases parts.len(),
{
    if parts.len() == 0 {
        Seq::empty()
    } else if parts.len() == 1 {
        parts[0]
    } else {
        joined(parts.drop_last(), separator) + separator + parts.last()
    }
}

/// What each string of a list says.
pub open spec fn texts(parts: Seq<String>) -> Seq<Seq<char>> {
    parts.map_values(|s: String| s@)
}

/// What an optional string says.
pub open spec fn said(text: Option<String>) -> Option<Seq<char>> {
    match text {
        Some(text) => Some(text@),
        None => None,
    }
}

pub open spec fn heard(text: Option<&str>) -> Option<Seq<char>> {
    match text {
        Some(text) => Some(text@),
        None => None,
    }
}

pub fn as_deref(text: &Option<String>) -> (r: Option<&str>)
    ensures
        heard(r) == said(*text),
{
    match text {
        Some(text) => Some(text.as_str()),
        None => None,
    }
}

pub fn copy_text(text: &Option<String>) -> (r: Option<String>)
    ensures
        said(r) == said(*text),
{
    match text {
        Some(text) => Some(text.clone()),
        None => None,
    }
}

/// Two optional texts read the same.
pub fn agree(a: &Option<String>, b: &Option<String>) -> (r: bool)
    ensures
        r == (said(*a) == said(*b)),
{
    match (a, b) {
        (None, None) => true,
        (Some(a), Some(b)) => same(a.as_str(), b.as_str()),
        _ => false,
    }
}

pub fn copy_texts(list: &Vec<String>) -> (r: Vec<String>)
    ensures
        texts(r@) == texts(list@),
{
    let mut out: Vec<String> = Vec::new();
    let mut i: usize = 0;
    while i < list.len()
        invariant
            i <= list@.len(),
            out@.len() == i,
            forall|k: int| 0 <= k < i ==> (#[trigger] out@[k])@ == list@[k]@,
        decreases list@.len() - i,
    {
        out.push(list[i].clone());
        i += 1;
    }
    assert(texts(out@) =~= texts(list@));
    out
}

/// Whether an optional string is there and says exactly this.
pub fn is_text(text: &Option<String>, word: &str) -> (r: bool)
    ensures
        r == (said(*text) == Some(word@)),
{
    match text {
        Some(text) => same(text.as_str(), word),
        None => false,
    }
}

pub fn join(parts: &Vec<String>, separator: &str) -> (r: String)
    ensures
        r@ == joined(texts(parts@), separator@),
{
    let mut out = String::new();
    let mut i: usize = 0;
    while i < parts.len()
        invariant
            0 <= i <= parts@.len(),
            out@ == joined(texts(parts@.take(i as int)), separator@),
        decreases parts@.len() - i,
    {
        let ghost before = texts(parts@.take(i as int));
        let ghost after = texts(parts@.take(i + 1));
        proof {
            assert(after.drop_last() =~= before);
            assert(after.last() == parts@[i as int]@);
        }
        if i > 0 {
            out.append(separator);
        } else {
            assert(Seq::<char>::empty() + parts@[0]@ =~= parts@[0]@);
        }
        out.append(parts[i].as_str());
        i += 1;
    }
    assert(parts@.take(parts@.len() as int) == parts@);
    out
}

// ----- trimming ---------------------------------------------------------------------

pub open spec fn trimmed_start(s: Seq<char>) -> Seq<char>
    decreases s.len(),
{
    if s.len() > 0 && is_space(s[0]) {
        trimmed_start(s.skip(1))
    } else {
        s
    }
}

pub open spec fn trimmed_end(s: Seq<char>) -> Seq<char>
    decreases s.len(),
{
    if s.len() > 0 && is_space(s.last()) {
        trimmed_end(s.drop_last())
    } else {
        s
    }
}

/// Without white space at either end.
pub open spec fn trimmed(s: Seq<char>) -> Seq<char> {
    trimmed_end(trimmed_start(s))
}

fn start_of(v: &Vec<char>) -> (i: usize)
    ensures
        i <= v@.len(),
        v@.skip(i as int) == trimmed_start(v@),
{
    let mut i: usize = 0;
    assert(v@.skip(0) == v@);
    while i < v.len() && space(v[i])
        invariant
            i <= v@.len(),
            trimmed_start(v@.skip(i as int)) == trimmed_start(v@),
        decreases v@.len() - i,
    {
        assert(v@.skip(i as int).skip(1) == v@.skip(i + 1));
        i += 1;
    }
    i
}

fn end_of(v: &Vec<char>, from: usize) -> (i: usize)
    requires
        from <= v@.len(),
    ensures
        from <= i <= v@.len(),
        v@.subrange(from as int, i as int) == trimmed_end(v@.skip(from as int)),
{
    let mut i: usize = v.len();
    assert(v@.subrange(from as int, i as int) == v@.skip(from as int));
    while i > from && space(v[i - 1])
        invariant
            from <= i <= v@.len(),
            trimmed_end(v@.subrange(from as int, i as int)) == trimmed_end(v@.skip(from as int)),
        decreases i,
    {
        assert(v@.subrange(from as int, i as int).drop_last() == v@.subrange(from as int, i - 1));
        i -= 1;
    }
    i
}

pub fn trim(s: &str) -> (r: String)
    ensures
        r@ == trimmed(s@),
{
    let v = chars_of(s);
    let from: usize = start_of(&v);
    let to: usize = end_of(&v, from);
    slice_text(&v, from, to)
}

pub fn trim_end(s: &str) -> (r: String)
    ensures
        r@ == trimmed_end(s@),
{
    let v = chars_of(s);
    assert(v@.skip(0) == v@);
    let to: usize = end_of(&v, 0);
    slice_text(&v, 0, to)
}

// ----- letters ----------------------------------------------------------------------

pub open spec fn lower_char(c: char) -> char {
    if is_ascii_upper(c) {
        ((c as u32) + 32) as char
    } else {
        c
    }
}

/// ASCII letters in lower case, everything else unchanged.
pub open spec fn lowered(s: Seq<char>) -> Seq<char> {
    s.map_values(|c: char| lower_char(c))
}

fn to_lower(c: char) -> (r: char)
    ensures
        r == lower_char(c),
{
    if 'A' <= c && c <= 'Z' {
        let byte: u8 = c as u8;
        (byte + 32) as char
    } else {
        c
    }
}

pub fn lower(s: &str) -> (r: String)
    ensures
        r@ == lowered(s@),
{
    let v = chars_of(s);
    let mut out = String::new();
    let mut i: usize = 0;
    while i < v.len()
        invariant
            i <= v@.len(),
            out@ == lowered(v@.take(i as int)),
        decreases v@.len() - i,
    {
        out.push(to_lower(v[i]));
        i += 1;
        assert(lowered(v@.take(i as int)) == lowered(v@.take(i - 1)).push(lower_char(v@[i - 1])));
    }
    assert(v@.take(v@.len() as int) == v@);
    out
}

// ----- searching --------------------------------------------------------------------

pub open spec fn occurs_at(text: Seq<char>, needle: Seq<char>, at: int) -> bool {
    0 <= at && at + needle.len() <= text.len() && text.subrange(at, at + needle.len()) == needle
}

/// `needle` is a run of consecutive characters of `text`.
pub open spec fn occurs(text: Seq<char>, needle: Seq<char>) -> bool {
    exists|at: int| occurs_at(text, needle, at)
}

fn occurs_here(text: &Vec<char>, needle: &Vec<char>, at: usize) -> (r: bool)
    requires
        at + needle@.len() <= text@.len(),
    ensures
        r == occurs_at(text@, needle@, at as int),
{
    let size: usize = text.len();
    let mut i: usize = 0;
    while i < needle.len()
        invariant
            i <= needle@.len(),
            at + needle@.len() <= text@.len() == size,
            forall|j: int| 0 <= j < i ==> text@[at + j] == needle@[j],
        decreases needle@.len() - i,
    {
        if text[at + i] != needle[i] {
            assert(text@.subrange(at as int, at + needle@.len())[i as int] != needle@[i as int]);
            return false;
        }
        i += 1;
    }
    assert(text@.subrange(at as int, at + needle@.len()) == needle@);
    true
}

pub fn contains(s: &str, part: &str) -> (r: bool)
    ensures
        r == occurs(s@, part@),
{
    let text = chars_of(s);
    let needle = chars_of(part);
    if needle.len() > text.len() {
        return false;
    }
    let last: usize = text.len() - needle.len();
    let mut at: usize = 0;
    while at <= last
        invariant
            at <= last + 1,
            last + needle@.len() == text@.len(),
            text@ == s@,
            needle@ == part@,
            forall|j: int| 0 <= j < at ==> !occurs_at(s@, part@, j),
        decreases last + 1 - at,
    {
        if occurs_here(&text, &needle, at) {
            return true;
        }
        if at == last {
            assert forall|j: int| !occurs_at(s@, part@, j) by {}
            return false;
        }
        at += 1;
    }
    false
}

pub open spec fn begins(s: Seq<char>, prefix: Seq<char>) -> bool {
    occurs_at(s, prefix, 0)
}

pub fn starts_with(s: &str, prefix: &str) -> (r: bool)
    ensures
        r == begins(s@, prefix@),
{
    let text = chars_of(s);
    let needle = chars_of(prefix);
    if needle.len() > text.len() {
        false
    } else {
        occurs_here(&text, &needle, 0)
    }
}

// ----- numbers ----------------------------------------------------------------------

pub open spec fn digit(d: nat) -> char {
    ((48 + d) as u32) as char
}

/// The decimal digits of a number, without leading zeros.
pub open spec fn decimal(n: nat) -> Seq<char>
    decreases n,
{
    if n < 10 {
        seq![digit(n)]
    } else {
        decimal(n / 10).push(digit(n % 10))
    }
}

fn digit_char(d: u64) -> (r: char)
    requires
        d < 10,
    ensures
        r == digit(d as nat),
{
    let byte: u8 = 48 + (d as u8);
    byte as char
}

pub fn number(n: u64) -> (r: String)
    ensures
        r@ == decimal(n as nat),
    decreases n,
{
    if n < 10 {
        let mut out = String::new();
        out.push(digit_char(n));
        assert(out@ == seq![digit(n as nat)]);
        out
    } else {
        let mut out = number(n / 10);
        out.push(digit_char(n % 10));
        out
    }
}

pub fn count(n: usize) -> (r: String)
    ensures
        r@ == decimal(n as nat),
{
    number(n as u64)
}

// ----- order ------------------------------------------------------------------------

/// Strictly earlier in dictionary order, character by character.
pub open spec fn precedes(a: Seq<char>, b: Seq<char>) -> bool
    decreases a.len(),
{
    if b.len() == 0 {
        false
    } else if a.len() == 0 {
        true
    } else if a[0] != b[0] {
        a[0] < b[0]
    } else {
        precedes(a.skip(1), b.skip(1))
    }
}

pub proof fn lemma_precedes_irreflexive(a: Seq<char>)
    ensures
        !precedes(a, a),
    decreases a.len(),
{
    if a.len() > 0 {
        lemma_precedes_irreflexive(a.skip(1));
    }
}

pub proof fn lemma_precedes_transitive(a: Seq<char>, b: Seq<char>, c: Seq<char>)
    requires
        precedes(a, b),
        precedes(b, c),
    ensures
        precedes(a, c),
    decreases a.len(),
{
    if a.len() > 0 && a[0] == b[0] && b[0] == c[0] {
        lemma_precedes_transitive(a.skip(1), b.skip(1), c.skip(1));
    }
}

pub proof fn lemma_precedes_total(a: Seq<char>, b: Seq<char>)
    ensures
        precedes(a, b) || precedes(b, a) || a == b,
    decreases a.len(),
{
    if a.len() > 0 && b.len() > 0 && a[0] == b[0] {
        lemma_precedes_total(a.skip(1), b.skip(1));
        if a.skip(1) == b.skip(1) {
            assert(a =~= seq![a[0]] + a.skip(1));
            assert(b =~= seq![b[0]] + b.skip(1));
        }
    } else if a.len() == 0 && b.len() == 0 {
        assert(a =~= b);
    }
}

pub fn earlier(a: &str, b: &str) -> (r: bool)
    ensures
        r == precedes(a@, b@),
{
    let left = chars_of(a);
    let right = chars_of(b);
    let mut i: usize = 0;
    assert(left@.skip(0) == left@);
    assert(right@.skip(0) == right@);
    while i < left.len() && i < right.len()
        invariant
            i <= left@.len(),
            i <= right@.len(),
            precedes(a@, b@) == precedes(left@.skip(i as int), right@.skip(i as int)),
        decreases left@.len() - i,
    {
        if left[i] != right[i] {
            return left[i] < right[i];
        }
        assert(left@.skip(i as int).skip(1) == left@.skip(i + 1));
        assert(right@.skip(i as int).skip(1) == right@.skip(i + 1));
        i += 1;
    }
    i < right.len()
}

/// In strictly ascending order, so that nothing occurs twice.
pub open spec fn ascending(list: Seq<Seq<char>>) -> bool {
    forall|i: int, j: int|
        0 <= i < j < list.len() ==> precedes(#[trigger] list[i], #[trigger] list[j])
}

/// Puts a string into an ascending list, unless it is there already.
pub fn insert_sorted(list: &mut Vec<String>, item: String)
    requires
        ascending(texts(old(list)@)),
    ensures
        ascending(texts(final(list)@)),
        texts(final(list)@).to_set() == texts(old(list)@).to_set().insert(item@),
{
    let ghost before = texts(list@);
    let ghost word = item@;
    let mut at: usize = 0;
    while at < list.len() && earlier(list[at].as_str(), item.as_str())
        invariant
            at <= list@.len(),
            before == texts(list@),
            word == item@,
            ascending(before),
            forall|i: int| 0 <= i < at ==> precedes(#[trigger] before[i], word),
        decreases list@.len() - at,
    {
        assert(before[at as int] == list@[at as int]@);
        at += 1;
    }
    if at < list.len() && same(list[at].as_str(), item.as_str()) {
        assert(before[at as int] == word);
        assert(before.to_set().insert(word) =~= before.to_set());
        return;
    }
    proof {
        assert forall|i: int| at <= i < before.len() implies precedes(
            word,
            #[trigger] before[i],
        ) by {
            assert(before[at as int] == list@[at as int]@);
            lemma_precedes_total(before[at as int], word);
            if i > at {
                assert(precedes(before[at as int], before[i]));
                lemma_precedes_transitive(word, before[at as int], before[i]);
            }
        }
    }
    list.insert(at, item);
    proof {
        let after = texts(list@);
        assert(after =~= before.insert(at as int, word));
        assert forall|i: int, j: int| 0 <= i < j < after.len() implies precedes(
            #[trigger] after[i],
            #[trigger] after[j],
        ) by {
            if i == at {
                assert(after[j] == before[j - 1]);
            } else if j == at {
                assert(after[i] == before[i]);
            } else {
                let a = if i < at {
                    i
                } else {
                    i - 1
                };
                let b = if j < at {
                    j
                } else {
                    j - 1
                };
                assert(after[i] == before[a] && after[j] == before[b]);
            }
        }
        assert forall|x: Seq<char>| after.to_set().contains(x) == before.to_set().insert(
            word,
        ).contains(x) by {
            if after.contains(x) {
                let k = choose|k: int| 0 <= k < after.len() && after[k] == x;
                if k < at {
                    assert(before[k] == x);
                } else if k > at {
                    assert(before[k - 1] == x);
                }
            }
            if before.contains(x) {
                let k = choose|k: int| 0 <= k < before.len() && before[k] == x;
                if k < at {
                    assert(after[k] == x);
                } else {
                    assert(after[k + 1] == x);
                }
            }
            if x == word {
                assert(after[at as int] == x);
            }
        }
        assert(after.to_set() =~= before.to_set().insert(word));
    }
}

/// Whether a list holds a string.
pub fn listed(list: &Vec<String>, word: &str) -> (r: bool)
    ensures
        r == texts(list@).contains(word@),
{
    let mut i: usize = 0;
    while i < list.len()
        invariant
            i <= list@.len(),
            forall|k: int| 0 <= k < i ==> #[trigger] texts(list@)[k] != word@,
        decreases list@.len() - i,
    {
        if same(list[i].as_str(), word) {
            assert(texts(list@)[i as int] == word@);
            return true;
        }
        assert(texts(list@)[i as int] == list@[i as int]@);
        i += 1;
    }
    false
}

// ----- columns and pages ------------------------------------------------------------

pub open spec fn spaces(n: nat) -> Seq<char> {
    Seq::new(n, |i: int| ' ')
}

/// Filled with spaces on the right up to `width` characters; longer text is left as it is.
pub open spec fn padded(s: Seq<char>, width: nat) -> Seq<char> {
    if s.len() < width {
        s + spaces((width - s.len()) as nat)
    } else {
        s
    }
}

pub fn pad(s: &str, width: usize) -> (r: String)
    ensures
        r@ == padded(s@, width as nat),
{
    let mut out = s.to_owned();
    let mut n: usize = s.unicode_len();
    assert(s@ + spaces(0) =~= s@);
    while n < width
        invariant
            n >= s@.len(),
            n > s@.len() ==> n <= width,
            out@ == s@ + spaces((n - s@.len()) as nat),
        decreases width - n,
    {
        out.push(' ');
        n += 1;
        assert(s@ + spaces((n - s@.len()) as nat) =~= (s@ + spaces((n - 1 - s@.len()) as nat)).push(
            ' ',
        ));
    }
    out
}

/// The lines in order, each ended by a newline.
pub open spec fn page(lines: Seq<Seq<char>>) -> Seq<char>
    decreases lines.len(),
{
    if lines.len() == 0 {
        Seq::empty()
    } else {
        page(lines.drop_last()) + lines.last() + seq!['\n']
    }
}

pub fn to_page(lines: &Vec<String>) -> (r: String)
    ensures
        r@ == page(texts(lines@)),
{
    let mut out = String::new();
    let mut i: usize = 0;
    while i < lines.len()
        invariant
            i <= lines@.len(),
            out@ == page(texts(lines@.take(i as int))),
        decreases lines@.len() - i,
    {
        proof {
            let after = texts(lines@.take(i + 1));
            assert(after.drop_last() =~= texts(lines@.take(i as int)));
            assert(after.last() == lines@[i as int]@);
        }
        out.append(lines[i].as_str());
        let ghost said = out@;
        out.push('\n');
        assert(out@ =~= said + seq!['\n']);
        i += 1;
    }
    assert(lines@.take(lines@.len() as int) == lines@);
    out
}

// ----- splitting --------------------------------------------------------------------

/// The pieces between the separators, in order; text without one is its only piece.
pub open spec fn split(s: Seq<char>, separator: char) -> Seq<Seq<char>>
    decreases s.len(),
{
    if s.len() == 0 {
        seq![Seq::empty()]
    } else {
        let rest = split(s.drop_last(), separator);
        if s.last() == separator {
            rest.push(Seq::empty())
        } else {
            rest.drop_last().push(rest.last().push(s.last()))
        }
    }
}

pub proof fn lemma_split_is_not_empty(s: Seq<char>, separator: char)
    ensures
        split(s, separator).len() >= 1,
    decreases s.len(),
{
    if s.len() > 0 {
        lemma_split_is_not_empty(s.drop_last(), separator);
    }
}

pub fn pieces(s: &str, separator: char) -> (r: Vec<String>)
    ensures
        texts(r@) == split(s@, separator),
        r@.len() >= 1,
{
    let v = chars_of(s);
    let mut done: Vec<String> = Vec::new();
    let mut current = String::new();
    let mut i: usize = 0;
    proof {
        assert(texts(done@).push(current@) =~= split(v@.take(0), separator));
    }
    while i < v.len()
        invariant
            i <= v@.len(),
            texts(done@).push(current@) == split(v@.take(i as int), separator),
        decreases v@.len() - i,
    {
        let ghost before = texts(done@).push(current@);
        let ghost whole = v@.take(i + 1);
        proof {
            assert(whole.drop_last() =~= v@.take(i as int));
            assert(before.drop_last() =~= texts(done@));
        }
        if v[i] == separator {
            let ghost held = done@;
            done.push(current);
            current = String::new();
            proof {
                assert(texts(done@) =~= before);
                assert(current@ =~= Seq::<char>::empty());
            }
        } else {
            current.push(v[i]);
        }
        i += 1;
    }
    let ghost held = done@;
    let ghost last = current@;
    done.push(current);
    proof {
        assert(v@.take(v@.len() as int) =~= v@);
        assert(texts(done@) =~= texts(held).push(last));
    }
    done
}

/// The position of the first such character, or the length without one.
pub open spec fn first_at(s: Seq<char>, c: char) -> int
    decreases s.len(),
{
    if s.len() == 0 || s[0] == c {
        0
    } else {
        1 + first_at(s.skip(1), c)
    }
}

proof fn lemma_first_at(s: Seq<char>, c: char, at: int)
    requires
        0 <= at <= s.len(),
        forall|i: int| 0 <= i < at ==> #[trigger] s[i] != c,
        at < s.len() ==> s[at] == c,
    ensures
        first_at(s, c) == at,
    decreases s.len(),
{
    if at > 0 {
        assert(s[0] != c);
        assert forall|i: int| 0 <= i < at - 1 implies #[trigger] s.skip(1)[i] != c by {
            assert(s.skip(1)[i] == s[i + 1]);
        }
        lemma_first_at(s.skip(1), c, at - 1);
    }
}

/// What stands before and after the first such character, where there is one.
pub open spec fn cut(s: Seq<char>, c: char) -> Option<(Seq<char>, Seq<char>)> {
    let at = first_at(s, c);
    if 0 <= at < s.len() {
        Some((s.take(at), s.skip(at + 1)))
    } else {
        None
    }
}

pub fn split_once(s: &str, c: char) -> (r: Option<(String, String)>)
    ensures
        match r {
            Some((before, after)) => cut(s@, c) == Some((before@, after@)),
            None => cut(s@, c) is None,
        },
{
    let v = chars_of(s);
    let mut i: usize = 0;
    while i < v.len() && v[i] != c
        invariant
            i <= v@.len(),
            forall|k: int| 0 <= k < i ==> #[trigger] v@[k] != c,
        decreases v@.len() - i,
    {
        i += 1;
    }
    proof {
        lemma_first_at(v@, c, i as int);
    }
    if i < v.len() {
        let before = slice_text(&v, 0, i);
        let after = slice_text(&v, i + 1, v.len());
        assert(before@ =~= s@.take(i as int));
        assert(after@ =~= s@.skip(i + 1));
        Some((before, after))
    } else {
        None
    }
}

/// The text with every `from` replaced by `to`.
pub open spec fn replaced(s: Seq<char>, from: char, to: char) -> Seq<char> {
    s.map_values(|c: char| if c == from { to } else { c })
}

pub fn replace(s: &str, from: char, to: char) -> (r: String)
    ensures
        r@ == replaced(s@, from, to),
{
    let v = chars_of(s);
    let mut out = String::new();
    let mut i: usize = 0;
    while i < v.len()
        invariant
            i <= v@.len(),
            out@ == replaced(v@.take(i as int), from, to),
        decreases v@.len() - i,
    {
        let c = v[i];
        out.push(
            if c == from {
                to
            } else {
                c
            },
        );
        i += 1;
        assert(out@ =~= replaced(v@.take(i as int), from, to));
    }
    assert(v@.take(v@.len() as int) == v@);
    out
}

// ----- what may reach a terminal ----------------------------------------------------

pub open spec fn plain_char(c: char) -> char {
    if is_control(c) {
        ' '
    } else {
        c
    }
}

/// The same text with every control character replaced by a space.
pub open spec fn plain_text(s: Seq<char>) -> Seq<char> {
    s.map_values(|c: char| plain_char(c))
}

pub fn plain(s: &str) -> (r: String)
    ensures
        r@ == plain_text(s@),
{
    let v = chars_of(s);
    let mut out = String::new();
    let mut i: usize = 0;
    while i < v.len()
        invariant
            i <= v@.len(),
            out@ == plain_text(v@.take(i as int)),
        decreases v@.len() - i,
    {
        let c = v[i];
        out.push(
            if control(c) {
                ' '
            } else {
                c
            },
        );
        i += 1;
        assert(plain_text(v@.take(i as int)) =~= plain_text(v@.take(i - 1)).push(plain_char(c)));
    }
    assert(v@.take(v@.len() as int) == v@);
    out
}

/// Plain text keeps its length and holds no control character.
pub proof fn lemma_plain_has_no_control(s: Seq<char>)
    ensures
        plain_text(s).len() == s.len(),
        forall|i: int| 0 <= i < s.len() ==> !is_control(#[trigger] plain_text(s)[i]),
{
}

proof fn lemma_trimmed_start(s: Seq<char>) -> (from: int)
    ensures
        0 <= from <= s.len(),
        trimmed_start(s) == s.skip(from),
        forall|i: int| 0 <= i < from ==> is_space(#[trigger] s[i]),
        from < s.len() ==> !is_space(s[from]),
    decreases s.len(),
{
    if s.len() > 0 && is_space(s[0]) {
        let rest = s.skip(1);
        let from = lemma_trimmed_start(rest);
        assert(rest.skip(from) =~= s.skip(from + 1));
        assert forall|i: int| 0 <= i < from + 1 implies is_space(#[trigger] s[i]) by {
            if i > 0 {
                assert(rest[i - 1] == s[i]);
            }
        }
        from + 1
    } else {
        assert(s.skip(0) =~= s);
        0
    }
}

proof fn lemma_trimmed_end(s: Seq<char>) -> (to: int)
    ensures
        0 <= to <= s.len(),
        trimmed_end(s) == s.take(to),
        forall|i: int| to <= i < s.len() ==> is_space(#[trigger] s[i]),
        to > 0 ==> !is_space(s[to - 1]),
    decreases s.len(),
{
    if s.len() > 0 && is_space(s.last()) {
        let rest = s.drop_last();
        let to = lemma_trimmed_end(rest);
        assert(rest.take(to) =~= s.take(to));
        assert forall|i: int| to <= i < s.len() implies is_space(#[trigger] s[i]) by {
            if i < rest.len() {
                assert(rest[i] == s[i]);
            }
        }
        to
    } else {
        assert(s.take(s.len() as int) =~= s);
        s.len() as int
    }
}

/// Trimming takes white space off both ends, all of it, and nothing else.
pub proof fn lemma_trimming_takes_only_white_space(s: Seq<char>) -> (r: (int, int))
    ensures
        0 <= r.0 <= r.1 <= s.len(),
        trimmed(s) == s.subrange(r.0, r.1),
        forall|i: int| 0 <= i < r.0 || r.1 <= i < s.len() ==> is_space(#[trigger] s[i]),
        trimmed(s).len() > 0 ==> !is_space(trimmed(s)[0]) && !is_space(trimmed(s).last()),
        trimmed(trimmed(s)) == trimmed(s),
{
    let from = lemma_trimmed_start(s);
    let mid = s.skip(from);
    let to = lemma_trimmed_end(mid);
    let t = trimmed(s);
    assert(t =~= s.subrange(from, from + to));
    assert forall|i: int| 0 <= i < from || from + to <= i < s.len() implies is_space(
        #[trigger] s[i],
    ) by {
        if i >= from {
            assert(mid[i - from] == s[i]);
        }
    }
    if t.len() > 0 {
        assert(t[0] == s[from]);
        assert(t.last() == mid[to - 1]);
        assert(trimmed_start(t) == t);
        assert(trimmed_end(t) == t);
    } else {
        assert(t =~= Seq::empty());
    }
    (from, from + to)
}

/// A text is cut at the first place that the character stands, and put together again it is whole.
pub proof fn lemma_a_cut_is_at_the_first_place(s: Seq<char>, c: char)
    ensures
        match cut(s, c) {
            Some((head, tail)) => s == head + seq![c] + tail && !head.contains(c),
            None => !s.contains(c),
        },
{
    let at = lemma_first_place(s, c);
    if at < s.len() {
        let (head, tail) = cut(s, c)->0;
        assert(s =~= head + seq![c] + tail);
        if head.contains(c) {
            let k = choose|k: int| 0 <= k < head.len() && head[k] == c;
            assert(s[k] == c);
        }
    } else if s.contains(c) {
        let k = choose|k: int| 0 <= k < s.len() && s[k] == c;
        assert(s[k] != c);
    }
}

proof fn lemma_first_place(s: Seq<char>, c: char) -> (at: int)
    ensures
        at == first_at(s, c),
        0 <= at <= s.len(),
        forall|i: int| 0 <= i < at ==> #[trigger] s[i] != c,
        at < s.len() ==> s[at] == c,
    decreases s.len(),
{
    if s.len() == 0 || s[0] == c {
        0
    } else {
        let rest = s.skip(1);
        let at = lemma_first_place(rest, c);
        assert forall|i: int| 0 <= i < at + 1 implies #[trigger] s[i] != c by {
            if i > 0 {
                assert(rest[i - 1] == s[i]);
            }
        }
        at + 1
    }
}

/// Padding adds blanks behind a text that is short, and nothing to one that is not.
pub proof fn lemma_padding_adds_blanks(s: Seq<char>, width: nat)
    ensures
        padded(s, width).take(s.len() as int) == s,
        s.len() >= width ==> padded(s, width) == s,
        s.len() < width ==> padded(s, width).len() == width,
        forall|i: int| s.len() <= i < padded(s, width).len() ==> #[trigger] padded(s, width)[i] == ' ',
{
    assert(padded(s, width).take(s.len() as int) =~= s);
    assert(s.len() >= width ==> padded(s, width) =~= s);
}

proof fn lemma_split_whole(b: Seq<char>, separator: char)
    requires
        !b.contains(separator),
    ensures
        split(b, separator) == seq![b],
    decreases b.len(),
{
    if b.len() > 0 {
        let rest = b.drop_last();
        assert forall|i: int| 0 <= i < rest.len() implies rest[i] != separator by {
            assert(b.contains(b[i]));
        }
        assert(b.contains(b.last())) by {
            assert(b[b.len() - 1] == b.last());
        }
        lemma_split_whole(rest, separator);
        assert(rest.push(b.last()) =~= b);
        assert(split(b, separator) =~= seq![b]);
    } else {
        assert(b =~= Seq::empty());
    }
}

proof fn lemma_split_behind(a: Seq<char>, b: Seq<char>, separator: char)
    requires
        !b.contains(separator),
    ensures
        split(a + seq![separator] + b, separator) == split(a, separator).push(b),
    decreases b.len(),
{
    let whole = a + seq![separator] + b;
    if b.len() > 0 {
        let rest = b.drop_last();
        assert forall|i: int| 0 <= i < rest.len() implies rest[i] != separator by {
            assert(b.contains(b[i]));
        }
        assert(b.contains(b.last())) by {
            assert(b[b.len() - 1] == b.last());
        }
        lemma_split_behind(a, rest, separator);
        assert(whole.drop_last() =~= a + seq![separator] + rest);
        assert(rest.push(b.last()) =~= b);
        assert(split(a, separator).push(rest).drop_last() =~= split(a, separator));
    } else {
        assert(whole.drop_last() =~= a);
        assert(b =~= Seq::empty());
    }
}

/// What is joined by a character comes apart at it again, where no part holds it.
pub proof fn lemma_what_is_joined_comes_apart(parts: Seq<Seq<char>>, separator: char)
    requires
        parts.len() > 0,
        forall|i: int| 0 <= i < parts.len() ==> !(#[trigger] parts[i]).contains(separator),
    ensures
        split(joined(parts, seq![separator]), separator) == parts,
    decreases parts.len(),
{
    if parts.len() == 1 {
        lemma_split_whole(parts[0], separator);
        assert(parts =~= seq![parts[0]]);
    } else {
        let rest = parts.drop_last();
        assert forall|i: int| 0 <= i < rest.len() implies !(#[trigger] rest[i]).contains(
            separator,
        ) by {
            assert(rest[i] == parts[i]);
        }
        lemma_what_is_joined_comes_apart(rest, separator);
        assert(parts[parts.len() - 1] == parts.last());
        lemma_split_behind(joined(rest, seq![separator]), parts.last(), separator);
        assert(parts =~= rest.push(parts.last()));
    }
}

} // verus!
