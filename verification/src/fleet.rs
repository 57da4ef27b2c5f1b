//! Machines and addresses: which names a command line may carry, and how a string that some
//! other machine chose is made safe to draw.

use vstd::prelude::*;

use crate::text::{
    ascii_alnum, ascii_digit, chars_of, control, decimal, is_ascii_alnum, is_ascii_digit,
    is_control, is_space, lower, lowered, number, pieces, plain_char, same, slice_text, space,
    split, texts, trim, trimmed,
};

verus! {

// ----- machine names ----------------------------------------------------------------

pub const MACHINE_LIMIT: usize = 40;

pub open spec fn machine_char(c: char) -> bool {
    is_ascii_alnum(c) || c == '-'
}

/// One to forty ASCII letters, digits and hyphens, with a letter or digit at both ends.
pub open spec fn is_machine(s: Seq<char>) -> bool {
    &&& 1 <= s.len() <= MACHINE_LIMIT
    &&& forall|i: int| 0 <= i < s.len() ==> machine_char(#[trigger] s[i])
    &&& is_ascii_alnum(s[0])
    &&& is_ascii_alnum(s.last())
}

pub fn validate_machine(name: &str) -> (r: bool)
    ensures
        r == is_machine(name@),
{
    let v = chars_of(name);
    if v.len() == 0 || v.len() > MACHINE_LIMIT {
        return false;
    }
    let mut i: usize = 0;
    while i < v.len()
        invariant
            i <= v@.len(),
            v@ == name@,
            forall|k: int| 0 <= k < i ==> machine_char(#[trigger] v@[k]),
        decreases v@.len() - i,
    {
        if !ascii_alnum(v[i]) && v[i] != '-' {
            assert(!machine_char(v@[i as int]));
            return false;
        }
        i += 1;
    }
    ascii_alnum(v[0]) && ascii_alnum(v[v.len() - 1])
}

/// A machine name as an argument of a printed command, or `None` for anything that is not one.
///
/// The argument is validated and never repaired: inside a command line a space is a second
/// argument, and a name the parser would refuse says the command is broken.
pub open spec fn machine_argument_of(raw: Seq<char>) -> Option<Seq<char>> {
    if is_machine(trimmed(raw)) {
        Some(trimmed(raw))
    } else {
        None
    }
}

pub fn machine_argument(raw: &str) -> (r: Option<String>)
    ensures
        match r {
            Some(name) => machine_argument_of(raw@) == Some(name@),
            None => machine_argument_of(raw@) is None,
        },
{
    let name = trim(raw);
    if validate_machine(name.as_str()) {
        Some(name)
    } else {
        None
    }
}

// ----- addresses --------------------------------------------------------------------

pub const HOST_LIMIT: usize = 253;

pub open spec fn all_digits(s: Seq<char>) -> bool {
    forall|i: int| 0 <= i < s.len() ==> is_ascii_digit(#[trigger] s[i])
}

/// A label of a host name: letters, digits and hyphens, with a letter or digit at both ends.
pub open spec fn is_label(s: Seq<char>) -> bool {
    &&& s.len() > 0
    &&& forall|i: int| 0 <= i < s.len() ==> machine_char(#[trigger] s[i])
    &&& is_ascii_alnum(s[0])
    &&& is_ascii_alnum(s.last())
}

/// A number below 256 written without leading zeros.
pub open spec fn octet(s: Seq<char>) -> Option<nat> {
    if exists|n: nat| n < 256 && decimal(n) == s {
        Some(choose|n: nat| n < 256 && decimal(n) == s)
    } else {
        None
    }
}

/// The IPv4 blocks a fleet may use: the three private ones and the shared one.
pub open spec fn private_block(first: nat, second: nat) -> bool {
    ||| first == 10
    ||| first == 172 && 16 <= second <= 31
    ||| first == 192 && second == 168
    ||| first == 100 && 64 <= second <= 127
}

/// Four octets, the first two of which name a block a fleet may use.
pub open spec fn is_private_ipv4(labels: Seq<Seq<char>>) -> bool {
    &&& labels.len() == 4
    &&& octet(labels[0]) is Some
    &&& octet(labels[1]) is Some
    &&& octet(labels[2]) is Some
    &&& octet(labels[3]) is Some
    &&& private_block(octet(labels[0])->0, octet(labels[1])->0)
}

/// A host a fleet can be told to reach: a DNS name, or a private IPv4 address. A name whose
/// last label is all digits is an address or nothing.
pub open spec fn is_host(s: Seq<char>) -> bool {
    let labels = split(s, '.');
    &&& s.len() <= HOST_LIMIT
    &&& forall|i: int| 0 <= i < labels.len() ==> is_label(#[trigger] labels[i])
    &&& all_digits(labels.last()) ==> is_private_ipv4(labels)
}

/// Lower case, without white space around it and without the root dot.
pub open spec fn folded_host(raw: Seq<char>) -> Seq<char> {
    let s = lowered(trimmed(raw));
    if s.len() > 0 && s.last() == '.' {
        s.drop_last()
    } else {
        s
    }
}

/// The one spelling of a host, or `None` for anything that is not one.
pub open spec fn canonical_host_of(raw: Seq<char>) -> Option<Seq<char>> {
    if is_host(folded_host(raw)) {
        Some(folded_host(raw))
    } else {
        None
    }
}

fn label_ok(label: &str) -> (r: bool)
    ensures
        r == is_label(label@),
{
    let v = chars_of(label);
    if v.len() == 0 {
        return false;
    }
    let mut i: usize = 0;
    while i < v.len()
        invariant
            i <= v@.len(),
            v@ == label@,
            forall|k: int| 0 <= k < i ==> machine_char(#[trigger] v@[k]),
        decreases v@.len() - i,
    {
        if !ascii_alnum(v[i]) && v[i] != '-' {
            assert(!machine_char(v@[i as int]));
            return false;
        }
        i += 1;
    }
    ascii_alnum(v[0]) && ascii_alnum(v[v.len() - 1])
}

fn digits_only(label: &str) -> (r: bool)
    ensures
        r == all_digits(label@),
{
    let v = chars_of(label);
    let mut i: usize = 0;
    while i < v.len()
        invariant
            i <= v@.len(),
            v@ == label@,
            forall|k: int| 0 <= k < i ==> is_ascii_digit(#[trigger] v@[k]),
        decreases v@.len() - i,
    {
        if !ascii_digit(v[i]) {
            assert(!is_ascii_digit(v@[i as int]));
            return false;
        }
        i += 1;
    }
    true
}

proof fn lemma_decimal_injective(a: nat, b: nat)
    requires
        decimal(a) == decimal(b),
    ensures
        a == b,
    decreases a,
{
    lemma_decimal_len(a);
    lemma_decimal_len(b);
    if a < 10 && b < 10 {
        assert(decimal(a)[0] == crate::text::digit(a));
        assert(decimal(b)[0] == crate::text::digit(b));
        assert(crate::text::digit(a) as nat == 48 + a);
        assert(crate::text::digit(b) as nat == 48 + b);
    } else if a >= 10 && b >= 10 {
        assert(decimal(a).drop_last() =~= decimal(a / 10));
        assert(decimal(b).drop_last() =~= decimal(b / 10));
        assert(decimal(a).last() == crate::text::digit(a % 10));
        assert(decimal(b).last() == crate::text::digit(b % 10));
        lemma_decimal_injective(a / 10, b / 10);
        assert(crate::text::digit(a % 10) as nat == 48 + a % 10);
        assert(crate::text::digit(b % 10) as nat == 48 + b % 10);
    }
}

proof fn lemma_decimal_len(n: nat)
    ensures
        decimal(n).len() >= 1,
        n < 10 ==> decimal(n).len() == 1,
        n >= 10 ==> decimal(n).len() >= 2,
    decreases n,
{
    if n >= 10 {
        lemma_decimal_len(n / 10);
    }
}

fn read_octet(label: &str) -> (r: Option<u64>)
    ensures
        match r {
            Some(n) => octet(label@) == Some(n as nat),
            None => octet(label@) is None,
        },
{
    let mut n: u64 = 0;
    while n < 256
        invariant
            n <= 256,
            forall|k: nat| k < n ==> #[trigger] decimal(k) != label@,
        decreases 256 - n,
    {
        if same(number(n).as_str(), label) {
            proof {
                assert(decimal(n as nat) == label@);
                let chosen = octet(label@)->0;
                lemma_decimal_injective(chosen, n as nat);
            }
            return Some(n);
        }
        n += 1;
    }
    None
}

fn private_ipv4(labels: &Vec<String>) -> (r: bool)
    ensures
        r == is_private_ipv4(texts(labels@)),
{
    if labels.len() != 4 {
        return false;
    }
    match (
        read_octet(labels[0].as_str()),
        read_octet(labels[1].as_str()),
        read_octet(labels[2].as_str()),
        read_octet(labels[3].as_str()),
    ) {
        (Some(a), Some(b), Some(_), Some(_)) => a == 10 || (a == 172 && 16 <= b && b <= 31) || (a
            == 192 && b == 168) || (a == 100 && 64 <= b && b <= 127),
        _ => false,
    }
}

pub fn canonical_host(raw: &str) -> (r: Option<String>)
    ensures
        match r {
            Some(host) => canonical_host_of(raw@) == Some(host@),
            None => canonical_host_of(raw@) is None,
        },
{
    let low = lower(trim(raw).as_str());
    let v = chars_of(low.as_str());
    let end: usize = if v.len() > 0 && v[v.len() - 1] == '.' {
        v.len() - 1
    } else {
        v.len()
    };
    let host = slice_text(&v, 0, end);
    assert(host@ =~= folded_host(raw@));
    if end > HOST_LIMIT {
        return None;
    }
    let labels = pieces(host.as_str(), '.');
    let mut i: usize = 0;
    while i < labels.len()
        invariant
            i <= labels@.len(),
            texts(labels@) == split(host@, '.'),
            host@ == folded_host(raw@),
            forall|k: int| 0 <= k < i ==> is_label(#[trigger] texts(labels@)[k]),
        decreases labels@.len() - i,
    {
        if !label_ok(labels[i].as_str()) {
            assert(!is_label(texts(labels@)[i as int]));
            return None;
        }
        i += 1;
    }
    if digits_only(labels[labels.len() - 1].as_str()) && !private_ipv4(&labels) {
        None
    } else {
        Some(host)
    }
}

proof fn lemma_split_chars(s: Seq<char>)
    requires
        forall|k: int, j: int|
            0 <= k < split(s, '.').len() && 0 <= j < split(s, '.')[k].len() ==> machine_char(
                #[trigger] split(s, '.')[k][j],
            ),
    ensures
        forall|i: int| 0 <= i < s.len() ==> s[i] == '.' || machine_char(#[trigger] s[i]),
    decreases s.len(),
{
    if s.len() > 0 {
        crate::text::lemma_split_is_not_empty(s.drop_last(), '.');
        let labels = split(s, '.');
        let rest = split(s.drop_last(), '.');
        assert forall|k: int, j: int| 0 <= k < rest.len() && 0 <= j < rest[k].len() implies machine_char(
            #[trigger] rest[k][j],
        ) by {
            assert(labels[k][j] == rest[k][j]);
        }
        lemma_split_chars(s.drop_last());
        assert forall|i: int| 0 <= i < s.len() implies s[i] == '.' || machine_char(
            #[trigger] s[i],
        ) by {
            if i < s.len() - 1 {
                assert(s.drop_last()[i] == s[i]);
            } else if s[i] != '.' {
                let k = rest.len() - 1;
                assert(labels[k] == rest[k].push(s[i]));
                assert(machine_char(labels[k][rest[k].len() as int]));
            }
        }
    }
}

/// What a host is made of: it is not empty, and every character is a letter, a digit, a hyphen
/// or a dot that stands between two labels.
pub proof fn lemma_host_characters(s: Seq<char>)
    requires
        is_host(s),
    ensures
        s.len() > 0,
        s.last() != '.',
        forall|i: int| 0 <= i < s.len() ==> s[i] == '.' || machine_char(#[trigger] s[i]),
{
    let labels = split(s, '.');
    crate::text::lemma_split_is_not_empty(s, '.');
    assert(is_label(labels[labels.len() - 1]));
    lemma_split_chars(s);
}

/// A canonical host is its own canonical spelling.
pub proof fn lemma_canonical_host_is_idempotent(raw: Seq<char>)
    requires
        canonical_host_of(raw) is Some,
    ensures
        canonical_host_of(canonical_host_of(raw)->0) == canonical_host_of(raw),
{
    let s = canonical_host_of(raw)->0;
    lemma_host_characters(s);
    assert(trimmed(s) == s) by {
        assert(s[0] == '.' || machine_char(s[0]));
        assert(s[s.len() - 1] == '.' || machine_char(s[s.len() - 1]));
    }
    let low = lowered(trimmed(raw));
    assert(lowered(s) =~= s) by {
        assert forall|i: int| 0 <= i < s.len() implies crate::text::lower_char(#[trigger] s[i])
            == s[i] by {
            assert(s[i] == low[i]);
            lemma_lower_is_idempotent(trimmed(raw)[i]);
        }
    }
}

proof fn lemma_lower_is_idempotent(c: char)
    ensures
        crate::text::lower_char(crate::text::lower_char(c)) == crate::text::lower_char(c),
{
    if crate::text::is_ascii_upper(c) {
        let low = crate::text::lower_char(c);
        assert(low as u32 == c as u32 + 32);
    }
}

// ----- what is drawn ----------------------------------------------------------------

/// The Unicode property `Default_Ignorable_Code_Point`: what a person cannot see.
pub open spec fn is_ignorable(c: char) -> bool {
    ||| c == '\u{ad}'
    ||| c == '\u{34f}'
    ||| c == '\u{61c}'
    ||| '\u{115f}' <= c <= '\u{1160}'
    ||| '\u{17b4}' <= c <= '\u{17b5}'
    ||| '\u{180b}' <= c <= '\u{180f}'
    ||| '\u{200b}' <= c <= '\u{200f}'
    ||| '\u{202a}' <= c <= '\u{202e}'
    ||| '\u{2060}' <= c <= '\u{206f}'
    ||| c == '\u{3164}'
    ||| '\u{fe00}' <= c <= '\u{fe0f}'
    ||| c == '\u{feff}'
    ||| c == '\u{ffa0}'
    ||| '\u{fff0}' <= c <= '\u{fff8}'
    ||| '\u{1bca0}' <= c <= '\u{1bca3}'
    ||| '\u{1d173}' <= c <= '\u{1d17a}'
    ||| '\u{e0000}' <= c <= '\u{e0fff}'
}

fn ignorable(c: char) -> (r: bool)
    ensures
        r == is_ignorable(c),
{
    c == '\u{ad}' || c == '\u{34f}' || c == '\u{61c}' || ('\u{115f}' <= c && c <= '\u{1160}') || (
    '\u{17b4}' <= c && c <= '\u{17b5}') || ('\u{180b}' <= c && c <= '\u{180f}') || ('\u{200b}' <= c
        && c <= '\u{200f}') || ('\u{202a}' <= c && c <= '\u{202e}') || ('\u{2060}' <= c && c
        <= '\u{206f}') || c == '\u{3164}' || ('\u{fe00}' <= c && c <= '\u{fe0f}') || c
        == '\u{feff}' || c == '\u{ffa0}' || ('\u{fff0}' <= c && c <= '\u{fff8}') || ('\u{1bca0}'
        <= c && c <= '\u{1bca3}') || ('\u{1d173}' <= c && c <= '\u{1d17a}') || ('\u{e0000}' <= c
        && c <= '\u{e0fff}')
}

/// Without what a person cannot see, and with a space for each control character.
pub open spec fn visible(s: Seq<char>) -> Seq<char>
    decreases s.len(),
{
    if s.len() == 0 {
        s
    } else if is_ignorable(s.last()) {
        visible(s.drop_last())
    } else {
        visible(s.drop_last()).push(plain_char(s.last()))
    }
}

/// Every run of white space as one space, and none at either end.
pub open spec fn squeezed(s: Seq<char>) -> Seq<char>
    decreases s.len(),
{
    if s.len() == 0 {
        s
    } else {
        let rest = squeezed(s.drop_last());
        let c = s.last();
        if is_space(c) {
            rest
        } else if rest.len() > 0 && is_space(s[s.len() - 2]) {
            rest.push(' ').push(c)
        } else {
            rest.push(c)
        }
    }
}

/// The text is printable ASCII and nothing else.
pub open spec fn is_printable(s: Seq<char>) -> bool {
    forall|i: int| 0 <= i < s.len() ==> ' ' <= #[trigger] s[i] <= '~'
}

/// Words of printable ASCII with one space between them.
pub open spec fn is_tidy(s: Seq<char>) -> bool {
    &&& is_printable(s)
    &&& s.len() > 0 ==> s[0] != ' ' && s.last() != ' '
    &&& forall|i: int, j: int|
        0 <= i && j == i + 1 && j < s.len() ==> #[trigger] s[i] != ' ' || #[trigger] s[j] != ' '
}

proof fn lemma_printable_is_visible(s: Seq<char>)
    requires
        is_printable(s),
    ensures
        visible(s) == s,
    decreases s.len(),
{
    if s.len() > 0 {
        lemma_printable_is_visible(s.drop_last());
        assert(' ' <= s[s.len() - 1] <= '~');
        assert(s =~= s.drop_last().push(s.last()));
    }
}

proof fn lemma_tidy_is_squeezed(s: Seq<char>)
    requires
        is_printable(s),
        s.len() > 0 ==> s[0] != ' ',
        forall|i: int, j: int|
            0 <= i && j == i + 1 && j < s.len() ==> #[trigger] s[i] != ' ' || #[trigger] s[j]
                != ' ',
    ensures
        squeezed(s) == if s.len() > 0 && s.last() == ' ' {
            s.drop_last()
        } else {
            s
        },
    decreases s.len(),
{
    if s.len() > 0 {
        let rest = s.drop_last();
        assert forall|i: int, j: int| 0 <= i && j == i + 1 && j < rest.len() implies #[trigger] rest[i]
            != ' ' || #[trigger] rest[j] != ' ' by {
            assert(s[i] != ' ' || s[j] != ' ');
        }
        lemma_tidy_is_squeezed(rest);
        let c = s[s.len() - 1];
        assert(' ' <= c <= '~');
        assert(is_space(c) == (c == ' '));
        if s.len() > 1 {
            let before = s[s.len() - 2];
            assert(before == rest.last());
            assert(' ' <= before <= '~');
            assert(is_space(before) == (before == ' '));
            assert(s[s.len() - 2] != ' ' || s[s.len() - 1] != ' ');
            if before == ' ' {
                assert(s.len() > 2);
                assert(s =~= rest.drop_last().push(' ').push(c));
            } else {
                assert(s =~= rest.push(c));
            }
        } else {
            assert(s =~= rest.push(c));
        }
    }
}

/// How many columns a terminal gives a piece of text, by `unicode-width`.
pub uninterp spec fn display_width(s: Seq<char>) -> nat;

/// Calls `UnicodeWidthStr::width`, whose result depends on the text alone and is named by
/// `display_width`. It folds over the characters from the last to the first, and carries
/// nothing out of a space or an ellipsis: no text is no column, and either of the two at the
/// end adds one column to what stands before it. A printable ASCII character is one column and
/// changes no neighbour, so text of nothing else is as wide as it is long.
#[verifier::external_body]
pub(crate) fn columns_of(s: &str) -> (r: usize)
    ensures
        r == display_width(s@),
        s@.len() == 0 ==> r == 0,
        s@.len() > 0 && (s@.last() == ' ' || s@.last() == '\u{2026}') ==> r == display_width(
            s@.drop_last(),
        ) + 1,
        is_printable(s@) ==> r == s@.len(),
{
    unicode_width::UnicodeWidthStr::width(s)
}

/// How many characters fit below `columns`, grown one character at a time.
pub open spec fn fitting(s: Seq<char>, n: nat, columns: nat) -> nat
    decreases s.len() - n,
{
    if n < s.len() && display_width(s.take((n + 1) as int)) < columns {
        fitting(s, n + 1, columns)
    } else {
        n
    }
}

/// One string that some other machine chose, made safe to draw and bounded to `columns`.
///
/// One column is kept back for the mark of a cut, so that a value that was cut and a value that
/// was not can never be the same cell.
pub open spec fn drawn(raw: Seq<char>, columns: nat) -> Seq<char> {
    let s = squeezed(visible(raw));
    if display_width(s) < columns {
        s
    } else {
        s.take(fitting(s, 0, columns) as int).push('\u{2026}')
    }
}

fn make_visible(raw: &Vec<char>) -> (r: Vec<char>)
    ensures
        r@ == visible(raw@),
{
    let mut out: Vec<char> = Vec::new();
    let mut i: usize = 0;
    while i < raw.len()
        invariant
            i <= raw@.len(),
            out@ == visible(raw@.take(i as int)),
        decreases raw@.len() - i,
    {
        let c = raw[i];
        assert(raw@.take(i + 1).drop_last() =~= raw@.take(i as int));
        if !ignorable(c) {
            out.push(
                if control(c) {
                    ' '
                } else {
                    c
                },
            );
        }
        i += 1;
    }
    assert(raw@.take(i as int) =~= raw@);
    out
}

fn squeeze(s: &Vec<char>) -> (r: Vec<char>)
    ensures
        r@ == squeezed(s@),
{
    let mut out: Vec<char> = Vec::new();
    let mut i: usize = 0;
    while i < s.len()
        invariant
            i <= s@.len(),
            out@ == squeezed(s@.take(i as int)),
        decreases s@.len() - i,
    {
        let c = s[i];
        assert(s@.take(i + 1).drop_last() =~= s@.take(i as int));
        assert(i > 0 ==> s@.take(i + 1)[i - 1] == s@[i - 1]);
        if !space(c) {
            proof {
                if i == 0 {
                    assert(squeezed(s@.take(0)).len() == 0);
                }
            }
            if out.len() > 0 && space(s[i - 1]) {
                out.push(' ');
            }
            out.push(c);
        }
        i += 1;
    }
    assert(s@.take(i as int) =~= s@);
    out
}

/// The funnel every remote string goes through on its way to the screen.
pub fn scrub(raw: &str, columns: usize) -> (r: String)
    ensures
        r@ == drawn(raw@, columns as nat),
        columns > 0 ==> display_width(r@) <= columns,
        is_tidy(raw@) && raw@.len() < columns ==> r@ == raw@,
{
    proof {
        if is_tidy(raw@) {
            lemma_printable_is_visible(raw@);
            lemma_tidy_is_squeezed(raw@);
        }
    }
    let s = squeeze(&make_visible(&chars_of(raw)));
    let whole = crate::text::text_of(&s);
    if columns_of(whole.as_str()) < columns {
        return whole;
    }
    let mut kept = String::new();
    let mut n: usize = 0;
    let start: usize = columns_of(kept.as_str());
    proof {
        assert(s@.take(0) =~= kept@);
    }
    while n < s.len()
        invariant_except_break
            fitting(s@, n as nat, columns as nat) == fitting(s@, 0, columns as nat),
        invariant
            n <= s@.len(),
            kept@ == s@.take(n as int),
            columns > 0 ==> display_width(kept@) < columns,
        ensures
            n == fitting(s@, 0, columns as nat),
        decreases s@.len() - n,
    {
        let mut longer = kept.clone();
        longer.push(s[n]);
        assert(longer@ =~= s@.take(n + 1));
        if columns_of(longer.as_str()) >= columns {
            break;
        }
        kept = longer;
        n += 1;
    }
    kept.push('\u{2026}');
    let end: usize = columns_of(kept.as_str());
    proof {
        assert(kept@.drop_last() =~= s@.take(n as int));
    }
    kept
}

/// Fills text with spaces up to `columns` display columns.
pub open spec fn filled(s: Seq<char>, columns: nat) -> Seq<char> {
    let width = display_width(s);
    if width < columns {
        s + crate::text::spaces((columns - width) as nat)
    } else {
        s
    }
}

pub(crate) fn fill(s: &str, columns: usize) -> (r: String)
    ensures
        r@ == filled(s@, columns as nat),
        display_width(s@) <= columns ==> display_width(r@) == columns,
{
    let mut out = s.to_owned();
    let width: usize = columns_of(s);
    let mut n: usize = width;
    assert(s@ + crate::text::spaces(0) =~= s@);
    while n < columns
        invariant
            width == display_width(s@),
            width <= n,
            n > width ==> n <= columns,
            display_width(out@) == n,
            out@ == s@ + crate::text::spaces((n - width) as nat),
        decreases columns - n,
    {
        let ghost before = out@;
        out.push(' ');
        n += 1;
        let now: usize = columns_of(out.as_str());
        proof {
            assert(out@.drop_last() =~= before);
            assert(out@ =~= s@ + crate::text::spaces((n - width) as nat));
        }
    }
    out
}

/// One cell of a list, bounded to its width and filled out to two columns past it.
pub open spec fn cell(value: Seq<char>, columns: nat) -> Seq<char> {
    filled(drawn(value, columns), columns + 2)
}

/// The cell ends at the same column whatever the value is.
pub fn column(value: &str, columns: usize) -> (r: String)
    requires
        columns + 2 <= usize::MAX,
    ensures
        r@ == cell(value@, columns as nat),
        columns > 0 ==> display_width(r@) == columns + 2,
{
    fill(scrub(value, columns).as_str(), columns + 2)
}

proof fn lemma_visible_has_no_control(s: Seq<char>)
    ensures
        forall|i: int| 0 <= i < visible(s).len() ==> !is_control(#[trigger] visible(s)[i]),
        forall|i: int| 0 <= i < visible(s).len() ==> !is_ignorable(#[trigger] visible(s)[i]),
    decreases s.len(),
{
    if s.len() > 0 {
        let rest = visible(s.drop_last());
        lemma_visible_has_no_control(s.drop_last());
        assert forall|i: int| 0 <= i < visible(s).len() implies !is_control(
            #[trigger] visible(s)[i],
        ) && !is_ignorable(visible(s)[i]) by {
            if i < rest.len() {
                assert(visible(s)[i] == rest[i]);
            }
        }
    }
}

proof fn lemma_squeezed_keeps_clean(s: Seq<char>)
    requires
        forall|i: int| 0 <= i < s.len() ==> !is_control(#[trigger] s[i]),
        forall|i: int| 0 <= i < s.len() ==> !is_ignorable(#[trigger] s[i]),
    ensures
        forall|i: int| 0 <= i < squeezed(s).len() ==> !is_control(#[trigger] squeezed(s)[i]),
        forall|i: int| 0 <= i < squeezed(s).len() ==> !is_ignorable(#[trigger] squeezed(s)[i]),
        forall|i: int|
            0 <= i < squeezed(s).len() && is_space(#[trigger] squeezed(s)[i]) ==> squeezed(s)[i]
                == ' ' && 0 < i < squeezed(s).len() - 1 && !is_space(squeezed(s)[i - 1]),
        s.len() > 0 && squeezed(s).len() > 0 ==> !is_space(squeezed(s).last()),
    decreases s.len(),
{
    if s.len() > 0 {
        lemma_squeezed_keeps_clean(s.drop_last());
        let rest = squeezed(s.drop_last());
        if s.len() == 1 {
            assert(rest.len() == 0);
        }
    }
}

/// What is drawn holds no control character and nothing invisible, and white space only as
/// single spaces between two other characters.
pub proof fn lemma_drawn_is_clean(raw: Seq<char>, columns: nat)
    ensures
        forall|i: int|
            0 <= i < drawn(raw, columns).len() ==> !is_control(#[trigger] drawn(raw, columns)[i]),
        forall|i: int|
            0 <= i < drawn(raw, columns).len() ==> !is_ignorable(#[trigger] drawn(raw, columns)[i]),
        forall|i: int|
            0 <= i < drawn(raw, columns).len() && is_space(#[trigger] drawn(raw, columns)[i])
                ==> drawn(raw, columns)[i] == ' ' && 0 < i < drawn(raw, columns).len() - 1
                && !is_space(drawn(raw, columns)[i - 1]),
{
    let s = squeezed(visible(raw));
    lemma_visible_has_no_control(raw);
    lemma_squeezed_keeps_clean(visible(raw));
    lemma_fitting_bounds(s, 0, columns);
    let n = fitting(s, 0, columns) as int;
    if display_width(s) >= columns {
        let d = drawn(raw, columns);
        assert(d.len() == n + 1);
        assert forall|i: int| 0 <= i < n implies d[i] == s[i] by {}
    }
}

proof fn lemma_fitting_bounds(s: Seq<char>, n: nat, columns: nat)
    requires
        n <= s.len(),
    ensures
        n <= fitting(s, n, columns) <= s.len(),
    decreases s.len() - n,
{
    if n < s.len() && display_width(s.take((n + 1) as int)) < columns {
        lemma_fitting_bounds(s, n + 1, columns);
    }
}

proof fn lemma_octet(n: nat)
    requires
        n < 256,
    ensures
        octet(decimal(n)) == Some(n),
{
    let s = decimal(n);
    assert(exists|m: nat| m < 256 && decimal(m) == s);
    let chosen = choose|m: nat| m < 256 && decimal(m) == s;
    lemma_decimal_injective(chosen, n);
}

/// The addresses a fleet may use are those of the private blocks and of the shared one, whatever
/// their last two numbers.
pub proof fn lemma_which_addresses_a_fleet_may_use(a: nat, b: nat, c: nat, d: nat)
    requires
        a < 256,
        b < 256,
        c < 256,
        d < 256,
    ensures
        is_private_ipv4(seq![decimal(a), decimal(b), decimal(c), decimal(d)]) <==> {
            ||| a == 10
            ||| a == 172 && b / 16 == 1
            ||| a == 192 && b == 168
            ||| a == 100 && b / 64 == 1
        },
{
    lemma_octet(a);
    lemma_octet(b);
    lemma_octet(c);
    lemma_octet(d);
}

} // verus!
