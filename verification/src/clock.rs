//! Timestamps: reading one, and saying how long ago it was.

use vstd::prelude::*;

use crate::readings::{lemma_a_number_inside_reads_back, number_at};
use crate::text::{
    ascii_digit, cat3, chars_of, decimal, is_ascii_digit, is_space, number, trim, trimmed,
    trimmed_end, trimmed_start,
};

verus! {

pub open spec fn digit_value(c: char) -> int {
    c as int - '0' as int
}

pub open spec fn digits_value(s: Seq<char>) -> int
    decreases s.len(),
{
    if s.len() == 0 {
        0
    } else {
        10 * digits_value(s.drop_last()) + digit_value(s.last())
    }
}

pub open spec fn is_digits(s: Seq<char>) -> bool {
    s.len() > 0 && forall|i: int| 0 <= i < s.len() ==> is_ascii_digit(#[trigger] s[i])
}

/// A whole number: an optional sign and at least one digit.
pub open spec fn whole_number(s: Seq<char>) -> Option<int> {
    if s.len() > 0 && s[0] == '-' && is_digits(s.skip(1)) {
        Some(-digits_value(s.skip(1)))
    } else if s.len() > 0 && s[0] == '+' && is_digits(s.skip(1)) {
        Some(digits_value(s.skip(1)))
    } else if is_digits(s) {
        Some(digits_value(s))
    } else {
        None
    }
}

fn read_digits(v: &Vec<char>, from: usize, to: usize) -> (r: Option<i64>)
    requires
        from <= to <= v@.len(),
        to - from <= 4,
    ensures
        match r {
            Some(n) => is_digits(v@.subrange(from as int, to as int)) && n == digits_value(
                v@.subrange(from as int, to as int),
            ) && 0 <= n <= 9999,
            None => !is_digits(v@.subrange(from as int, to as int)),
        },
{
    let ghost whole = v@.subrange(from as int, to as int);
    if from == to {
        return None;
    }
    let mut n: i64 = 0;
    let mut i: usize = from;
    assert(whole.take(0).len() == 0);
    while i < to
        invariant
            from <= i <= to <= v@.len(),
            to - from <= 4,
            whole == v@.subrange(from as int, to as int),
            n == digits_value(whole.take(i - from)),
            forall|k: int| 0 <= k < i - from ==> is_ascii_digit(#[trigger] whole[k]),
            0 <= n,
            i - from == 0 ==> n == 0,
            i - from == 1 ==> n <= 9,
            i - from == 2 ==> n <= 99,
            i - from == 3 ==> n <= 999,
            i - from == 4 ==> n <= 9999,
        decreases to - i,
    {
        let c = v[i];
        assert(whole[i - from] == c);
        if !ascii_digit(c) {
            assert(!is_ascii_digit(whole[i - from]));
            return None;
        }
        assert(whole.take(i + 1 - from).drop_last() =~= whole.take(i - from));
        n = n * 10 + ((c as u32) - ('0' as u32)) as i64;
        i += 1;
    }
    assert(whole.take(to - from) =~= whole);
    Some(n)
}

/// Days from 1 January 1970 to a day of the proleptic Gregorian calendar. The year is counted
/// from March, which puts the leap day at its end.
pub open spec fn days_from_civil(year: int, month: int, day: int) -> int {
    let y = if month <= 2 {
        year - 1
    } else {
        year
    };
    let era = y / 400;
    let year_of_era = y - era * 400;
    let shifted = if month > 2 {
        month - 3
    } else {
        month + 9
    };
    let day_of_year = (153 * shifted + 2) / 5 + day - 1;
    let day_of_era = year_of_era * 365 + year_of_era / 4 - year_of_era / 100 + day_of_year;
    era * 146_097 + day_of_era - 719_468
}

pub open spec fn is_leap(year: int) -> bool {
    year % 4 == 0 && (year % 100 != 0 || year % 400 == 0)
}

pub open spec fn month_length(year: int, month: int) -> int {
    if month == 2 {
        if is_leap(year) {
            29
        } else {
            28
        }
    } else if month == 4 || month == 6 || month == 9 || month == 11 {
        30
    } else {
        31
    }
}

/// Days before the March that opens a year.
#[verifier::opaque]
spec fn year_start(y: int) -> int {
    let era = y / 400;
    let year_of_era = y - era * 400;
    era * 146_097 + year_of_era * 365 + year_of_era / 4 - year_of_era / 100 - 719_468
}

proof fn lemma_year_length(year: int)
    ensures
        year_start(year) - year_start(year - 1) == if is_leap(year) {
            366int
        } else {
            365int
        },
{
    reveal(year_start);
    let era = year / 400;
    let r = year - era * 400;
    assert(0 <= r < 400);
    assert(year % 400 == r);
    assert(year % 100 == r % 100) by {
        assert(year == 100 * (4 * era) + r);
    }
    assert(year % 4 == r % 4) by {
        assert(year == 4 * (100 * era) + r);
    }
    if r == 0 {
        assert((year - 1) / 400 == era - 1);
    } else {
        assert((year - 1) / 400 == era);
        if r % 100 == 0 {
            assert(r / 100 == (r - 1) / 100 + 1);
            assert(r % 4 == 0);
        } else {
            assert(r / 100 == (r - 1) / 100);
        }
        if r % 4 == 0 {
            assert(r / 4 == (r - 1) / 4 + 1);
        } else {
            assert(r / 4 == (r - 1) / 4);
        }
    }
}

/// The first of every month is the day after the last of the month before it, and the first of
/// every year the day after the last of December.
pub proof fn lemma_days_are_consecutive(year: int, month: int)
    requires
        1 <= month <= 12,
    ensures
        month < 12 ==> days_from_civil(year, month + 1, 1) == days_from_civil(
            year,
            month,
            month_length(year, month),
        ) + 1,
        month == 12 ==> days_from_civil(year + 1, 1, 1) == days_from_civil(year, 12, 31) + 1,
{
    reveal(year_start);
    if month == 2 {
        lemma_year_length(year);
        let feb = days_from_civil(year, 2, month_length(year, 2));
        assert(feb == year_start(year - 1) + (153 * 11 + 2) / 5 + month_length(year, 2) - 1);
        assert(days_from_civil(year, 3, 1) == year_start(year) + (153 * 0 + 2) / 5);
    } else if month == 1 {
        assert(days_from_civil(year, 1, 31) == year_start(year - 1) + (153 * 10 + 2) / 5 + 30);
        assert(days_from_civil(year, 2, 1) == year_start(year - 1) + (153 * 11 + 2) / 5);
    } else if month == 12 {
        assert(days_from_civil(year, 12, 31) == year_start(year) + (153 * 9 + 2) / 5 + 30);
        assert(days_from_civil(year + 1, 1, 1) == year_start(year) + (153 * 10 + 2) / 5);
    } else {
        let day = month_length(year, month);
        assert(days_from_civil(year, month, day) == year_start(year) + (153 * (month - 3) + 2) / 5
            + day - 1);
        assert(days_from_civil(year, month + 1, 1) == year_start(year) + (153 * (month - 2) + 2)
            / 5);
    }
}

/// Where a run of digits ends.
pub open spec fn digits_end(s: Seq<char>, at: nat) -> nat
    decreases s.len() - at,
{
    if at < s.len() && is_ascii_digit(s[at as int]) {
        digits_end(s, at + 1)
    } else {
        at
    }
}

/// Where the fraction that begins at `at` ends: past a point and the digits behind it, or at `at`
/// where there is no fraction.
pub open spec fn fraction_end(s: Seq<char>, at: nat) -> nat {
    if at + 1 < s.len() && s[at as int] == '.' && is_ascii_digit(s[at as int + 1]) {
        digits_end(s, at + 1)
    } else {
        at
    }
}

/// An offset from UTC, in seconds to add: `Z`, or `+HH:MM` or `-HH:MM`. A timestamp without one
/// is read as UTC. Anything else is `None`.
pub open spec fn offset_seconds(rest: Seq<char>) -> Option<int> {
    if rest.len() == 0 || (rest.len() == 1 && rest[0] == 'Z') {
        Some(0)
    } else if rest.len() == 6 && (rest[0] == '+' || rest[0] == '-') && is_digits(
        rest.subrange(1, 3),
    ) && rest[3] == ':' && is_digits(rest.subrange(4, 6)) {
        let offset = digits_value(rest.subrange(1, 3)) * 3_600 + digits_value(rest.subrange(4, 6))
            * 60;
        Some(
            if rest[0] == '+' {
                -offset
            } else {
                offset
            },
        )
    } else {
        None
    }
}

/// The text begins with `YYYY-MM-DDTHH:MM:SS`.
pub open spec fn is_dated(s: Seq<char>) -> bool {
    &&& s.len() >= 19
    &&& s[4] == '-' && s[7] == '-' && s[10] == 'T' && s[13] == ':' && s[16] == ':'
    &&& is_digits(s.subrange(0, 4))
    &&& is_digits(s.subrange(5, 7))
    &&& is_digits(s.subrange(8, 10))
    &&& is_digits(s.subrange(11, 13))
    &&& is_digits(s.subrange(14, 16))
    &&& is_digits(s.subrange(17, 19))
}

/// One `YYYY-MM-DDTHH:MM:SS` timestamp, with an optional fraction and an optional offset, as
/// seconds since the epoch. Anything else is `None`.
pub open spec fn epoch(raw: Seq<char>) -> Option<int> {
    let s = trimmed(raw);
    if !is_dated(s) {
        None
    } else {
        let year = digits_value(s.subrange(0, 4));
        let month = digits_value(s.subrange(5, 7));
        let day = digits_value(s.subrange(8, 10));
        let hour = digits_value(s.subrange(11, 13));
        let minute = digits_value(s.subrange(14, 16));
        let second = digits_value(s.subrange(17, 19));
        if 1 <= month <= 12 && 1 <= day <= 31 && hour <= 23 && minute <= 59 {
            match offset_seconds(s.skip(fraction_end(s, 19) as int)) {
                Some(offset) => Some(
                    days_from_civil(year, month, day) * 86_400 + hour * 3_600 + minute * 60
                        + second + offset,
                ),
                None => None,
            }
        } else {
            None
        }
    }
}

fn civil_days(year: i64, month: i64, day: i64) -> (r: i64)
    requires
        -9999 <= year <= 9999,
        1 <= month <= 12,
        1 <= day <= 31,
    ensures
        r == days_from_civil(year as int, month as int, day as int),
        -10_000_000 <= r <= 10_000_000,
{
    let y: i64 = if month <= 2 {
        year - 1
    } else {
        year
    };
    let era: i64 = (y + 400_000) / 400 - 1_000;
    assert(era == y as int / 400);
    let year_of_era: i64 = y - era * 400;
    let shifted: i64 = if month > 2 {
        month - 3
    } else {
        month + 9
    };
    let day_of_year: i64 = (153 * shifted + 2) / 5 + day - 1;
    let day_of_era: i64 = year_of_era * 365 + year_of_era / 4 - year_of_era / 100 + day_of_year;
    era * 146_097 + day_of_era - 719_468
}

fn read_offset(v: &Vec<char>, at: usize) -> (r: Option<i64>)
    requires
        at <= v@.len(),
    ensures
        match r {
            Some(n) => offset_seconds(v@.skip(at as int)) == Some(n as int) && -100_000_000 <= n
                <= 100_000_000,
            None => offset_seconds(v@.skip(at as int)) is None,
        },
{
    let ghost rest = v@.skip(at as int);
    let left: usize = v.len() - at;
    if left == 0 || (left == 1 && v[at] == 'Z') {
        return Some(0);
    }
    if left != 6 || (v[at] != '+' && v[at] != '-') || v[at + 3] != ':' {
        return None;
    }
    assert(rest.subrange(1, 3) =~= v@.subrange(at + 1, at + 3));
    assert(rest.subrange(4, 6) =~= v@.subrange(at + 4, at + 6));
    match (read_digits(v, at + 1, at + 3), read_digits(v, at + 4, at + 6)) {
        (Some(hours), Some(minutes)) => {
            let offset: i64 = hours * 3_600 + minutes * 60;
            if v[at] == '+' {
                Some(-offset)
            } else {
                Some(offset)
            }
        },
        _ => None,
    }
}

fn past_fraction(v: &Vec<char>, at: usize) -> (r: usize)
    requires
        at <= v@.len(),
    ensures
        r == fraction_end(v@, at as nat),
        at <= r <= v@.len(),
{
    if v.len() - at < 2 || v[at] != '.' || !ascii_digit(v[at + 1]) {
        return at;
    }
    let mut end: usize = at + 1;
    while end < v.len() && ascii_digit(v[end])
        invariant
            at < end <= v@.len(),
            digits_end(v@, end as nat) == digits_end(v@, (at + 1) as nat),
        decreases v@.len() - end,
    {
        end += 1;
    }
    end
}

pub fn epoch_seconds(raw: &str) -> (r: Option<i64>)
    ensures
        match r {
            Some(n) => epoch(raw@) == Some(n as int) && -2_000_000_000_000 <= n
                <= 2_000_000_000_000,
            None => epoch(raw@) is None,
        },
{
    let v = chars_of(trim(raw).as_str());
    if v.len() < 19 || v[4] != '-' || v[7] != '-' || v[10] != 'T' || v[13] != ':' || v[16] != ':' {
        return None;
    }
    match (
        read_digits(&v, 0, 4),
        read_digits(&v, 5, 7),
        read_digits(&v, 8, 10),
        read_digits(&v, 11, 13),
        read_digits(&v, 14, 16),
        read_digits(&v, 17, 19),
    ) {
        (Some(year), Some(month), Some(day), Some(hour), Some(minute), Some(second)) => {
            if month < 1 || month > 12 || day < 1 || day > 31 || hour > 23 || minute > 59 {
                return None;
            }
            let at: usize = past_fraction(&v, 19);
            match read_offset(&v, at) {
                Some(offset) => Some(
                    civil_days(year, month, day) * 86_400 + hour * 3_600 + minute * 60 + second
                        + offset,
                ),
                None => None,
            }
        },
        _ => None,
    }
}

pub open spec fn plural(count: int, unit: Seq<char>) -> Seq<char> {
    decimal(count as nat) + " "@ + unit + (if count == 1 {
        ""@
    } else {
        "s"@
    }) + " ago"@
}

fn ago(count: u64, unit: &str) -> (r: String)
    ensures
        r@ == plural(count as int, unit@),
{
    let mut out = cat3(number(count).as_str(), " ", unit);
    out.append(
        if count == 1 {
            ""
        } else {
            "s"
        },
    );
    out.append(" ago");
    out
}

/// How long before `now` a timestamp was, in the words a row carries.
///
/// `None` when it cannot be read, or is more than a minute ahead: a clock that is ahead of this
/// one is not turned into an invented past.
pub open spec fn relative(raw: Seq<char>, now: int) -> Option<Seq<char>> {
    match epoch(raw) {
        None => None,
        Some(then) => {
            let elapsed = now - then;
            if elapsed < -60 {
                None
            } else if elapsed < 60 {
                Some("just now"@)
            } else if elapsed < 5_400 {
                Some(plural(elapsed / 60, "minute"@))
            } else if elapsed < 172_800 {
                Some(plural(elapsed / 3_600, "hour"@))
            } else {
                Some(plural(elapsed / 86_400, "day"@))
            }
        },
    }
}

/// `now` is the number of seconds since the epoch.
pub fn relative_time(raw: &str, now: u64) -> (r: Option<String>)
    ensures
        match r {
            Some(s) => relative(raw@, now as int) == Some(s@),
            None => relative(raw@, now as int) is None,
        },
{
    match epoch_seconds(raw) {
        None => None,
        Some(then) => {
            let elapsed: i128 = now as i128 - then as i128;
            if elapsed < -60 {
                None
            } else if elapsed < 60 {
                Some("just now".to_owned())
            } else if elapsed < 5_400 {
                Some(ago((elapsed / 60) as u64, "minute"))
            } else if elapsed < 172_800 {
                Some(ago((elapsed / 3_600) as u64, "hour"))
            } else {
                Some(ago((elapsed / 86_400) as u64, "day"))
            }
        },
    }
}

// ----- laws -------------------------------------------------------------------------

proof fn lemma_dated_text(s: Seq<char>, zone: Seq<char>)
    requires
        is_dated(s),
        s.len() == 19,
        zone.len() > 0,
        !is_space(zone.last()),
        zone[0] != '.',
    ensures
        trimmed(s + zone) == s + zone,
        is_dated(s + zone),
        fraction_end(s + zone, 19) == 19,
        (s + zone).skip(19) == zone,
        (s + zone).subrange(0, 4) == s.subrange(0, 4),
        (s + zone).subrange(5, 7) == s.subrange(5, 7),
        (s + zone).subrange(8, 10) == s.subrange(8, 10),
        (s + zone).subrange(11, 13) == s.subrange(11, 13),
        (s + zone).subrange(14, 16) == s.subrange(14, 16),
        (s + zone).subrange(17, 19) == s.subrange(17, 19),
{
    let t = s + zone;
    assert(is_ascii_digit(s.subrange(0, 4)[0]));
    assert(t[0] == s.subrange(0, 4)[0]);
    assert(t.last() == zone.last());
    assert(trimmed_start(t) == t);
    assert(trimmed_end(t) == t);
    assert(t.skip(19) =~= zone);
    assert(t.subrange(0, 4) =~= s.subrange(0, 4));
    assert(t.subrange(5, 7) =~= s.subrange(5, 7));
    assert(t.subrange(8, 10) =~= s.subrange(8, 10));
    assert(t.subrange(11, 13) =~= s.subrange(11, 13));
    assert(t.subrange(14, 16) =~= s.subrange(14, 16));
    assert(t.subrange(17, 19) =~= s.subrange(17, 19));
}

/// A clock that is ahead of UTC shows a time that is earlier than it looks, and one that is behind
/// shows a later one, by as many hours and minutes as its offset says.
#[verifier::rlimit(60)]
pub proof fn lemma_an_offset_is_taken_off(s: Seq<char>, zone: Seq<char>)
    requires
        is_dated(s),
        s.len() == 19,
        epoch(s + "Z"@) is Some,
        zone.len() == 6,
        zone[0] == '+' || zone[0] == '-',
        is_digits(zone.subrange(1, 3)),
        zone[3] == ':',
        is_digits(zone.subrange(4, 6)),
    ensures
        epoch(s + zone) is Some,
        zone[0] == '+' ==> epoch(s + zone)->0 + digits_value(zone.subrange(1, 3)) * 3_600
            + digits_value(zone.subrange(4, 6)) * 60 == epoch(s + "Z"@)->0,
        zone[0] == '-' ==> epoch(s + zone)->0 == epoch(s + "Z"@)->0 + digits_value(
            zone.subrange(1, 3),
        ) * 3_600 + digits_value(zone.subrange(4, 6)) * 60,
{
    reveal_strlit("Z");
    assert(is_ascii_digit(zone.subrange(4, 6)[1]));
    assert(zone.last() == zone.subrange(4, 6)[1]);
    lemma_dated_text(s, "Z"@);
    lemma_dated_text(s, zone);
}

/// Two times of one day are as far apart as their clocks.
#[verifier::rlimit(60)]
pub proof fn lemma_times_of_a_day_differ_by_the_clock(a: Seq<char>, b: Seq<char>)
    requires
        is_dated(a),
        is_dated(b),
        a.len() == 19,
        b.len() == 19,
        a.take(10) == b.take(10),
        epoch(a + "Z"@) is Some,
        epoch(b + "Z"@) is Some,
    ensures
        epoch(b + "Z"@)->0 - epoch(a + "Z"@)->0 == (digits_value(b.subrange(11, 13)) - digits_value(
            a.subrange(11, 13),
        )) * 3_600 + (digits_value(b.subrange(14, 16)) - digits_value(a.subrange(14, 16))) * 60 + (
        digits_value(b.subrange(17, 19)) - digits_value(a.subrange(17, 19))),
{
    reveal_strlit("Z");
    lemma_dated_text(a, "Z"@);
    lemma_dated_text(b, "Z"@);
    assert(a.subrange(0, 4) =~= a.take(10).subrange(0, 4));
    assert(a.subrange(5, 7) =~= a.take(10).subrange(5, 7));
    assert(a.subrange(8, 10) =~= a.take(10).subrange(8, 10));
    assert(b.subrange(0, 4) =~= b.take(10).subrange(0, 4));
    assert(b.subrange(5, 7) =~= b.take(10).subrange(5, 7));
    assert(b.subrange(8, 10) =~= b.take(10).subrange(8, 10));
}

/// One time on two days is as far apart as the days, and the days are counted from the first of
/// January 1970.
#[verifier::rlimit(60)]
pub proof fn lemma_a_day_is_a_day_later(a: Seq<char>, b: Seq<char>)
    requires
        is_dated(a),
        is_dated(b),
        a.len() == 19,
        b.len() == 19,
        a.skip(10) == b.skip(10),
        a.take(8) == b.take(8),
        epoch(a + "Z"@) is Some,
        epoch(b + "Z"@) is Some,
    ensures
        epoch(b + "Z"@)->0 - epoch(a + "Z"@)->0 == (digits_value(b.subrange(8, 10)) - digits_value(
            a.subrange(8, 10),
        )) * 86_400,
        days_from_civil(1970, 1, 1) == 0,
{
    reveal_strlit("Z");
    lemma_dated_text(a, "Z"@);
    lemma_dated_text(b, "Z"@);
    assert(a.subrange(0, 4) =~= a.take(8).subrange(0, 4));
    assert(a.subrange(5, 7) =~= a.take(8).subrange(5, 7));
    assert(b.subrange(0, 4) =~= b.take(8).subrange(0, 4));
    assert(b.subrange(5, 7) =~= b.take(8).subrange(5, 7));
    assert(a.subrange(11, 13) =~= a.skip(10).subrange(1, 3));
    assert(a.subrange(14, 16) =~= a.skip(10).subrange(4, 6));
    assert(a.subrange(17, 19) =~= a.skip(10).subrange(7, 9));
    assert(b.subrange(11, 13) =~= b.skip(10).subrange(1, 3));
    assert(b.subrange(14, 16) =~= b.skip(10).subrange(4, 6));
    assert(b.subrange(17, 19) =~= b.skip(10).subrange(7, 9));
}

/// How many seconds the unit of a relative time stands for, by its first letter.
pub open spec fn unit_seconds(letter: char) -> int {
    if letter == 'm' {
        60
    } else if letter == 'h' {
        3_600
    } else {
        86_400
    }
}

/// A relative time is true: what it counts, in the unit that it names, has passed, and one more has
/// not. A moment that is further ahead than a clock may be wrong by has none.
#[verifier::rlimit(60)]
pub proof fn lemma_a_relative_time_is_true(raw: Seq<char>, now: int)
    requires
        epoch(raw) is Some,
    ensures
        ({
            let elapsed = now - epoch(raw)->0;
            &&& relative(raw, now) is None <==> elapsed < -60
            &&& -60 <= elapsed < 60 ==> relative(raw, now) == Some("just now"@)
            &&& elapsed >= 60 ==> {
                let words = relative(raw, now)->0;
                let end = digits_end(words, 0) as int;
                let unit = unit_seconds(words[end + 1]);
                &&& end + 1 < words.len()
                &&& words[end] == ' '
                &&& number_at(words, 0) * unit <= elapsed
                &&& elapsed < (number_at(words, 0) + 1) * unit
                &&& number_at(words, 0) >= 1
                &&& words.skip(words.len() - 4) == " ago"@
                &&& words[words.len() - 5] == 's' <==> number_at(words, 0) != 1
            }
        }),
{
    reveal_strlit("minute");
    reveal_strlit("hour");
    reveal_strlit("day");
    reveal_strlit(" ");
    reveal_strlit(" ago");
    reveal_strlit("s");
    reveal_strlit("");
    let elapsed = now - epoch(raw)->0;
    if elapsed >= 60 {
        let (count, unit) = if elapsed < 5_400 {
            (elapsed / 60, "minute"@)
        } else if elapsed < 172_800 {
            (elapsed / 3_600, "hour"@)
        } else {
            (elapsed / 86_400, "day"@)
        };
        let words = plural(count, unit);
        assert(relative(raw, now) == Some(words));
        let letter = if count == 1 {
            ""@
        } else {
            "s"@
        };
        let tail = " "@ + unit + letter + " ago"@;
        assert(words =~= Seq::<char>::empty() + decimal(count as nat) + tail);
        assert(tail[0] == ' ');
        lemma_a_number_inside_reads_back(words, Seq::empty(), count as nat, tail);
        let end = digits_end(words, 0) as int;
        assert(words[end] == words.skip(end)[0]);
        assert(words[end + 1] == words.skip(end)[1]);
        assert(tail[1] == unit[0]);
        assert(words.skip(words.len() - 4) =~= " ago"@);
        if count == 1 {
            assert(words[words.len() - 5] == unit.last());
        } else {
            assert(words[words.len() - 5] == 's');
        }
    }
}

} // verus!
