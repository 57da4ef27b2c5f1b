//! The embedded release: what it is filed under, when an extracted one may be reused, and which
//! ones a collection removes.
//!
//! The digest is checked before anything is unpacked. A directory is reused when it has the shape
//! of a release and carries the completion marker of exactly that version and digest; anything
//! else is extracted again. Unpacking and the file system are the caller's.

use vstd::prelude::*;

use crate::readings::lemma_a_number_reads_back;
use crate::text::{
    begins, cat3, cat4, cat5, chars_of, decimal, is_ascii_digit, joined,
    lemma_what_is_joined_comes_apart, lower, lowered, pieces, same, split, starts_with, texts,
};

verus! {

pub const COMPLETION_MARKER: &'static str = ".ouroboros-release-complete";

pub const EXTRACTION_LOCK: &'static str = ".extract.lock";

/// How many extracted releases survive a collection: the one in use and the one that replaced
/// it.
pub const KEEP: usize = 2;

/// A release baked into a binary at build time.
#[derive(Debug)]
pub struct Release {
    pub version: String,
    pub sha256: String,
    pub bytes: Vec<u8>,
}

// ----- digests ----------------------------------------------------------------------

/// The SHA-256 digest of a run of bytes.
pub uninterp spec fn sha256_of(bytes: Seq<u8>) -> Seq<u8>;

/// Calls `Sha256::digest`, whose result depends on the bytes alone and is named by `sha256_of`.
/// A SHA-256 digest is 32 bytes.
#[verifier::external_body]
fn sha256(bytes: &[u8]) -> (r: Vec<u8>)
    ensures
        r@ == sha256_of(bytes@),
        r@.len() == 32,
{
    <sha2::Sha256 as sha2::Digest>::digest(bytes).to_vec()
}

pub open spec fn hex_digit(n: int) -> char {
    if n < 10 {
        ((48 + n) as u32) as char
    } else {
        ((87 + n) as u32) as char
    }
}

/// Two lower-case hexadecimal digits for each byte.
pub open spec fn hex_text(bytes: Seq<u8>) -> Seq<char>
    decreases bytes.len(),
{
    if bytes.len() == 0 {
        Seq::empty()
    } else {
        hex_text(bytes.drop_last()).push(hex_digit(bytes.last() as int / 16)).push(
            hex_digit(bytes.last() as int % 16),
        )
    }
}

fn nibble(n: u8) -> (r: char)
    requires
        n < 16,
    ensures
        r == hex_digit(n as int),
{
    if n < 10 {
        (48 + n) as char
    } else {
        (87 + n) as char
    }
}

pub fn hex(bytes: &[u8]) -> (r: String)
    ensures
        r@ == hex_text(bytes@),
{
    let mut out = String::new();
    let mut i: usize = 0;
    assert(hex_text(bytes@.take(0)) =~= Seq::<char>::empty());
    while i < bytes.len()
        invariant
            i <= bytes@.len(),
            out@ == hex_text(bytes@.take(i as int)),
        decreases bytes@.len() - i,
    {
        assert(bytes@.take(i + 1).drop_last() =~= bytes@.take(i as int));
        out.push(nibble(bytes[i] / 16));
        out.push(nibble(bytes[i] % 16));
        i += 1;
    }
    assert(bytes@.take(i as int) =~= bytes@);
    out
}

pub fn sha256_hex(bytes: &[u8]) -> (r: String)
    ensures
        r@ == hex_text(sha256_of(bytes@)),
        r@.len() == 64,
{
    let digest = sha256(bytes);
    proof {
        lemma_hex_length(digest@);
    }
    hex(digest.as_slice())
}

proof fn lemma_hex_length(bytes: Seq<u8>)
    ensures
        hex_text(bytes).len() == 2 * bytes.len(),
    decreases bytes.len(),
{
    if bytes.len() > 0 {
        lemma_hex_length(bytes.drop_last());
    }
}

proof fn lemma_hex_digit_injective(a: int, b: int)
    requires
        0 <= a < 16,
        0 <= b < 16,
        hex_digit(a) == hex_digit(b),
    ensures
        a == b,
{
    assert(hex_digit(a) as int == if a < 10 {
        48 + a
    } else {
        87 + a
    });
    assert(hex_digit(b) as int == if b < 10 {
        48 + b
    } else {
        87 + b
    });
}

/// Two runs of bytes that read the same in hexadecimal are the same.
pub proof fn lemma_hex_is_injective(a: Seq<u8>, b: Seq<u8>)
    requires
        hex_text(a) == hex_text(b),
    ensures
        a == b,
    decreases a.len(),
{
    lemma_hex_length(a);
    lemma_hex_length(b);
    if a.len() > 0 {
        let x = hex_text(a);
        let y = hex_text(b);
        lemma_hex_length(a.drop_last());
        lemma_hex_length(b.drop_last());
        assert(x.take(x.len() - 2) =~= hex_text(a.drop_last()));
        assert(y.take(y.len() - 2) =~= hex_text(b.drop_last()));
        lemma_hex_is_injective(a.drop_last(), b.drop_last());
        assert(x[x.len() - 2] == hex_digit(a.last() as int / 16));
        assert(y[y.len() - 2] == hex_digit(b.last() as int / 16));
        assert(x[x.len() - 1] == hex_digit(a.last() as int % 16));
        assert(y[y.len() - 1] == hex_digit(b.last() as int % 16));
        lemma_hex_digit_injective(a.last() as int / 16, b.last() as int / 16);
        lemma_hex_digit_injective(a.last() as int % 16, b.last() as int % 16);
        assert(a.last() == b.last());
        assert(a =~= a.drop_last().push(a.last()));
        assert(b =~= b.drop_last().push(b.last()));
    } else {
        assert(a =~= b);
    }
}

// ----- names ------------------------------------------------------------------------

pub open spec fn directory_text(version: Seq<char>, sha256: Seq<char>) -> Seq<char> {
    version + "+"@ + sha256
}

/// What a release is filed under: its version and complete digest.
pub fn directory_name(version: &str, sha256: &str) -> (r: String)
    ensures
        r@ == directory_text(version@, sha256@),
{
    cat3(version, "+", sha256)
}

pub open spec fn completion_text(version: Seq<char>, digest: Seq<char>) -> Seq<char> {
    "ouroboros-release-cache-v1\n"@ + digest + "\n"@ + version
}

/// What the completion marker of a release holds.
pub fn completion_identity(version: &str, digest: &str) -> (r: String)
    ensures
        r@ == completion_text(version@, digest@),
{
    cat4("ouroboros-release-cache-v1\n", digest, "\n", version)
}

/// Two builds are filed under one name, or carry one marker, only when both their versions and
/// their digests are equal.
pub proof fn lemma_names_tell_releases_apart(
    version: Seq<char>,
    digest: Seq<char>,
    other_version: Seq<char>,
    other_digest: Seq<char>,
)
    requires
        digest.len() == 64,
        other_digest.len() == 64,
    ensures
        directory_text(version, digest) == directory_text(other_version, other_digest) ==> version
            == other_version && digest == other_digest,
        completion_text(version, digest) == completion_text(other_version, other_digest) ==> version
            == other_version && digest == other_digest,
{
    let a = directory_text(version, digest);
    let b = directory_text(other_version, other_digest);
    if a == b {
        let n = version.len();
        assert(a.len() == n + "+"@.len() + 64);
        assert(b.len() == other_version.len() + "+"@.len() + 64);
        assert(version =~= a.take(n as int));
        assert(other_version =~= b.take(n as int));
        assert(digest =~= a.skip((n + "+"@.len()) as int));
        assert(other_digest =~= b.skip((n + "+"@.len()) as int));
    }
    let c = completion_text(version, digest);
    let d = completion_text(other_version, other_digest);
    if c == d {
        let head = "ouroboros-release-cache-v1\n"@.len() as int;
        let gap = "\n"@.len() as int;
        assert(digest =~= c.subrange(head, head + 64));
        assert(other_digest =~= d.subrange(head, head + 64));
        assert(version =~= c.skip(head + 64 + gap));
        assert(other_version =~= d.skip(head + 64 + gap));
    }
}

/// The digest in the spelling releases are filed under.
pub fn expected_digest(recorded: &str) -> (r: String)
    ensures
        r@ == lowered(recorded@),
{
    lower(recorded)
}

// ----- reuse ------------------------------------------------------------------------

/// What was found under a release's name.
#[derive(Debug)]
pub struct CacheEntry {
    /// The entry itself, its `bin` and its `releases` are directories, and none a link.
    pub directory: bool,
    pub bin: bool,
    pub releases: bool,
    /// The completion marker, where there is a plain file of that name that could be read.
    pub marker: Option<Vec<u8>>,
}

impl CacheEntry {
    pub open spec fn shaped(&self) -> bool {
        self.directory && self.bin && self.releases
    }

    /// A completed extraction of exactly this version and digest.
    pub open spec fn completes(&self, version: Seq<char>, digest: Seq<char>) -> bool {
        &&& self.shaped()
        &&& self.marker is Some
        &&& self.marker->0@ == vstd::utf8::encode_utf8(completion_text(version, digest))
    }
}

fn same_bytes(a: &Vec<u8>, b: &[u8]) -> (r: bool)
    ensures
        r == (a@ == b@),
{
    if a.len() != b.len() {
        return false;
    }
    let mut i: usize = 0;
    while i < a.len()
        invariant
            i <= a@.len() == b@.len(),
            forall|k: int| 0 <= k < i ==> a@[k] == b@[k],
        decreases a@.len() - i,
    {
        if a[i] != b[i] {
            assert(a@[i as int] != b@[i as int]);
            return false;
        }
        i += 1;
    }
    assert(a@ =~= b@);
    true
}

/// Whether what is on disk may be used without unpacking anything.
pub fn cache_matches(entry: &CacheEntry, version: &str, digest: &str) -> (r: bool)
    ensures
        r == entry.completes(version@, digest@),
{
    if !(entry.directory && entry.bin && entry.releases) {
        return false;
    }
    match &entry.marker {
        Some(marker) => {
            let expected = completion_identity(version, digest);
            same_bytes(marker, expected.as_str().as_bytes())
        },
        None => false,
    }
}

pub open spec fn mismatch_text(expected: Seq<char>, actual: Seq<char>) -> Seq<char> {
    "the embedded release does not match the digest recorded at build time (expected "@ + expected
        + ", got "@ + actual + "); refusing to extract it"@
}

/// Whether a payload whose digest is `actual` may be unpacked as the release recorded as
/// `expected`.
pub fn digest_verdict(actual: &str, expected: &str) -> (r: Result<(), String>)
    ensures
        match r {
            Ok(_) => actual@ == expected@,
            Err(message) => actual@ != expected@ && message@ == mismatch_text(expected@, actual@),
        },
{
    if same(actual, expected) {
        Ok(())
    } else {
        Err(
            cat5(
                "the embedded release does not match the digest recorded at build time (expected ",
                expected,
                ", got ",
                actual,
                "); refusing to extract it",
            ),
        )
    }
}

/// Checks a payload against the digest it was recorded with, before anything is unpacked.
pub fn verify(bytes: &[u8], expected: &str) -> (r: Result<(), String>)
    ensures
        match r {
            Ok(_) => hex_text(sha256_of(bytes@)) == expected@,
            Err(message) => hex_text(sha256_of(bytes@)) != expected@ && message@ == mismatch_text(
                expected@,
                hex_text(sha256_of(bytes@)),
            ),
        },
{
    let actual = sha256_hex(bytes);
    digest_verdict(actual.as_str(), expected)
}

/// What an extraction does next.
#[derive(Debug)]
pub enum Extraction {
    /// The release is there: restamp the directory and use it.
    Reuse,
    /// Remove whatever is under the name, unpack beside it, mark it complete and rename it.
    Unpack,
    /// The payload is not the recorded one. Whatever was under the name is removed all the same.
    Refuse(String),
}

/// Decides an extraction from what is under the release's name. Called once before the extraction
/// lock is taken, where only a reuse is acted on, and once under it.
pub fn plan_extraction(entry: &CacheEntry, bytes: &[u8], recorded: &str, version: &str) -> (r:
    Extraction)
    ensures
        ({
            let expected = lowered(recorded@);
            match r {
                Extraction::Reuse => entry.completes(version@, expected),
                Extraction::Unpack => !entry.completes(version@, expected) && hex_text(
                    sha256_of(bytes@),
                ) == expected,
                Extraction::Refuse(message) => !entry.completes(version@, expected) && hex_text(
                    sha256_of(bytes@),
                ) != expected && message@ == mismatch_text(expected, hex_text(sha256_of(bytes@))),
            }
        }),
{
    let expected = expected_digest(recorded);
    if cache_matches(entry, version, expected.as_str()) {
        return Extraction::Reuse;
    }
    match verify(bytes, expected.as_str()) {
        Ok(_) => Extraction::Unpack,
        Err(message) => Extraction::Refuse(message),
    }
}

/// What becomes of a rename that lost: only a completed extraction of the same release is a
/// winner to be used.
pub fn lost_race_is_won(winner: &CacheEntry, version: &str, digest: &str) -> (r: bool)
    ensures
        r == winner.completes(version@, digest@),
{
    cache_matches(winner, version, digest)
}

/// The name of a temporary directory: it carries its owner's process id.
pub fn temporary_name(pid: u32, sequence: u32) -> (r: String)
    ensures
        r@ == ".tmp-"@ + decimal(pid as nat) + "-"@ + decimal(sequence as nat),
{
    cat4(
        ".tmp-",
        crate::text::number(pid as u64).as_str(),
        "-",
        crate::text::number(sequence as u64).as_str(),
    )
}

/// The mode a shared directory is restricted to: nothing for its group and for others. `None`
/// where it already is.
pub fn private_mode(mode: u32) -> (r: Option<u32>)
    ensures
        match r {
            Some(restricted) => mode & 0o077 != 0 && restricted == mode & !0o077u32 && restricted
                & 0o077 == 0 && restricted & 0o700 == mode & 0o700,
            None => mode & 0o077 == 0,
        },
{
    if mode & 0o077 != 0 {
        let restricted: u32 = mode & !0o077u32;
        assert(restricted & 0o077 == 0 && restricted & 0o700 == mode & 0o700) by (bit_vector)
            requires
                restricted == mode & !0o077u32,
        ;
        Some(restricted)
    } else {
        None
    }
}

/// Whether the `bin` under a top-level directory of a release holds programs.
pub fn holds_programs(directory: &str) -> (r: bool)
    ensures
        r == begins(directory@, "erts-"@),
{
    starts_with(directory, "erts-")
}

// ----- collection -------------------------------------------------------------------

/// One directory beside the releases.
#[derive(Debug)]
pub struct Entry {
    pub name: String,
    /// When it was last used, in nanoseconds since the epoch.
    pub modified: i128,
    /// For a temporary directory: whether the process its name carries is alive.
    pub owner_alive: bool,
}

pub open spec fn is_temporary(name: Seq<char>) -> bool {
    begins(name, ".tmp-"@)
}

/// A number of up to ten digits that fits an `i32`, with an optional sign.
pub open spec fn pid_number(s: Seq<char>) -> Option<int> {
    match crate::clock::whole_number(s) {
        Some(n) => if i32::MIN <= n <= i32::MAX {
            Some(n)
        } else {
            None
        },
        None => None,
    }
}

/// The process id in a temporary directory's name, or zero where there is none.
pub open spec fn owner_of(name: Seq<char>) -> int {
    let parts = split(name, '-');
    if parts.len() > 1 && pid_number(parts[1]) is Some {
        pid_number(parts[1])->0
    } else {
        0
    }
}

proof fn lemma_digits_value_steps(s: Seq<char>, n: int)
    requires
        0 <= n < s.len(),
    ensures
        crate::clock::digits_value(s.take(n + 1)) == 10 * crate::clock::digits_value(s.take(n))
            + crate::clock::digit_value(s[n]),
{
    assert(s.take(n + 1).drop_last() =~= s.take(n));
}

proof fn lemma_digits_value_grows(s: Seq<char>, n: int)
    requires
        0 <= n <= s.len(),
        forall|i: int| 0 <= i < s.len() ==> is_ascii_digit(#[trigger] s[i]),
    ensures
        0 <= crate::clock::digits_value(s.take(n)) <= crate::clock::digits_value(s),
    decreases s.len() - n,
{
    if n == s.len() {
        assert(s.take(n) =~= s);
        lemma_digits_value_nonnegative(s);
    } else {
        lemma_digits_value_grows(s, n + 1);
        lemma_digits_value_steps(s, n);
        assert(is_ascii_digit(s[n]));
        lemma_digits_value_nonnegative(s.take(n));
    }
}

proof fn lemma_digits_value_nonnegative(s: Seq<char>)
    requires
        forall|i: int| 0 <= i < s.len() ==> is_ascii_digit(#[trigger] s[i]),
    ensures
        crate::clock::digits_value(s) >= 0,
    decreases s.len(),
{
    if s.len() > 0 {
        assert(is_ascii_digit(s[s.len() - 1]));
        assert forall|i: int| 0 <= i < s.drop_last().len() implies is_ascii_digit(
            #[trigger] s.drop_last()[i],
        ) by {
            assert(s.drop_last()[i] == s[i]);
        }
        lemma_digits_value_nonnegative(s.drop_last());
    }
}

fn read_pid(s: &str) -> (r: Option<i32>)
    ensures
        match r {
            Some(n) => pid_number(s@) == Some(n as int),
            None => pid_number(s@) is None,
        },
{
    let v = chars_of(s);
    if v.len() == 0 {
        return None;
    }
    let negative = v[0] == '-';
    let from: usize = if v[0] == '-' || v[0] == '+' {
        1
    } else {
        0
    };
    let ghost digits = v@.skip(from as int);
    proof {
        if from == 0 {
            assert(digits =~= v@);
        } else {
            assert(!is_ascii_digit(v@[0]));
        }
    }
    if from == v.len() {
        return None;
    }
    let mut i: usize = from;
    while i < v.len()
        invariant
            from <= i <= v@.len(),
            digits == v@.skip(from as int),
            forall|k: int| 0 <= k < i - from ==> is_ascii_digit(#[trigger] digits[k]),
        ensures
            i == v@.len() || !is_ascii_digit(v@[i as int]),
            from <= i <= v@.len(),
            forall|k: int| 0 <= k < i - from ==> is_ascii_digit(#[trigger] digits[k]),
        decreases v@.len() - i,
    {
        if !crate::text::ascii_digit(v[i]) {
            break;
        }
        i += 1;
    }
    if i < v.len() {
        assert(!is_ascii_digit(digits[i - from]));
        return None;
    }
    assert(crate::clock::is_digits(digits));
    let mut n: i64 = 0;
    let mut k: usize = 0;
    let size: usize = v.len();
    let total: usize = size - from;
    assert(digits.take(0).len() == 0);
    while k < total
        invariant
            total == digits.len(),
            from + total == size == v@.len(),
            k <= total,
            digits == v@.skip(from as int),
            forall|j: int| 0 <= j < digits.len() ==> is_ascii_digit(#[trigger] digits[j]),
            0 <= n <= 2_147_483_648,
            n == crate::clock::digits_value(digits.take(k as int)),
            crate::clock::is_digits(digits),
            pid_number(v@) == (if negative {
                if i32::MIN <= -crate::clock::digits_value(digits) <= i32::MAX {
                    Some(-crate::clock::digits_value(digits))
                } else {
                    None
                }
            } else {
                if i32::MIN <= crate::clock::digits_value(digits) <= i32::MAX {
                    Some(crate::clock::digits_value(digits))
                } else {
                    None
                }
            }),
            v@ == s@,
        decreases total - k,
    {
        let c = v[from + k];
        assert(c == digits[k as int]);
        proof {
            lemma_digits_value_steps(digits, k as int);
            lemma_digits_value_grows(digits, k + 1);
        }
        n = n * 10 + ((c as u32) - ('0' as u32)) as i64;
        k += 1;
        if n > 2_147_483_648 {
            return None;
        }
    }
    assert(digits.take(k as int) =~= digits);
    if negative {
        Some((-n) as i32)
    } else if n <= 2_147_483_647 {
        Some(n as i32)
    } else {
        None
    }
}

/// The process that may still be unpacking into a temporary directory.
pub fn temporary_owner(name: &str) -> (r: i32)
    ensures
        r == owner_of(name@),
{
    let parts = pieces(name, '-');
    if parts.len() > 1 {
        assert(texts(parts@)[1] == parts@[1]@);
        match read_pid(parts[1].as_str()) {
            Some(pid) => pid,
            None => 0,
        }
    } else {
        0
    }
}

/// The temporary directories nobody is unpacking into, in the order they were listed.
pub open spec fn dead_temporaries(entries: Seq<Entry>, n: int) -> Seq<int>
    decreases n,
{
    if n <= 0 {
        Seq::empty()
    } else {
        let rest = dead_temporaries(entries, n - 1);
        if is_temporary(entries[n - 1].name@) && !entries[n - 1].owner_alive {
            rest.push(n - 1)
        } else {
            rest
        }
    }
}

/// Where an entry belongs among others that are ordered newest first: after every one that is at
/// least as new.
pub open spec fn slot(entries: Seq<Entry>, order: Seq<int>, modified: i128) -> int
    decreases order.len(),
{
    if order.len() == 0 || entries[order.last()].modified >= modified {
        order.len() as int
    } else {
        slot(entries, order.drop_last(), modified)
    }
}

/// The releases, newest first. Of two equally new the one that was listed first comes first.
pub open spec fn newest_first(entries: Seq<Entry>, n: int) -> Seq<int>
    decreases n,
{
    if n <= 0 {
        Seq::empty()
    } else {
        let rest = newest_first(entries, n - 1);
        if is_temporary(entries[n - 1].name@) {
            rest
        } else {
            rest.insert(slot(entries, rest, entries[n - 1].modified), n - 1)
        }
    }
}

/// What a collection removes: the dead temporaries, then every release past the newest `keep`.
pub open spec fn collected(entries: Seq<Entry>, keep: nat) -> Seq<int> {
    let order = newest_first(entries, entries.len() as int);
    dead_temporaries(entries, entries.len() as int) + if keep < order.len() {
        order.skip(keep as int)
    } else {
        Seq::empty()
    }
}

pub open spec fn positions(v: Seq<usize>) -> Seq<int> {
    v.map_values(|i: usize| i as int)
}

proof fn lemma_slot_bounds(entries: Seq<Entry>, order: Seq<int>, modified: i128)
    ensures
        0 <= slot(entries, order, modified) <= order.len(),
    decreases order.len(),
{
    if order.len() > 0 && entries[order.last()].modified < modified {
        lemma_slot_bounds(entries, order.drop_last(), modified);
    }
}

/// The directories a collection removes, by their positions and in the order it removes them.
pub fn gc(entries: &Vec<Entry>, keep: usize) -> (r: Vec<usize>)
    ensures
        positions(r@) == collected(entries@, keep as nat),
{
    let mut removed: Vec<usize> = Vec::new();
    let mut order: Vec<usize> = Vec::new();
    let mut n: usize = 0;
    assert(positions(removed@) =~= Seq::<int>::empty());
    assert(positions(order@) =~= Seq::<int>::empty());
    while n < entries.len()
        invariant
            n <= entries@.len(),
            positions(removed@) == dead_temporaries(entries@, n as int),
            positions(order@) == newest_first(entries@, n as int),
            forall|i: int| 0 <= i < order@.len() ==> #[trigger] order@[i] < n,
            order@.len() <= n,
        decreases entries@.len() - n,
    {
        let entry = &entries[n];
        if starts_with(entry.name.as_str(), ".tmp-") {
            if !entry.owner_alive {
                let ghost before = removed@;
                removed.push(n);
                assert(positions(removed@) =~= positions(before).push(n as int));
            }
        } else {
            let ghost before = positions(order@);
            let mut at: usize = order.len();
            assert(before.take(at as int) =~= before);
            while at > 0 && entries[order[at - 1]].modified < entry.modified
                invariant
                    at <= order@.len(),
                    order@.len() <= n < entries@.len(),
                    forall|i: int| 0 <= i < order@.len() ==> #[trigger] order@[i] < n,
                    before == positions(order@),
                    entry == entries@[n as int],
                    slot(entries@, before.take(at as int), entry.modified) == slot(
                        entries@,
                        before,
                        entry.modified,
                    ),
                decreases at,
            {
                assert(before.take(at as int).last() == order@[at - 1]);
                assert(before.take(at as int).drop_last() =~= before.take(at - 1));
                at -= 1;
            }
            proof {
                if at > 0 {
                    assert(before.take(at as int).last() == order@[at - 1]);
                }
                assert(slot(entries@, before, entry.modified) == at);
            }
            let ghost held = order@;
            order.insert(at, n);
            assert(positions(order@) =~= before.insert(at as int, n as int));
            assert forall|i: int| 0 <= i < order@.len() implies #[trigger] order@[i] < n + 1 by {
                if i < at {
                    assert(order@[i] == held[i]);
                } else if i > at {
                    assert(order@[i] == held[i - 1]);
                }
            }
        }
        n += 1;
    }
    let ghost dead = positions(removed@);
    let ghost ranked = positions(order@);
    let mut k: usize = keep;
    assert(dead + Seq::<int>::empty() =~= dead);
    if keep < order.len() {
        assert(ranked.subrange(keep as int, keep as int) =~= Seq::<int>::empty());
        while k < order.len()
            invariant
                keep <= k <= order@.len(),
                ranked == positions(order@),
                positions(removed@) == dead + ranked.subrange(keep as int, k as int),
            decreases order@.len() - k,
        {
            let ghost before = removed@;
            removed.push(order[k]);
            assert(positions(removed@) =~= positions(before).push(ranked[k as int]));
            assert(ranked.subrange(keep as int, k + 1) =~= ranked.subrange(
                keep as int,
                k as int,
            ).push(ranked[k as int]));
            k += 1;
        }
        assert(ranked.subrange(keep as int, k as int) =~= ranked.skip(keep as int));
    }
    removed
}

spec fn descending(entries: Seq<Entry>, order: Seq<int>) -> bool {
    forall|i: int, j: int|
        0 <= i < j < order.len() ==> entries[#[trigger] order[i]].modified
            >= entries[#[trigger] order[j]].modified
}

proof fn lemma_slot_splits(entries: Seq<Entry>, order: Seq<int>, modified: i128)
    requires
        descending(entries, order),
    ensures
        0 <= slot(entries, order, modified) <= order.len(),
        forall|i: int|
            0 <= i < slot(entries, order, modified) ==> entries[#[trigger] order[i]].modified
                >= modified,
        forall|i: int|
            slot(entries, order, modified) <= i < order.len() ==> entries[#[trigger] order[i]].modified
                < modified,
    decreases order.len(),
{
    if order.len() > 0 {
        let rest = order.drop_last();
        if entries[order.last()].modified < modified {
            assert(descending(entries, rest)) by {
                assert forall|i: int, j: int| 0 <= i < j < rest.len() implies entries[
                #[trigger] rest[i]].modified >= entries[#[trigger] rest[j]].modified by {
                    assert(rest[i] == order[i] && rest[j] == order[j]);
                }
            }
            lemma_slot_splits(entries, rest, modified);
            assert forall|i: int| 0 <= i < slot(entries, order, modified) implies entries[
            #[trigger] order[i]].modified >= modified by {
                assert(rest[i] == order[i]);
            }
            assert forall|i: int|
                slot(entries, order, modified) <= i < order.len() implies entries[
            #[trigger] order[i]].modified < modified by {
                if i < rest.len() {
                    assert(rest[i] == order[i]);
                }
            }
        } else {
            assert forall|i: int| 0 <= i < order.len() implies entries[
            #[trigger] order[i]].modified >= modified by {
                if i < order.len() - 1 {
                    assert(entries[order[i]].modified >= entries[order[order.len() - 1]].modified);
                }
            }
        }
    }
}

proof fn lemma_newest_first(entries: Seq<Entry>, n: int)
    requires
        0 <= n <= entries.len(),
    ensures
        descending(entries, newest_first(entries, n)),
        newest_first(entries, n).no_duplicates(),
        forall|i: int|
            0 <= i < newest_first(entries, n).len() ==> 0 <= (#[trigger] newest_first(
                entries,
                n,
            )[i]) < n && !is_temporary(entries[newest_first(entries, n)[i]].name@),
        forall|k: int|
            0 <= k < n && !is_temporary((#[trigger] entries[k]).name@) ==> newest_first(
                entries,
                n,
            ).contains(k),
    decreases n,
{
    if n > 0 {
        let rest = newest_first(entries, n - 1);
        let whole = newest_first(entries, n);
        lemma_newest_first(entries, n - 1);
        if !is_temporary(entries[n - 1].name@) {
            let modified = entries[n - 1].modified;
            lemma_slot_splits(entries, rest, modified);
            let at = slot(entries, rest, modified);
            assert(whole =~= rest.insert(at, n - 1));
            assert forall|i: int, j: int| 0 <= i < j < whole.len() implies entries[
            #[trigger] whole[i]].modified >= entries[#[trigger] whole[j]].modified && whole[i]
                != whole[j] by {
                let a = if i < at {
                    i
                } else {
                    i - 1
                };
                let b = if j < at {
                    j
                } else {
                    j - 1
                };
                if i == at {
                    assert(whole[j] == rest[j - 1]);
                } else if j == at {
                    assert(whole[i] == rest[i]);
                } else {
                    assert(whole[i] == rest[a] && whole[j] == rest[b]);
                    assert(rest[a] != rest[b]);
                }
            }
            assert forall|i: int| 0 <= i < whole.len() implies 0 <= (#[trigger] whole[i]) < n
                && !is_temporary(entries[whole[i]].name@) by {
                if i < at {
                    assert(whole[i] == rest[i]);
                } else if i > at {
                    assert(whole[i] == rest[i - 1]);
                }
            }
            assert forall|k: int|
                0 <= k < n && !is_temporary((#[trigger] entries[k]).name@) implies whole.contains(
                k,
            ) by {
                if k == n - 1 {
                    assert(whole[at] == k);
                } else {
                    let i = choose|i: int| 0 <= i < rest.len() && rest[i] == k;
                    if i < at {
                        assert(whole[i] == k);
                    } else {
                        assert(whole[i + 1] == k);
                    }
                }
            }
        }
    }
}

proof fn lemma_dead_temporaries(entries: Seq<Entry>, n: int)
    requires
        0 <= n <= entries.len(),
    ensures
        forall|i: int|
            0 <= i < dead_temporaries(entries, n).len() ==> 0 <= (#[trigger] dead_temporaries(
                entries,
                n,
            )[i]) < n && is_temporary(entries[dead_temporaries(entries, n)[i]].name@)
                && !entries[dead_temporaries(entries, n)[i]].owner_alive,
        forall|k: int|
            0 <= k < n && is_temporary((#[trigger] entries[k]).name@) && !entries[k].owner_alive
                ==> dead_temporaries(entries, n).contains(k),
    decreases n,
{
    if n > 0 {
        let rest = dead_temporaries(entries, n - 1);
        let whole = dead_temporaries(entries, n);
        lemma_dead_temporaries(entries, n - 1);
        assert forall|i: int| 0 <= i < whole.len() implies 0 <= (#[trigger] whole[i]) < n
            && is_temporary(entries[whole[i]].name@) && !entries[whole[i]].owner_alive by {
            if i < rest.len() {
                assert(whole[i] == rest[i]);
            }
        }
        assert forall|k: int|
            0 <= k < n && is_temporary((#[trigger] entries[k]).name@)
                && !entries[k].owner_alive implies whole.contains(k) by {
            if k == n - 1 {
                assert(whole[whole.len() - 1] == k);
            } else {
                let i = choose|i: int| 0 <= i < rest.len() && rest[i] == k;
                assert(whole[i] == k);
            }
        }
    }
}

/// A collection keeps the newest releases and the temporaries somebody is still unpacking into.
/// Every temporary nobody owns goes; a release goes only when `keep` others at least as new as it
/// stay.
pub proof fn lemma_what_a_collection_keeps(entries: Seq<Entry>, keep: nat)
    ensures
        forall|k: int|
            0 <= k < entries.len() && is_temporary((#[trigger] entries[k]).name@) ==> (collected(
                entries,
                keep,
            ).contains(k) <==> !entries[k].owner_alive),
        forall|k: int, m: int|
            0 <= k < entries.len() && 0 <= m < entries.len() && !is_temporary(
                (#[trigger] entries[k]).name@,
            ) && !is_temporary((#[trigger] entries[m]).name@) && collected(entries, keep).contains(
                k,
            ) && !collected(entries, keep).contains(m) ==> entries[m].modified
                >= entries[k].modified,
{
    let n = entries.len() as int;
    let order = newest_first(entries, n);
    let dead = dead_temporaries(entries, n);
    let whole = collected(entries, keep);
    lemma_newest_first(entries, n);
    lemma_dead_temporaries(entries, n);
    let tail = if keep < order.len() {
        order.skip(keep as int)
    } else {
        Seq::empty()
    };
    assert(whole =~= dead + tail);
    assert forall|k: int|
        0 <= k < entries.len() && is_temporary((#[trigger] entries[k]).name@) implies (
    whole.contains(k) <==> !entries[k].owner_alive) by {
        if whole.contains(k) {
            let i = choose|i: int| 0 <= i < whole.len() && whole[i] == k;
            if i < dead.len() {
                assert(dead[i] == k);
            } else {
                assert(tail[i - dead.len()] == k);
                assert(order[i - dead.len() + keep] == k);
            }
        }
        if !entries[k].owner_alive {
            let i = choose|i: int| 0 <= i < dead.len() && dead[i] == k;
            assert(whole[i] == k);
        }
    }
    assert forall|k: int, m: int|
        0 <= k < entries.len() && 0 <= m < entries.len() && !is_temporary(
            (#[trigger] entries[k]).name@,
        ) && !is_temporary((#[trigger] entries[m]).name@) && whole.contains(k)
            && !whole.contains(m) implies entries[m].modified >= entries[k].modified by {
        let i = choose|i: int| 0 <= i < whole.len() && whole[i] == k;
        assert(i >= dead.len()) by {
            if i < dead.len() {
                assert(dead[i] == k);
            }
        }
        let x = i - dead.len() + keep;
        assert(tail[i - dead.len()] == k);
        assert(order[x] == k);
        let y = choose|y: int| 0 <= y < order.len() && order[y] == m;
        if y >= keep {
            assert(tail[y - keep] == m);
            assert(whole[dead.len() + (y - keep)] == m);
        }
        assert(y < x);
        assert(entries[order[y]].modified >= entries[order[x]].modified);
    }
}

proof fn lemma_no_hyphen_in_a_number(n: nat)
    ensures
        !decimal(n).contains('-'),
{
    lemma_a_number_reads_back(n);
    let s = decimal(n);
    if s.contains('-') {
        let i = choose|i: int| 0 <= i < s.len() && s[i] == '-';
        assert(is_ascii_digit(s[i]));
    }
}

/// The name of a temporary directory says which process made it: whoever collects reads back the
/// process that the name was made for.
#[verifier::rlimit(60)]
pub proof fn lemma_a_temporary_directory_names_its_owner(pid: nat, sequence: nat)
    requires
        pid <= i32::MAX,
    ensures
        ({
            let name = ".tmp-"@ + decimal(pid) + "-"@ + decimal(sequence);
            is_temporary(name) && owner_of(name) == pid
        }),
{
    reveal_strlit(".tmp-");
    reveal_strlit("-");
    let name = ".tmp-"@ + decimal(pid) + "-"@ + decimal(sequence);
    let tmp = seq!['.', 't', 'm', 'p'];
    let parts = seq![tmp, decimal(pid), decimal(sequence)];
    lemma_no_hyphen_in_a_number(pid);
    lemma_no_hyphen_in_a_number(sequence);
    assert(!tmp.contains('-'));
    assert forall|i: int| 0 <= i < parts.len() implies !(#[trigger] parts[i]).contains('-') by {}
    lemma_what_is_joined_comes_apart(parts, '-');
    let two = parts.drop_last();
    let one = two.drop_last();
    assert(two =~= seq![tmp, decimal(pid)]);
    assert(one =~= seq![tmp]);
    assert(joined(one, seq!['-']) == tmp);
    assert(joined(two, seq!['-']) == tmp + seq!['-'] + decimal(pid));
    assert(joined(parts, seq!['-']) == joined(two, seq!['-']) + seq!['-'] + decimal(sequence));
    assert(name =~= joined(parts, seq!['-']));
    assert(split(name, '-') == parts);
    lemma_a_number_reads_back(pid);
    assert(is_ascii_digit(decimal(pid)[0]));
    assert(crate::clock::whole_number(decimal(pid)) == Some(pid as int));
    assert(name.take(5) =~= ".tmp-"@);
}

} // verus!
