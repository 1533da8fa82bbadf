//! Git configuration hardening: which filter drivers a repository defines,
//! and the `-c` overrides that blank their programs.
//!
//! A repository is data, not a program. A `git config --null --list` listing
//! is parsed here into overrides that disable the clean, smudge and process
//! programs of every filter driver the listing selects, so an automatic `git`
//! child never runs a program the repository names.

use vstd::prelude::*;
use vstd::utf8::{decode_utf8, encode_utf8, valid_utf8};

use crate::text::{
    chars_of, control, ends_with, ends_with_str, insert_sorted, insert_sorted_chars, is_control,
    lemma_insert_sorted_shape, lex_lt, lower_chars, lower_seq, slice_chars, starts_with, starts_with_str,
    strictly_ascending, string_of,
};

verus! {

/// Whether a hardened child may take Git's optional locks.
#[derive(Debug, Clone, Copy, PartialEq, Eq, Structural)]
pub enum GitAccess {
    /// Status, diff and probes: `--no-optional-locks`.
    ReadOnly,
    /// A deliberate mutation such as a branch switch. Hooks stay inert.
    Mutating,
}

/// How a `git config --null --list` listing was produced.
#[derive(Debug, Clone, Copy, PartialEq, Eq, Structural)]
pub enum ConfigListing {
    /// A plain listing: every configured filter driver is blanked.
    Unscoped,
    /// A `--show-scope` listing: drivers defined only in the user's global or
    /// system configuration are kept; repository-defined ones are blanked.
    Scoped,
}

/// Why a configuration listing cannot be turned into filter overrides.
#[derive(Debug, Clone, Copy, PartialEq, Eq, Structural)]
pub enum FilterConfigError {
    /// A configuration key is not UTF-8.
    NonUtf8Key,
    /// A filter driver name cannot be expressed as a `-c` override.
    InvalidDriverName,
    /// More filter drivers than one command line should carry.
    TooManyDrivers,
}

/// Largest number of distinct filter drivers accepted from one listing.
pub const MAX_FILTER_DRIVERS: usize = 256;

/// Longest accepted driver name, in UTF-8 bytes.
pub const MAX_DRIVER_NAME_BYTES: usize = 256;

/// The message of a filter configuration error.
pub open spec fn filter_error_message(e: FilterConfigError) -> Seq<char> {
    match e {
        FilterConfigError::NonUtf8Key => "Git config key is not UTF-8"@,
        FilterConfigError::InvalidDriverName => "invalid Git filter driver name"@,
        FilterConfigError::TooManyDrivers => "too many Git filter drivers"@,
    }
}

impl FilterConfigError {
    /// The error's message.
    pub fn message(&self) -> (r: &'static str)
        ensures
            r@ == filter_error_message(*self),
    {
        match self {
            FilterConfigError::NonUtf8Key => "Git config key is not UTF-8",
            FilterConfigError::InvalidDriverName => "invalid Git filter driver name",
            FilterConfigError::TooManyDrivers => "too many Git filter drivers",
        }
    }
}

// ---------------------------------------------------------------------------
// Records of a NUL-separated listing
// ---------------------------------------------------------------------------

/// The pieces of `b` between NUL bytes (`<[u8]>::split(|b| *b == 0)`): an empty
/// input is one empty piece, and a trailing NUL yields a trailing empty piece.
pub open spec fn split_nul(b: Seq<u8>) -> Seq<Seq<u8>>
    decreases b.len(),
{
    if b.len() == 0 {
        seq![seq![]]
    } else {
        let prev = split_nul(b.drop_last());
        if b.last() == 0 {
            prev.push(seq![])
        } else {
            prev.update(prev.len() - 1, prev.last().push(b.last()))
        }
    }
}

pub proof fn lemma_split_nul_nonempty(b: Seq<u8>)
    ensures
        split_nul(b).len() >= 1,
    decreases b.len(),
{
    if b.len() > 0 {
        lemma_split_nul_nonempty(b.drop_last());
    }
}

/// One configuration entry: whether it comes from the user's own global or
/// system scope, and its `key\nvalue` record.
pub struct ListingEntry {
    pub user_scope: bool,
    pub record: Seq<u8>,
}

/// The scope names of a user-owned definition.
pub open spec fn is_user_scope(scope: Seq<u8>) -> bool {
    bytes_spell(scope, "global"@) || bytes_spell(scope, "system"@)
}

/// The bytes `b` spell the (Latin-1) characters `s` one for one.
pub open spec fn bytes_spell(b: Seq<u8>, s: Seq<char>) -> bool {
    b.len() == s.len() && forall|k: int| 0 <= k < b.len() ==> #[trigger] (b[k] as char) == s[k]
}

/// The entries of a listing. A scoped listing pairs a scope with each record;
/// a trailing scope without its record is ignored.
pub open spec fn listing_entries(listing: Seq<u8>, kind: ConfigListing) -> Seq<ListingEntry> {
    let pieces = split_nul(listing);
    match kind {
        ConfigListing::Unscoped => pieces.map_values(
            |p: Seq<u8>| ListingEntry { user_scope: false, record: p },
        ),
        ConfigListing::Scoped => Seq::new(
            pieces.len() / 2,
            |i: int| ListingEntry { user_scope: is_user_scope(pieces[2 * i]), record: pieces[2 * i + 1] },
        ),
    }
}

/// Index of the first newline of a record, or its length.
pub open spec fn key_end(r: Seq<u8>) -> int
    decreases r.len(),
{
    if r.len() == 0 {
        0
    } else if r[0] == 10 {
        0
    } else {
        1 + key_end(r.drop_first())
    }
}

/// The key of a `key\nvalue` record.
pub open spec fn record_key(r: Seq<u8>) -> Seq<u8> {
    r.take(key_end(r))
}

pub proof fn lemma_key_end_at(r: Seq<u8>, k: int)
    requires
        0 <= k <= r.len(),
        forall|i: int| 0 <= i < k ==> #[trigger] r[i] != 10,
        k == r.len() || r[k] == 10,
    ensures
        key_end(r) == k,
    decreases k,
{
    if k > 0 {
        let t = r.drop_first();
        assert forall|i: int| 0 <= i < k - 1 implies #[trigger] t[i] != 10 by {
            assert(t[i] == r[i + 1]);
        }
        lemma_key_end_at(t, k - 1);
    }
}

// ---------------------------------------------------------------------------
// Filter driver names
// ---------------------------------------------------------------------------

/// The program suffixes of a filter driver key, in the order they are tried.
pub open spec fn driver_suffixes() -> Seq<&'static str> {
    seq![".clean", ".smudge", ".process", ".required"]
}

fn driver_suffixes_list() -> (r: &'static [&'static str])
    ensures
        r@ == driver_suffixes(),
{
    let a: &'static [&'static str; 4] = &[".clean", ".smudge", ".process", ".required"];
    let r: &'static [&'static str] = a;
    r
}

/// The first suffix (in order) that `rest` ends with, from index `k` on.
pub open spec fn first_suffix_from(rest: Seq<char>, k: int) -> Option<int>
    decreases 4 - k,
{
    if k < 0 || k >= 4 {
        None
    } else if ends_with(rest, driver_suffixes()[k]@) {
        Some(k)
    } else {
        first_suffix_from(rest, k + 1)
    }
}

/// The driver of a `filter.<driver>.<program>` key. Git lowercases the section
/// and variable but keeps the subsection's case, so only those are folded.
pub open spec fn filter_driver_name(key: Seq<char>) -> Option<Seq<char>> {
    let lower = lower_seq(key);
    if !starts_with(lower, "filter."@) {
        None
    } else {
        match first_suffix_from(lower.skip(7), 0) {
            None => None,
            Some(k) => Some(key.subrange(7, key.len() - driver_suffixes()[k]@.len())),
        }
    }
}

/// A driver name that cannot be written as a `-c` override.
pub open spec fn invalid_driver(d: Seq<char>) -> bool {
    d.len() == 0 || encode_utf8(d).len() > MAX_DRIVER_NAME_BYTES || d.contains('=') || exists|
        i: int,
    | 0 <= i < d.len() && is_control(#[trigger] d[i])
}

/// One entry folded into the driver set.
pub open spec fn step(acc: Result<Seq<Seq<char>>, FilterConfigError>, e: ListingEntry) -> Result<
    Seq<Seq<char>>,
    FilterConfigError,
> {
    match acc {
        Err(err) => Err(err),
        Ok(ds) => {
            let key = record_key(e.record);
            if !valid_utf8(key) {
                Err(FilterConfigError::NonUtf8Key)
            } else if e.user_scope {
                Ok(ds)
            } else {
                match filter_driver_name(decode_utf8(key)) {
                    None => Ok(ds),
                    Some(d) => if invalid_driver(d) {
                        Err(FilterConfigError::InvalidDriverName)
                    } else if insert_sorted(ds, d).len() > MAX_FILTER_DRIVERS {
                        Err(FilterConfigError::TooManyDrivers)
                    } else {
                        Ok(insert_sorted(ds, d))
                    },
                }
            }
        },
    }
}

/// The ordered driver set of the first `n` entries.
pub open spec fn drivers_upto(es: Seq<ListingEntry>, n: int) -> Result<
    Seq<Seq<char>>,
    FilterConfigError,
>
    decreases n,
{
    if n <= 0 {
        Ok(seq![])
    } else {
        step(drivers_upto(es, n - 1), es[n - 1])
    }
}

/// A failure stays the listing's result whatever entries follow it.
pub proof fn lemma_drivers_err_sticks(es: Seq<ListingEntry>, e: int, err: FilterConfigError)
    requires
        0 <= e <= es.len(),
        drivers_upto(es, e) == Err::<Seq<Seq<char>>, FilterConfigError>(err),
    ensures
        drivers_upto(es, es.len() as int) == Err::<Seq<Seq<char>>, FilterConfigError>(err),
    decreases es.len() - e,
{
    if e < es.len() {
        lemma_drivers_err_sticks(es, e + 1, err);
    }
}

/// The four overrides that blank one driver.
pub open spec fn driver_overrides(d: Seq<char>) -> Seq<Seq<char>> {
    seq![
        "filter."@ + d + ".clean="@,
        "filter."@ + d + ".smudge="@,
        "filter."@ + d + ".process="@,
        "filter."@ + d + ".required=false"@,
    ]
}

/// The overrides of every driver, in set order.
pub open spec fn all_overrides(ds: Seq<Seq<char>>) -> Seq<Seq<char>>
    decreases ds.len(),
{
    if ds.len() == 0 {
        seq![]
    } else {
        all_overrides(ds.drop_last()) + driver_overrides(ds.last())
    }
}

/// The overrides a listing yields, or why it yields none.
pub open spec fn listing_overrides_spec(listing: Seq<u8>, kind: ConfigListing) -> Result<
    Seq<Seq<char>>,
    FilterConfigError,
> {
    let es = listing_entries(listing, kind);
    match drivers_upto(es, es.len() as int) {
        Ok(ds) => Ok(all_overrides(ds)),
        Err(e) => Err(e),
    }
}

/// The views of a vector of strings.
pub open spec fn string_views(v: Seq<String>) -> Seq<Seq<char>> {
    v.map_values(|s: String| s@)
}

// ---------------------------------------------------------------------------
// Executable parsing
// ---------------------------------------------------------------------------

/// `std::str::from_utf8`: the string whose UTF-8 encoding is `b`, when `b` is
/// valid UTF-8.
#[verifier::external_body]
pub(crate) fn str_from_utf8(b: &[u8]) -> (r: Option<&str>)
    ensures
        r.is_some() == valid_utf8(b@),
        r matches Some(s) ==> s@ == decode_utf8(b@),
{
    std::str::from_utf8(b).ok()
}

/// The NUL-separated pieces of `b`.
pub fn split_on_nul(b: &[u8]) -> (r: Vec<Vec<u8>>)
    ensures
        r@.map_values(|v: Vec<u8>| v@) == split_nul(b@),
{
    let mut r: Vec<Vec<u8>> = Vec::new();
    r.push(Vec::new());
    let mut i: usize = 0;
    proof {
        assert(r@.map_values(|v: Vec<u8>| v@) =~= split_nul(b@.take(0)));
    }
    while i < b.len()
        invariant
            i <= b@.len(),
            r@.map_values(|v: Vec<u8>| v@) == split_nul(b@.take(i as int)),
        decreases b.len() - i,
    {
        let ghost prev = r@.map_values(|v: Vec<u8>| v@);
        let ghost t = b@.take(i + 1);
        proof {
            assert(t.drop_last() =~= b@.take(i as int));
            assert(t.last() == b@[i as int]);
            lemma_split_nul_nonempty(b@.take(i as int));
        }
        if b[i] == 0 {
            r.push(Vec::new());
            proof {
                assert(r@.map_values(|v: Vec<u8>| v@) =~= prev.push(seq![]));
            }
        } else {
            let mut last = r.pop().unwrap();
            last.push(b[i]);
            r.push(last);
            proof {
                assert(r@.map_values(|v: Vec<u8>| v@) =~= prev.update(
                    prev.len() - 1,
                    prev.last().push(b@[i as int]),
                ));
            }
        }
        i += 1;
    }
    proof {
        assert(b@.take(b@.len() as int) =~= b@);
    }
    r
}

fn record_key_len(r: &[u8]) -> (k: usize)
    ensures
        k == key_end(r@),
        k <= r@.len(),
{
    let mut k: usize = 0;
    while k < r.len() && r[k] != 10
        invariant
            k <= r@.len(),
            forall|i: int| 0 <= i < k ==> #[trigger] r@[i] != 10,
        decreases r.len() - k,
    {
        k += 1;
    }
    proof {
        lemma_key_end_at(r@, k as int);
    }
    k
}

fn bytes_eq_str(b: &[u8], s: &str) -> (r: bool)
    ensures
        r == bytes_spell(b@, s@),
{
    let cs = chars_of(s);
    if cs.len() != b.len() {
        return false;
    }
    let mut i: usize = 0;
    while i < b.len()
        invariant
            i <= b@.len(),
            cs@.len() == b@.len(),
            cs@ == s@,
            forall|k: int| 0 <= k < i ==> #[trigger] (b@[k] as char) == cs@[k],
        decreases b.len() - i,
    {
        if (b[i] as char) != cs[i] {
            return false;
        }
        i += 1;
    }
    true
}

/// The driver named by a configuration key, when the key names a filter
/// driver's program.
pub fn driver_name(key: &[char]) -> (r: Option<Vec<char>>)
    ensures
        r matches Some(d) ==> filter_driver_name(key@) == Some(d@),
        r is None ==> filter_driver_name(key@) is None,
{
    let lower = lower_chars(key);
    if !starts_with_str(lower.as_slice(), "filter.") {
        return None;
    }
    proof {
        reveal_strlit("filter.");
    }
    let rest = slice_chars(lower.as_slice(), 7, lower.len());
    let suffixes = driver_suffixes_list();
    let mut k: usize = 0;
    while k < suffixes.len()
        invariant
            k <= 4,
            suffixes@ == driver_suffixes(),
            lower@ == lower_seq(key@),
            lower@.len() == key@.len(),
            7 <= key@.len(),
            rest@ == lower_seq(key@).skip(7),
            starts_with(lower@, "filter."@),
            first_suffix_from(rest@, 0) == first_suffix_from(rest@, k as int),
        decreases 4 - k,
    {
        let suffix: &str = suffixes[k];
        if ends_with_str(rest.as_slice(), suffix) {
            let n = chars_of(suffix).len();
            proof {
                assert(suffix@ == driver_suffixes()[k as int]@);
                assert(first_suffix_from(rest@, k as int) == Some(k as int));
            }
            return Some(slice_chars(key, 7, key.len() - n));
        }
        k += 1;
    }
    None
}

/// The UTF-8 byte length of a character sequence.
fn utf8_len(d: &[char]) -> (n: usize)
    ensures
        n == encode_utf8(d@).len(),
{
    let s = string_of(d);
    let b = s.as_str().as_bytes();
    b.len()
}

fn driver_is_invalid(d: &[char]) -> (b: bool)
    ensures
        b == invalid_driver(d@),
{
    if d.len() == 0 || utf8_len(d) > MAX_DRIVER_NAME_BYTES {
        return true;
    }
    let mut i: usize = 0;
    while i < d.len()
        invariant
            i <= d@.len(),
            forall|k: int| 0 <= k < i ==> d@[k] != '=' && !is_control(#[trigger] d@[k]),
        decreases d.len() - i,
    {
        if d[i] == '=' || control(d[i]) {
            proof {
                if d@[i as int] == '=' {
                    assert(d@.contains('='));
                }
            }
            return true;
        }
        i += 1;
    }
    false
}

fn override_string(d: &[char], suffix: &str) -> (s: String)
    ensures
        s@ == "filter."@ + d@ + suffix@,
{
    let mut cs = chars_of("filter.");
    let mut i: usize = 0;
    let ghost base = cs@;
    while i < d.len()
        invariant
            i <= d@.len(),
            cs@ == base + d@.take(i as int),
        decreases d.len() - i,
    {
        cs.push(d[i]);
        proof {
            assert(d@.take(i + 1) =~= d@.take(i as int).push(d@[i as int]));
            assert(cs@ =~= base + d@.take(i + 1));
        }
        i += 1;
    }
    let tail = chars_of(suffix);
    let mut j: usize = 0;
    let ghost mid = cs@;
    while j < tail.len()
        invariant
            j <= tail@.len(),
            cs@ == mid + tail@.take(j as int),
        decreases tail.len() - j,
    {
        cs.push(tail[j]);
        proof {
            assert(tail@.take(j + 1) =~= tail@.take(j as int).push(tail@[j as int]));
            assert(cs@ =~= mid + tail@.take(j + 1));
        }
        j += 1;
    }
    proof {
        assert(d@.take(d@.len() as int) =~= d@);
        assert(tail@.take(tail@.len() as int) =~= tail@);
    }
    string_of(cs.as_slice())
}

/// Parse `git config --null --list` output into `-c` overrides that blank the
/// clean, smudge and process programs of each driver `kind` selects, in driver
/// order.
///
/// Fails closed on a key that is not UTF-8, a driver name that cannot be
/// written as a `-c` override, or more than 256 drivers.
pub fn filter_driver_overrides(listing: &[u8], kind: ConfigListing) -> (r: Result<
    Vec<String>,
    FilterConfigError,
>)
    ensures
        match listing_overrides_spec(listing@, kind) {
            Ok(o) => r matches Ok(v) && string_views(v@) == o,
            Err(e) => r == Err::<Vec<String>, FilterConfigError>(e),
        },
{
    let pieces = split_on_nul(listing);
    let ghost pv = pieces@.map_values(|v: Vec<u8>| v@);
    let ghost es = listing_entries(listing@, kind);
    let n: usize = match kind {
        ConfigListing::Unscoped => pieces.len(),
        ConfigListing::Scoped => pieces.len() / 2,
    };
    proof {
        assert(es.len() == n);
    }
    let mut drivers: Vec<Vec<char>> = Vec::new();
    let mut e: usize = 0;
    proof {
        assert(drivers@.map_values(|v: Vec<char>| v@) =~= Seq::<Seq<char>>::empty());
    }
    while e < n
        invariant
            e <= n,
            n == es.len(),
            pv == split_nul(listing@),
            pv == pieces@.map_values(|v: Vec<u8>| v@),
            es == listing_entries(listing@, kind),
            drivers_upto(es, e as int) == Ok::<Seq<Seq<char>>, FilterConfigError>(
                drivers@.map_values(|v: Vec<char>| v@),
            ),
        decreases n - e,
    {
        let (user_scope, record): (bool, &Vec<u8>) = match kind {
            ConfigListing::Unscoped => (false, &pieces[e]),
            ConfigListing::Scoped => {
                let scope = pieces[2 * e].as_slice();
                (bytes_eq_str(scope, "global") || bytes_eq_str(scope, "system"), &pieces[2 * e
                    + 1])
            },
        };
        proof {
            assert(es[e as int].user_scope == user_scope);
            assert(es[e as int].record == record@);
        }
        let key_len = record_key_len(record.as_slice());
        let key_bytes = slice_bytes(record.as_slice(), key_len);
        let ghost acc = drivers@.map_values(|v: Vec<char>| v@);
        let ghost entry = es[e as int];
        proof {
            assert(key_bytes@ == record_key(entry.record));
            assert(drivers_upto(es, e + 1) == step(
                Ok::<Seq<Seq<char>>, FilterConfigError>(acc),
                entry,
            ));
        }
        let key_str = match str_from_utf8(key_bytes.as_slice()) {
            Some(s) => s,
            None => {
                proof {
                    lemma_drivers_err_sticks(es, e + 1, FilterConfigError::NonUtf8Key);
                }
                return Err(FilterConfigError::NonUtf8Key);
            },
        };
        if !user_scope {
            let key = chars_of(key_str);
            if let Some(d) = driver_name(key.as_slice()) {
                if driver_is_invalid(d.as_slice()) {
                    proof {
                        lemma_drivers_err_sticks(es, e + 1, FilterConfigError::InvalidDriverName);
                    }
                    return Err(FilterConfigError::InvalidDriverName);
                }
                insert_sorted_chars(&mut drivers, d);
                if drivers.len() > MAX_FILTER_DRIVERS {
                    proof {
                        lemma_drivers_err_sticks(es, e + 1, FilterConfigError::TooManyDrivers);
                    }
                    return Err(FilterConfigError::TooManyDrivers);
                }
            }
        }
        e += 1;
    }
    let mut out: Vec<String> = Vec::new();
    let mut k: usize = 0;
    while k < drivers.len()
        invariant
            k <= drivers@.len(),
            string_views(out@) == all_overrides(
                drivers@.map_values(|v: Vec<char>| v@).take(k as int),
            ),
        decreases drivers.len() - k,
    {
        let ghost t = drivers@.map_values(|v: Vec<char>| v@).take(k + 1);
        proof {
            assert(t.drop_last() =~= drivers@.map_values(|v: Vec<char>| v@).take(k as int));
            assert(t.last() == drivers@[k as int]@);
        }
        let d = drivers[k].as_slice();
        out.push(override_string(d, ".clean="));
        out.push(override_string(d, ".smudge="));
        out.push(override_string(d, ".process="));
        out.push(override_string(d, ".required=false"));
        proof {
            assert(string_views(out@) =~= all_overrides(t.drop_last()) + driver_overrides(
                t.last(),
            ));
        }
        k += 1;
    }
    proof {
        assert(drivers@.map_values(|v: Vec<char>| v@).take(drivers@.len() as int)
            =~= drivers@.map_values(|v: Vec<char>| v@));
    }
    Ok(out)
}

/// The first `n` bytes of `b`.
fn slice_bytes(b: &[u8], n: usize) -> (r: Vec<u8>)
    requires
        n <= b@.len(),
    ensures
        r@ == b@.take(n as int),
{
    let mut r: Vec<u8> = Vec::new();
    let mut i: usize = 0;
    while i < n
        invariant
            i <= n <= b@.len(),
            r@ == b@.take(i as int),
        decreases n - i,
    {
        r.push(b[i]);
        proof {
            assert(b@.take(i + 1) =~= b@.take(i as int).push(b@[i as int]));
        }
        i += 1;
    }
    r
}

// ---------------------------------------------------------------------------
// Discovering the drivers of a repository
// ---------------------------------------------------------------------------

/// A finished, bounded `git config --null --list` run.
#[derive(Debug, Clone)]
pub struct ListingRun {
    /// The child exited successfully.
    pub success: bool,
    /// The hard deadline elapsed.
    pub timed_out: bool,
    /// Older stdout bytes were discarded.
    pub stdout_truncated: bool,
    /// The retained stdout.
    pub stdout: Vec<u8>,
}

/// Why the filter drivers of a repository could not be established.
#[derive(Debug, Clone, Copy, PartialEq, Eq, Structural)]
pub enum ListingError {
    /// The listing exceeded its bounded command envelope.
    Envelope,
    /// The listing could not be turned into overrides.
    Filter(FilterConfigError),
    /// Neither listing form could be produced.
    Failed,
}

/// What a finished listing says: `None` when this listing form could not be
/// produced (`--show-scope` predates Git 2.26), an error when it overran its
/// envelope or cannot be parsed, else its overrides.
pub open spec fn listing_result(
    success: bool,
    timed_out: bool,
    truncated: bool,
    stdout: Seq<u8>,
    kind: ConfigListing,
) -> Option<Result<Seq<Seq<char>>, ListingError>> {
    if timed_out || truncated {
        Some(Err(ListingError::Envelope))
    } else if !success {
        None
    } else {
        match listing_overrides_spec(stdout, kind) {
            Ok(o) => Some(Ok(o)),
            Err(e) => Some(Err(ListingError::Filter(e))),
        }
    }
}

/// The overrides of a finished listing, or `None` when this listing form
/// could not be produced.
pub fn listing_overrides(run: &ListingRun, kind: ConfigListing) -> (r: Option<
    Result<Vec<String>, ListingError>,
>)
    ensures
        match listing_result(run.success, run.timed_out, run.stdout_truncated, run.stdout@, kind) {
            None => r is None,
            Some(Err(e)) => r == Some(Err::<Vec<String>, ListingError>(e)),
            Some(Ok(o)) => r matches Some(Ok(v)) && string_views(v@) == o,
        },
{
    if run.timed_out || run.stdout_truncated {
        return Some(Err(ListingError::Envelope));
    }
    if !run.success {
        return None;
    }
    match filter_driver_overrides(run.stdout.as_slice(), kind) {
        Ok(v) => Some(Ok(v)),
        Err(e) => Some(Err(ListingError::Filter(e))),
    }
}

/// Whether the repository itself, rather than the user's global or system
/// configuration, defines a filter driver: decided from a scoped listing, or,
/// when Git cannot produce one, from a plain listing of every driver.
///
/// `None` asks for the plain listing: the scoped one could not be produced and
/// `unscoped` was not given.
pub fn repository_defines_filters(scoped: &ListingRun, unscoped: Option<&ListingRun>) -> (r: Option<
    Result<bool, ListingError>,
>)
    ensures
        match listing_result(
            scoped.success,
            scoped.timed_out,
            scoped.stdout_truncated,
            scoped.stdout@,
            ConfigListing::Scoped,
        ) {
            Some(Ok(o)) => r == Some(Ok::<bool, ListingError>(o.len() > 0)),
            Some(Err(e)) => r == Some(Err::<bool, ListingError>(e)),
            None => match unscoped {
                None => r is None,
                Some(u) => match listing_result(
                    u.success,
                    u.timed_out,
                    u.stdout_truncated,
                    u.stdout@,
                    ConfigListing::Unscoped,
                ) {
                    Some(Ok(o)) => r == Some(Ok::<bool, ListingError>(o.len() > 0)),
                    Some(Err(e)) => r == Some(Err::<bool, ListingError>(e)),
                    None => r == Some(Err::<bool, ListingError>(ListingError::Failed)),
                },
            },
        },
{
    match listing_overrides(scoped, ConfigListing::Scoped) {
        Some(Ok(v)) => Some(Ok(v.len() > 0)),
        Some(Err(e)) => Some(Err(e)),
        None => match unscoped {
            None => None,
            Some(u) => match listing_overrides(u, ConfigListing::Unscoped) {
                Some(Ok(v)) => Some(Ok(v.len() > 0)),
                Some(Err(e)) => Some(Err(e)),
                None => Some(Err(ListingError::Failed)),
            },
        },
    }
}

// ---------------------------------------------------------------------------
// Hardened command line
// ---------------------------------------------------------------------------

/// The configuration that points Git's hooks at the null device.
pub open spec fn inert_hooks(windows: bool) -> Seq<char> {
    if windows {
        "core.hooksPath=NUL"@
    } else {
        "core.hooksPath=/dev/null"@
    }
}

/// The configuration that points the global attributes file at the null
/// device.
pub open spec fn empty_attributes(windows: bool) -> Seq<char> {
    if windows {
        "core.attributesFile=NUL"@
    } else {
        "core.attributesFile=/dev/null"@
    }
}

/// The fixed options of every hardened `git` child, before the filter
/// overrides: no pager, literal pathspecs, no optional locks for a read-only
/// child, and the `-c` settings that disable fsmonitor, hooks, attributes,
/// signing, automatic gc and every transport.
pub open spec fn hardened_prefix(access: GitAccess, windows: bool) -> Seq<Seq<char>> {
    seq!["--no-pager"@, "--literal-pathspecs"@] + (if access == GitAccess::ReadOnly {
        seq!["--no-optional-locks"@]
    } else {
        seq![]
    }) + seq![
        "-c"@,
        "core.fsmonitor=false"@,
        "-c"@,
        inert_hooks(windows),
        "-c"@,
        empty_attributes(windows),
        "-c"@,
        "commit.gpgSign=false"@,
        "-c"@,
        "tag.gpgSign=false"@,
        "-c"@,
        "gc.auto=0"@,
        "-c"@,
        "protocol.allow=never"@,
    ]
}

/// Each override as a `-c` pair.
pub open spec fn override_args(overrides: Seq<Seq<char>>) -> Seq<Seq<char>>
    decreases overrides.len(),
{
    if overrides.len() == 0 {
        seq![]
    } else {
        override_args(overrides.drop_last()) + seq!["-c"@, overrides.last()]
    }
}

fn push_strs(out: &mut Vec<String>, parts: &[&str])
    ensures
        string_views(final(out)@) == string_views(old(out)@) + parts@.map_values(|p: &str| p@),
{
    let ghost start = string_views(out@);
    let mut i: usize = 0;
    while i < parts.len()
        invariant
            i <= parts@.len(),
            string_views(out@) == start + parts@.take(i as int).map_values(|p: &str| p@),
        decreases parts.len() - i,
    {
        let ghost prev = string_views(out@);
        out.push(parts[i].to_owned());
        proof {
            assert(string_views(out@) =~= prev.push(parts@[i as int]@));
            assert(parts@.take(i + 1).map_values(|p: &str| p@) =~= parts@.take(i as int).map_values(
                |p: &str| p@,
            ).push(parts@[i as int]@));
        }
        i += 1;
    }
    proof {
        assert(parts@.take(parts@.len() as int) =~= parts@);
    }
}

/// The options of a hardened `git` child (everything before `-C <root>`):
/// the fixed hardening, then a `-c` pair for each filter override.
pub fn hardened_git_args(access: GitAccess, overrides: &[String], windows: bool) -> (r: Vec<String>)
    ensures
        string_views(r@) == hardened_prefix(access, windows) + override_args(
            string_views(overrides@),
        ),
{
    let mut r: Vec<String> = Vec::new();
    let lead: &[&str; 2] = &["--no-pager", "--literal-pathspecs"];
    push_strs(&mut r, lead);
    if access == GitAccess::ReadOnly {
        let ro: &[&str; 1] = &["--no-optional-locks"];
        push_strs(&mut r, ro);
    }
    let hooks: &str = if windows {
        "core.hooksPath=NUL"
    } else {
        "core.hooksPath=/dev/null"
    };
    let attributes: &str = if windows {
        "core.attributesFile=NUL"
    } else {
        "core.attributesFile=/dev/null"
    };
    let settings: [&str; 14] = [
        "-c",
        "core.fsmonitor=false",
        "-c",
        hooks,
        "-c",
        attributes,
        "-c",
        "commit.gpgSign=false",
        "-c",
        "tag.gpgSign=false",
        "-c",
        "gc.auto=0",
        "-c",
        "protocol.allow=never",
    ];
    push_strs(&mut r, &settings);
    proof {
        assert(lead@.map_values(|p: &str| p@) =~= seq!["--no-pager"@, "--literal-pathspecs"@]);
        assert(settings@.map_values(|p: &str| p@) =~= seq![
            "-c"@,
            "core.fsmonitor=false"@,
            "-c"@,
            inert_hooks(windows),
            "-c"@,
            empty_attributes(windows),
            "-c"@,
            "commit.gpgSign=false"@,
            "-c"@,
            "tag.gpgSign=false"@,
            "-c"@,
            "gc.auto=0"@,
            "-c"@,
            "protocol.allow=never"@,
        ]);
        if access == GitAccess::ReadOnly {
            assert(string_views(r@) =~= hardened_prefix(access, windows));
        } else {
            assert(string_views(r@) =~= hardened_prefix(access, windows));
        }
    }
    let ghost base = string_views(r@);
    let mut i: usize = 0;
    proof {
        assert(string_views(overrides@).take(0) =~= Seq::<Seq<char>>::empty());
        assert(base + override_args(Seq::<Seq<char>>::empty()) =~= base);
    }
    while i < overrides.len()
        invariant
            i <= overrides@.len(),
            string_views(r@) == base + override_args(string_views(overrides@).take(i as int)),
        decreases overrides.len() - i,
    {
        let ghost prev = string_views(r@);
        r.push("-c".to_owned());
        r.push(overrides[i].clone());
        proof {
            let t = string_views(overrides@).take(i + 1);
            assert(t.drop_last() =~= string_views(overrides@).take(i as int));
            assert(t.last() == overrides@[i as int]@);
            assert(string_views(r@) =~= prev + seq!["-c"@, overrides@[i as int]@]);
        }
        i += 1;
    }
    proof {
        assert(string_views(overrides@).take(overrides@.len() as int) =~= string_views(overrides@));
    }
    r
}

/// The environment every hardened `git` child gets: no system configuration
/// or attributes, no lazy fetch, no prompts, and `cat` as the pager.
pub fn hardened_git_env() -> (r: Vec<(&'static str, &'static str)>)
    ensures
        r@ == seq![
            ("GIT_CONFIG_NOSYSTEM", "1"),
            ("GIT_ATTR_NOSYSTEM", "1"),
            ("GIT_NO_LAZY_FETCH", "1"),
            ("GIT_TERMINAL_PROMPT", "0"),
            ("GCM_INTERACTIVE", "Never"),
            ("GIT_PAGER", "cat"),
        ],
{
    let mut r: Vec<(&'static str, &'static str)> = Vec::new();
    r.push(("GIT_CONFIG_NOSYSTEM", "1"));
    r.push(("GIT_ATTR_NOSYSTEM", "1"));
    r.push(("GIT_NO_LAZY_FETCH", "1"));
    r.push(("GIT_TERMINAL_PROMPT", "0"));
    r.push(("GCM_INTERACTIVE", "Never"));
    r.push(("GIT_PAGER", "cat"));
    proof {
        assert(r@ =~= seq![
            ("GIT_CONFIG_NOSYSTEM", "1"),
            ("GIT_ATTR_NOSYSTEM", "1"),
            ("GIT_NO_LAZY_FETCH", "1"),
            ("GIT_TERMINAL_PROMPT", "0"),
            ("GCM_INTERACTIVE", "Never"),
            ("GIT_PAGER", "cat"),
        ]);
    }
    r
}

/// The arguments of a configuration listing (after `-C <root>`): a plain
/// listing, or one that also names each entry's scope.
pub fn config_listing_args(kind: ConfigListing) -> (r: Vec<String>)
    ensures
        string_views(r@) == seq!["config"@, "--null"@, "--list"@, "--includes"@] + (if kind
            == ConfigListing::Scoped {
            seq!["--show-scope"@]
        } else {
            seq![]
        }),
{
    let mut r: Vec<String> = Vec::new();
    let base: &[&str; 4] = &["config", "--null", "--list", "--includes"];
    push_strs(&mut r, base);
    proof {
        assert(base@.map_values(|p: &str| p@) =~= seq!["config"@, "--null"@, "--list"@, "--includes"@]);
    }
    if kind == ConfigListing::Scoped {
        let scope: &[&str; 1] = &["--show-scope"];
        push_strs(&mut r, scope);
        proof {
            assert(scope@.map_values(|p: &str| p@) =~= seq!["--show-scope"@]);
        }
    }
    proof {
        assert(string_views(r@) =~= seq!["config"@, "--null"@, "--list"@, "--includes"@] + (if kind
            == ConfigListing::Scoped {
            seq!["--show-scope"@]
        } else {
            seq![]
        }));
    }
    r
}

/// Whether an environment variable is removed from every hardened child:
/// anything Git reads (`GIT_*`, in any case), and `EMAIL`, `SSH_ASKPASS` and
/// `GCM_INTERACTIVE`, including variables newer than this build knows.
pub open spec fn git_environment_key(key: Seq<char>) -> bool {
    let upper = crate::text::upper_seq(key);
    starts_with(upper, "GIT_"@) || upper == "EMAIL"@ || upper == "SSH_ASKPASS"@ || upper
        == "GCM_INTERACTIVE"@
}

/// Whether a hardened child drops the environment variable `key`.
pub fn removes_git_environment_key(key: &str) -> (b: bool)
    ensures
        b == git_environment_key(key@),
{
    let upper = crate::text::upper_chars(chars_of(key).as_slice());
    starts_with_str(upper.as_slice(), "GIT_") || crate::text::chars_eq_str(upper.as_slice(), "EMAIL")
        || crate::text::chars_eq_str(upper.as_slice(), "SSH_ASKPASS")
        || crate::text::chars_eq_str(upper.as_slice(), "GCM_INTERACTIVE")
}

// ---------------------------------------------------------------------------
// Laws
// ---------------------------------------------------------------------------

proof fn lemma_drivers_ascending(es: Seq<ListingEntry>, n: int)
    requires
        0 <= n <= es.len(),
    ensures
        drivers_upto(es, n) matches Ok(ds) ==> strictly_ascending(ds),
    decreases n,
{
    if n > 0 {
        lemma_drivers_ascending(es, n - 1);
        match drivers_upto(es, n - 1) {
            Ok(ds) => {
                let key = record_key(es[n - 1].record);
                match filter_driver_name(decode_utf8(key)) {
                    Some(d) => {
                        lemma_insert_sorted_shape(ds, d);
                    },
                    None => {},
                }
            },
            Err(_) => {},
        }
    }
}

proof fn lemma_all_overrides_len(ds: Seq<Seq<char>>)
    ensures
        all_overrides(ds).len() == 4 * ds.len(),
    decreases ds.len(),
{
    if ds.len() > 0 {
        lemma_all_overrides_len(ds.drop_last());
    }
}

/// Each selected driver is blanked exactly once and in code-point order: a
/// listing's overrides are the four program overrides of each driver of a
/// strictly ascending driver list, and nothing else.
pub proof fn law_each_driver_blanked_once(listing: Seq<u8>, kind: ConfigListing)
    ensures
        listing_overrides_spec(listing, kind) matches Ok(o) ==> exists|ds: Seq<Seq<char>>|
            strictly_ascending(ds) && o == all_overrides(ds) && o.len() == 4 * ds.len(),
{
    let es = listing_entries(listing, kind);
    lemma_drivers_ascending(es, es.len() as int);
    match drivers_upto(es, es.len() as int) {
        Ok(ds) => {
            lemma_all_overrides_len(ds);
        },
        Err(_) => {},
    }
}

/// The driver an entry names, when it counts: outside the user's own
/// scopes, with a UTF-8 key of the form `filter.<driver>.<program>`.
pub open spec fn entry_driver(e: ListingEntry) -> Option<Seq<char>> {
    let key = record_key(e.record);
    if e.user_scope || !valid_utf8(key) {
        None
    } else {
        filter_driver_name(decode_utf8(key))
    }
}

/// Some entry among the first `n` names the driver `x`.
pub open spec fn names_driver(es: Seq<ListingEntry>, n: int, x: Seq<char>) -> bool {
    exists|i: int| 0 <= i < n && #[trigger] entry_driver(es[i]) == Some(x)
}

proof fn lemma_insert_sorted_members(ds: Seq<Seq<char>>, d: Seq<char>, x: Seq<char>)
    ensures
        insert_sorted(ds, d).contains(x) <==> (ds.contains(x) || x == d),
    decreases ds.len(),
{
    let r = insert_sorted(ds, d);
    if ds.len() == 0 {
        assert(r == seq![d]);
        if r.contains(x) {
            let i = choose|i: int| 0 <= i < r.len() && r[i] == x;
        }
        if x == d {
            assert(r[0] == d);
        }
    } else if ds[0] == d {
        if x == d {
            assert(ds[0] == x);
        }
    } else if lex_lt(d, ds[0]) {
        let w = seq![d] + ds;
        if w.contains(x) {
            let i = choose|i: int| 0 <= i < w.len() && w[i] == x;
            if i > 0 {
                assert(ds[i - 1] == x);
            }
        }
        if ds.contains(x) {
            let i = choose|i: int| 0 <= i < ds.len() && ds[i] == x;
            assert(w[i + 1] == x);
        }
        if x == d {
            assert(w[0] == x);
        }
    } else {
        let t = ds.drop_first();
        lemma_insert_sorted_members(t, d, x);
        let w = seq![ds[0]] + insert_sorted(t, d);
        if w.contains(x) {
            let i = choose|i: int| 0 <= i < w.len() && w[i] == x;
            if i > 0 {
                assert(insert_sorted(t, d)[i - 1] == x);
                if t.contains(x) {
                    let j = choose|j: int| 0 <= j < t.len() && t[j] == x;
                    assert(ds[j + 1] == x);
                }
            } else {
                assert(ds[0] == x);
            }
        }
        if ds.contains(x) {
            let i = choose|i: int| 0 <= i < ds.len() && ds[i] == x;
            if i == 0 {
                assert(w[0] == x);
            } else {
                assert(t[i - 1] == x);
                assert(insert_sorted(t, d).contains(x));
                let j = choose|j: int| 0 <= j < insert_sorted(t, d).len() && insert_sorted(t, d)[j] == x;
                assert(w[j + 1] == x);
            }
        }
        if x == d {
            assert(insert_sorted(t, d).contains(x));
            let j = choose|j: int| 0 <= j < insert_sorted(t, d).len() && insert_sorted(t, d)[j] == x;
            assert(w[j + 1] == x);
        }
    }
}

proof fn lemma_drivers_are_the_named_ones(es: Seq<ListingEntry>, n: int)
    requires
        0 <= n <= es.len(),
    ensures
        drivers_upto(es, n) matches Ok(ds) ==> ds.len() <= MAX_FILTER_DRIVERS && forall|x: Seq<char>|
            #[trigger] ds.contains(x) <==> names_driver(es, n, x),
    decreases n,
{
    if n > 0 {
        lemma_drivers_are_the_named_ones(es, n - 1);
        match drivers_upto(es, n - 1) {
            Ok(pds) => {
                let e = es[n - 1];
                match drivers_upto(es, n) {
                    Ok(ds) => {
                        assert forall|x: Seq<char>| #[trigger] ds.contains(x) <==> names_driver(es, n, x) by {
                            if names_driver(es, n, x) {
                                let i = choose|i: int| 0 <= i < n && #[trigger] entry_driver(es[i]) == Some(x);
                                if i < n - 1 {
                                    assert(names_driver(es, n - 1, x));
                                }
                            }
                            if names_driver(es, n - 1, x) {
                                let i = choose|i: int| 0 <= i < n - 1 && #[trigger] entry_driver(es[i]) == Some(x);
                                assert(names_driver(es, n, x));
                            }
                            match entry_driver(e) {
                                Some(d) => {
                                    lemma_insert_sorted_members(pds, d, x);
                                    if x == d {
                                        assert(entry_driver(es[n - 1]) == Some(x));
                                    }
                                },
                                None => {},
                            }
                            if names_driver(es, n, x) && !names_driver(es, n - 1, x) {
                                let i = choose|i: int| 0 <= i < n && #[trigger] entry_driver(es[i]) == Some(x);
                                assert(i == n - 1);
                            }
                        }
                    },
                    Err(_) => {},
                }
            },
            Err(_) => {},
        }
    }
}

/// The overrides blank exactly the drivers the listing names, each once, in
/// code-point order, and at most [`MAX_FILTER_DRIVERS`] of them: the result
/// is the four program overrides of each driver named by an entry outside
/// the user's own scopes (every entry of an unscoped listing), and nothing
/// else.
pub proof fn law_overrides_blank_exactly_the_named_drivers(listing: Seq<u8>, kind: ConfigListing)
    ensures
        listing_overrides_spec(listing, kind) matches Ok(o) ==> exists|ds: Seq<Seq<char>>|
            strictly_ascending(ds) && ds.len() <= MAX_FILTER_DRIVERS && (forall|x: Seq<char>|
                #[trigger] ds.contains(x) <==> names_driver(
                    listing_entries(listing, kind),
                    listing_entries(listing, kind).len() as int,
                    x,
                )) && o == #[trigger] all_overrides(ds),
{
    let es = listing_entries(listing, kind);
    lemma_drivers_ascending(es, es.len() as int);
    lemma_drivers_are_the_named_ones(es, es.len() as int);
}

} // verus!
