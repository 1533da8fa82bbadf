//! Decisions behind the cross-process lock directories of the memory stores:
//! reading an owner marker, the age of a lock, and when a lock is stale.
//!
//! A lock is a directory holding an `owner` marker (`<created-ms>\n<nonce>`)
//! and a lease file. Reclaiming one is decided here from plain values; the
//! directory work is done by the caller.

use vstd::prelude::*;
use vstd::utf8::{decode_utf8, encode_utf8, valid_utf8};

use crate::git::str_from_utf8;
use crate::numerals::{append_chars, decimal, decimal_chars, digit_char, hex, hex_chars, lemma_decimal_digits};
use crate::text::{chars_of, is_digit, slice_chars, string_of};

verus! {

/// The value of a run of ASCII decimal digits.
pub open spec fn digits_value(d: Seq<char>) -> int
    decreases d.len(),
{
    if d.len() == 0 {
        0
    } else {
        digits_value(d.drop_last()) * 10 + ((d.last() as u32) - 0x30)
    }
}

/// The digits of an unsigned number: `s` without one leading `+`.
pub open spec fn unsigned_digits(s: Seq<char>) -> Seq<char> {
    if s.len() > 0 && s[0] == '+' {
        s.drop_first()
    } else {
        s
    }
}

/// Every character of `d` is an ASCII digit.
pub open spec fn all_digits(d: Seq<char>) -> bool {
    forall|i: int| 0 <= i < d.len() ==> is_digit(#[trigger] d[i])
}

/// `u64::from_str`: an optional `+`, then at least one ASCII digit, and a
/// value that fits.
pub open spec fn parse_u64(s: Seq<char>) -> Option<u64> {
    let d = unsigned_digits(s);
    if d.len() == 0 || !all_digits(d) {
        None
    } else if digits_value(d) > u64::MAX {
        None
    } else {
        Some(digits_value(d) as u64)
    }
}

proof fn lemma_digits_value_nonneg(d: Seq<char>)
    requires
        forall|i: int| 0 <= i < d.len() ==> is_digit(#[trigger] d[i]),
    ensures
        digits_value(d) >= 0,
    decreases d.len(),
{
    if d.len() > 0 {
        assert forall|i: int| 0 <= i < d.drop_last().len() implies is_digit(#[trigger] d.drop_last()[i]) by {
            assert(d.drop_last()[i] == d[i]);
        }
        lemma_digits_value_nonneg(d.drop_last());
        assert(is_digit(d.last()));
    }
}

/// Parse an unsigned decimal integer as `u64::from_str` does.
pub fn parse_decimal_u64(s: &[char]) -> (r: Option<u64>)
    ensures
        r == parse_u64(s@),
{
    let start: usize = if s.len() > 0 && s[0] == '+' {
        1
    } else {
        0
    };
    let ghost d = unsigned_digits(s@);
    proof {
        assert(d =~= s@.skip(start as int));
    }
    if start == s.len() {
        return None;
    }
    let mut value: u64 = 0;
    let mut i: usize = start;
    let mut overflow = false;
    while i < s.len()
        invariant
            start <= i <= s@.len(),
            d == s@.skip(start as int),
            d == unsigned_digits(s@),
            d.len() > 0,
            forall|k: int| 0 <= k < i - start ==> is_digit(#[trigger] d[k]),
            !overflow ==> value == digits_value(d.take(i - start)),
            overflow ==> digits_value(d.take(i - start)) > u64::MAX,
        decreases s.len() - i,
    {
        let c = s[i];
        if !(0x30 <= (c as u32) && (c as u32) <= 0x39) {
            proof {
                assert(d[i - start] == c);
                assert(!is_digit(d[i - start]));
                assert(!all_digits(d));
            }
            return None;
        }
        let digit: u64 = ((c as u32) - 0x30) as u64;
        let ghost t = d.take(i - start + 1);
        proof {
            assert(d[i - start] == c);
            assert(t.drop_last() =~= d.take(i - start));
            assert(t.last() == c);
            assert(digits_value(t) == digits_value(d.take(i - start)) * 10 + digit);
        }
        if !overflow {
            if value > (u64::MAX - digit) / 10 {
                overflow = true;
                proof {
                    assert(digits_value(t) > u64::MAX) by (nonlinear_arith)
                        requires
                            value > (u64::MAX - digit) / 10,
                            digits_value(t) == value * 10 + digit,
                            digit <= 9,
                    ;
                }
            } else {
                proof {
                    assert(value * 10 + digit <= u64::MAX) by (nonlinear_arith)
                        requires
                            value <= (u64::MAX - digit) / 10,
                            digit <= 9,
                    ;
                }
                value = value * 10 + digit;
            }
        } else {
            proof {
                lemma_digits_value_nonneg(d.take(i - start));
                assert(digits_value(t) > u64::MAX) by (nonlinear_arith)
                    requires
                        digits_value(d.take(i - start)) > u64::MAX,
                        digits_value(t) == digits_value(d.take(i - start)) * 10 + digit,
                        digit <= 9,
                ;
            }
        }
        i += 1;
    }
    proof {
        assert(d.take(d.len() as int) =~= d);
        assert(all_digits(d));
    }
    if overflow {
        None
    } else {
        Some(value)
    }
}

/// The position of the first newline in `t`, if any.
pub open spec fn first_newline(t: Seq<char>) -> Option<int> {
    if exists|i: int| 0 <= i < t.len() && t[i] == '\n' {
        Some(choose|i: int| 0 <= i < t.len() && t[i] == '\n' && forall|j: int| 0 <= j < i ==> t[j] != '\n')
    } else {
        None
    }
}

/// What an owner marker `<created-ms>\n<nonce>` says: its creation stamp and
/// nonce, when the marker is UTF-8, the stamp a decimal `u64`, and the nonce
/// a non-empty single line.
pub open spec fn lock_owner(bytes: Seq<u8>) -> Option<(u64, Seq<char>)> {
    if !valid_utf8(bytes) {
        None
    } else {
        let t = decode_utf8(bytes);
        match first_newline(t) {
            None => None,
            Some(k) => {
                let nonce = t.skip(k + 1);
                match parse_u64(t.take(k)) {
                    None => None,
                    Some(stamp) => if nonce.len() == 0 || nonce.contains('\n') {
                        None
                    } else {
                        Some((stamp, nonce))
                    },
                }
            },
        }
    }
}

/// Read an owner marker: its creation stamp (ms) and nonce.
#[verifier::loop_isolation(false)]
pub fn parse_lock_owner(bytes: &[u8]) -> (r: Option<(u64, Vec<char>)>)
    ensures
        match lock_owner(bytes@) {
            None => r is None,
            Some((stamp, nonce)) => r matches Some((s, n)) && s == stamp && n@ == nonce,
        },
{
    let text = match str_from_utf8(bytes) {
        None => {
            return None;
        },
        Some(t) => t,
    };
    let t = chars_of(text);
    let mut k: usize = 0;
    while k < t.len() && t[k] != '\n'
        invariant
            k <= t@.len(),
            forall|j: int| 0 <= j < k ==> t@[j] != '\n',
        decreases t.len() - k,
    {
        k += 1;
    }
    if k == t.len() {
        proof {
            assert(!(exists|i: int| 0 <= i < t@.len() && t@[i] == '\n'));
        }
        return None;
    }
    proof {
        let c = choose|i: int| 0 <= i < t@.len() && t@[i] == '\n' && forall|j: int| 0 <= j < i ==> t@[j] != '\n';
        assert(t@[k as int] == '\n');
        if c < k {
            assert(t@[c] != '\n');
        }
        if c > k {
            assert(t@[k as int] != '\n');
        }
        assert(first_newline(t@) == Some(k as int));
    }
    let stamp_chars = slice_chars(t.as_slice(), 0, k);
    let nonce = slice_chars(t.as_slice(), k + 1, t.len());
    proof {
        assert(stamp_chars@ =~= t@.take(k as int));
        assert(nonce@ =~= t@.skip(k + 1));
    }
    let stamp = match parse_decimal_u64(stamp_chars.as_slice()) {
        None => {
            return None;
        },
        Some(v) => v,
    };
    if nonce.len() == 0 {
        return None;
    }
    let mut j: usize = 0;
    while j < nonce.len()
        invariant
            j <= nonce@.len(),
            forall|q: int| 0 <= q < j ==> nonce@[q] != '\n',
        decreases nonce.len() - j,
    {
        if nonce[j] == '\n' {
            proof {
                assert(nonce@.contains('\n'));
            }
            return None;
        }
        j += 1;
    }
    Some((stamp, nonce))
}

/// How old a lock is: measured from its owner stamp unless that lies beyond
/// the tolerated clock skew, else from the directory's modification time;
/// unknown when neither is available. An age never goes below zero.
pub open spec fn lock_age(owner_stamp: Option<u64>, modified_ms: Option<u64>, now: u64, skew: u64) -> Option<u64> {
    let limit = now.saturating_add(skew);
    let created = match owner_stamp {
        Some(s) => if s <= limit {
            Some(s)
        } else {
            modified_ms
        },
        None => modified_ms,
    };
    match created {
        Some(c) => Some(now.saturating_sub(c)),
        None => None,
    }
}

/// The age of a lock directory, in milliseconds (see [`lock_age`]).
pub fn lock_age_ms(owner_stamp: Option<u64>, modified_ms: Option<u64>, now: u64, skew: u64) -> (r: Option<u64>)
    ensures
        r == lock_age(owner_stamp, modified_ms, now, skew),
{
    let limit = now.saturating_add(skew);
    let created = match owner_stamp {
        Some(s) => if s <= limit {
            Some(s)
        } else {
            modified_ms
        },
        None => modified_ms,
    };
    match created {
        Some(c) => Some(now.saturating_sub(c)),
        None => None,
    }
}

/// Whether a lock may be reclaimed: only one of known age older than the
/// limit. A lock of unknown age is never stale.
pub fn lock_is_stale(age: Option<u64>, stale_after_ms: u64) -> (b: bool)
    ensures
        b == (age matches Some(a) && a > stale_after_ms),
{
    match age {
        Some(a) => a > stale_after_ms,
        None => false,
    }
}

/// Whether a store-lock owner record can be trusted: the known version and a
/// nonce of 1 to 192 UTF-8 bytes.
pub fn store_lock_owner_valid(version: u8, nonce: &str) -> (b: bool)
    ensures
        b == (version == 1 && 0 < vstd::utf8::encode_utf8(nonce@).len() <= 192),
{
    let n = nonce.as_bytes().len();
    version == 1 && n > 0 && n <= 192
}

/// A stamp from the future beyond the skew is not believed; a lock whose age
/// cannot be established is never reclaimed.
pub proof fn law_untrusted_age_never_reclaims(stamp: u64, now: u64, skew: u64, stale_after: u64)
    requires
        stamp > now + skew,
        now + skew <= u64::MAX,
    ensures
        lock_age(Some(stamp), None, now, skew) is None,
{
}

/// Whether an owner marker names the holder with `nonce`: a lock is
/// released, or cleaned up after a failed lease, only while this holds, so a
/// successor's lock is never removed.
pub fn owner_matches(bytes: &[u8], nonce: &str) -> (b: bool)
    ensures
        b == (lock_owner(bytes@) matches Some((_, n)) && n == nonce@),
{
    match parse_lock_owner(bytes) {
        Some((_, seen)) => crate::text::chars_eq_str(seen.as_slice(), nonce),
        None => false,
    }
}

/// Reading back the decimal spelling of `n` gives `n`.
pub proof fn lemma_decimal_value(n: nat)
    ensures
        digits_value(decimal(n)) == n,
    decreases n,
{
    let d = decimal(n);
    let r = n % 10;
    assert((digit_char(r) as u32) == 48 + r);
    if n >= 10 {
        lemma_decimal_value(n / 10);
        assert(d.drop_last() =~= decimal(n / 10));
        assert(d.last() == digit_char(r));
        assert(n == (n / 10) * 10 + r) by (nonlinear_arith)
            requires
                r == n % 10,
        ;
    } else {
        assert(d.drop_last() =~= Seq::<char>::empty());
        assert(digits_value(Seq::<char>::empty()) == 0);
        assert(d.last() == digit_char(n));
    }
}

/// A nonce an owner marker can carry: non-empty and on one line.
pub open spec fn owner_nonce_ok(nonce: Seq<char>) -> bool {
    nonce.len() > 0 && !nonce.contains('\n')
}

/// The owner marker a holder writes: its creation stamp in decimal, a
/// newline, and its nonce.
pub open spec fn owner_record_spec(stamp: u64, nonce: Seq<char>) -> Seq<char> {
    decimal(stamp as nat) + seq!['\n'] + nonce
}

/// Write an owner marker.
pub fn owner_record(stamp: u64, nonce: &str) -> (r: String)
    ensures
        r@ == owner_record_spec(stamp, nonce@),
{
    let mut out = decimal_chars(stamp as u128);
    out.push('\n');
    append_chars(&mut out, chars_of(nonce).as_slice());
    proof {
        assert(out@ =~= owner_record_spec(stamp, nonce@));
    }
    string_of(out.as_slice())
}

/// What a holder writes into its owner marker is what every reader of the
/// marker gets back: the same stamp and the same nonce.
pub proof fn law_owner_record_reads_back(stamp: u64, nonce: Seq<char>)
    requires
        owner_nonce_ok(nonce),
    ensures
        lock_owner(encode_utf8(owner_record_spec(stamp, nonce))) == Some((stamp, nonce)),
{
    broadcast use vstd::utf8::encode_utf8_valid_utf8, vstd::utf8::encode_utf8_decode_utf8;
    let d = decimal(stamp as nat);
    let t = owner_record_spec(stamp, nonce);
    lemma_decimal_digits(stamp as nat);
    lemma_decimal_value(stamp as nat);
    assert(decode_utf8(encode_utf8(t)) == t);
    let k = d.len() as int;
    assert(t[k] == '\n');
    assert forall|j: int| 0 <= j < k implies t[j] != '\n' by {
        assert(t[j] == d[j]);
        assert(48 <= (d[j] as u32) <= 57);
    }
    assert(exists|i: int| 0 <= i < t.len() && t[i] == '\n');
    let c = choose|i: int| 0 <= i < t.len() && t[i] == '\n' && forall|j: int| 0 <= j < i ==> t[j] != '\n';
    assert(c == k) by {
        if c < k {
            assert(t[c] != '\n');
        }
        if c > k {
            assert(t[k] != '\n');
        }
    }
    assert(first_newline(t) == Some(k));
    assert(t.take(k) =~= d);
    assert(t.skip(k + 1) =~= nonce);
    assert(unsigned_digits(d) == d) by {
        assert(48 <= (d[0] as u32) <= 57);
    }
    assert forall|i: int| 0 <= i < d.len() implies is_digit(#[trigger] d[i]) by {
        assert(48 <= (d[i] as u32) <= 57);
    }
    assert(parse_u64(d) == Some(stamp));
}

/// The nonce of a memory-policy or lifecycle lock holder: its process id,
/// the time in milliseconds and a per-process sequence number, in decimal,
/// joined by `-`.
pub open spec fn holder_nonce_spec(pid: u32, now_ms: u64, seq_no: u64) -> Seq<char> {
    decimal(pid as nat) + seq!['-'] + decimal(now_ms as nat) + seq!['-'] + decimal(seq_no as nat)
}

/// Make a holder nonce.
pub fn holder_nonce(pid: u32, now_ms: u64, seq_no: u64) -> (r: String)
    ensures
        r@ == holder_nonce_spec(pid, now_ms, seq_no),
{
    let mut out = decimal_chars(pid as u128);
    out.push('-');
    append_chars(&mut out, decimal_chars(now_ms as u128).as_slice());
    out.push('-');
    append_chars(&mut out, decimal_chars(seq_no as u128).as_slice());
    proof {
        assert(out@ =~= holder_nonce_spec(pid, now_ms, seq_no));
    }
    string_of(out.as_slice())
}

/// Every holder nonce fits an owner marker, so a holder always recognises
/// its own lock.
pub proof fn law_holder_nonces_fit_owner_records(pid: u32, now_ms: u64, seq_no: u64)
    ensures
        owner_nonce_ok(holder_nonce_spec(pid, now_ms, seq_no)),
        lock_owner(encode_utf8(owner_record_spec(now_ms, holder_nonce_spec(pid, now_ms, seq_no))))
            == Some((now_ms, holder_nonce_spec(pid, now_ms, seq_no))),
{
    let a = decimal(pid as nat);
    let b = decimal(now_ms as nat);
    let c = decimal(seq_no as nat);
    lemma_decimal_digits(pid as nat);
    lemma_decimal_digits(now_ms as nat);
    lemma_decimal_digits(seq_no as nat);
    let n = holder_nonce_spec(pid, now_ms, seq_no);
    assert forall|i: int| 0 <= i < n.len() implies n[i] != '\n' by {
        if i < a.len() {
            assert(n[i] == a[i]);
            assert(48 <= (a[i] as u32) <= 57);
        } else if i == a.len() {
            assert(n[i] == '-');
        } else if i < a.len() + 1 + b.len() {
            assert(n[i] == b[i - a.len() - 1]);
            assert(48 <= (b[i - a.len() - 1] as u32) <= 57);
        } else if i == a.len() + 1 + b.len() {
            assert(n[i] == '-');
        } else {
            assert(n[i] == c[i - a.len() - 2 - b.len()]);
            assert(48 <= (c[i - a.len() - 2 - b.len()] as u32) <= 57);
        }
    }
    law_owner_record_reads_back(now_ms, n);
}

/// The nonce of a memory-store lock holder: the store's id, then its
/// process id, the time in nanoseconds and a per-process sequence number,
/// each in lower-case hexadecimal, joined by `-`.
pub open spec fn store_holder_nonce_spec(tag: Seq<char>, pid: u32, nanos: u128, seq_no: u64) -> Seq<char> {
    tag + seq!['-'] + hex(pid as nat) + seq!['-'] + hex(nanos as nat) + seq!['-'] + hex(seq_no as nat)
}

/// Make a memory-store holder nonce.
pub fn store_holder_nonce(tag: &str, pid: u32, nanos: u128, seq_no: u64) -> (r: String)
    ensures
        r@ == store_holder_nonce_spec(tag@, pid, nanos, seq_no),
{
    let mut out = chars_of(tag);
    out.push('-');
    append_chars(&mut out, hex_chars(pid as u128).as_slice());
    out.push('-');
    append_chars(&mut out, hex_chars(nanos).as_slice());
    out.push('-');
    append_chars(&mut out, hex_chars(seq_no as u128).as_slice());
    proof {
        assert(out@ =~= store_holder_nonce_spec(tag@, pid, nanos, seq_no));
    }
    string_of(out.as_slice())
}

} // verus!
