//! Character-sequence primitives shared by the classifiers and parsers.
//!
//! Text is modelled as `Seq<char>` (the view of `str`/`String`). Every
//! executable helper here works on `char` slices and states its result over
//! that model, so callers can phrase their own contracts with the same spec
//! functions.

use vstd::prelude::*;

verus! {

// ---------------------------------------------------------------------------
// Character classes
// ---------------------------------------------------------------------------

/// Unicode `White_Space`, the set that `char::is_whitespace` tests.
pub open spec fn is_ws(c: char) -> bool {
    let u = c as u32;
    (0x09 <= u && u <= 0x0D) || u == 0x20 || u == 0x85 || u == 0xA0 || u == 0x1680 || (0x2000
        <= u && u <= 0x200A) || u == 0x2028 || u == 0x2029 || u == 0x202F || u == 0x205F || u
        == 0x3000
}

/// ASCII punctuation, the set that `char::is_ascii_punctuation` tests.
pub open spec fn is_ascii_punct(c: char) -> bool {
    let u = c as u32;
    (0x21 <= u && u <= 0x2F) || (0x3A <= u && u <= 0x40) || (0x5B <= u && u <= 0x60) || (0x7B
        <= u && u <= 0x7E)
}

/// ASCII letters and digits, the set that `char::is_ascii_alphanumeric` tests.
pub open spec fn is_ascii_alnum(c: char) -> bool {
    let u = c as u32;
    (0x30 <= u && u <= 0x39) || (0x41 <= u && u <= 0x5A) || (0x61 <= u && u <= 0x7A)
}

/// Control characters (general category `Cc`), the set `char::is_control` tests.
pub open spec fn is_control(c: char) -> bool {
    let u = c as u32;
    u <= 0x1F || (0x7F <= u && u <= 0x9F)
}

/// ASCII digit.
pub open spec fn is_digit(c: char) -> bool {
    0x30 <= (c as u32) && (c as u32) <= 0x39
}

/// `char::to_ascii_lowercase`.
pub open spec fn ascii_lower(c: char) -> char {
    if 0x41 <= (c as u32) && (c as u32) <= 0x5A {
        ((c as u32) + 32) as char
    } else {
        c
    }
}

/// `char::to_ascii_uppercase`.
pub open spec fn ascii_upper(c: char) -> char {
    if 0x61 <= (c as u32) && (c as u32) <= 0x7A {
        ((c as u32) - 32) as char
    } else {
        c
    }
}

/// `str::to_ascii_lowercase`.
pub open spec fn lower_seq(s: Seq<char>) -> Seq<char> {
    s.map_values(|c: char| ascii_lower(c))
}

/// `str::to_ascii_uppercase`.
pub open spec fn upper_seq(s: Seq<char>) -> Seq<char> {
    s.map_values(|c: char| ascii_upper(c))
}

pub fn whitespace(c: char) -> (b: bool)
    ensures
        b == is_ws(c),
{
    let u = c as u32;
    (0x09 <= u && u <= 0x0D) || u == 0x20 || u == 0x85 || u == 0xA0 || u == 0x1680 || (0x2000
        <= u && u <= 0x200A) || u == 0x2028 || u == 0x2029 || u == 0x202F || u == 0x205F || u
        == 0x3000
}

pub fn ascii_punctuation(c: char) -> (b: bool)
    ensures
        b == is_ascii_punct(c),
{
    let u = c as u32;
    (0x21 <= u && u <= 0x2F) || (0x3A <= u && u <= 0x40) || (0x5B <= u && u <= 0x60) || (0x7B
        <= u && u <= 0x7E)
}

pub fn ascii_alphanumeric(c: char) -> (b: bool)
    ensures
        b == is_ascii_alnum(c),
{
    let u = c as u32;
    (0x30 <= u && u <= 0x39) || (0x41 <= u && u <= 0x5A) || (0x61 <= u && u <= 0x7A)
}

pub fn control(c: char) -> (b: bool)
    ensures
        b == is_control(c),
{
    let u = c as u32;
    u <= 0x1F || (0x7F <= u && u <= 0x9F)
}

pub fn to_ascii_lower(c: char) -> (r: char)
    ensures
        r == ascii_lower(c),
{
    let u = c as u32;
    if 0x41 <= u && u <= 0x5A {
        let b: u8 = (u + 32) as u8;
        b as char
    } else {
        c
    }
}

pub fn to_ascii_upper(c: char) -> (r: char)
    ensures
        r == ascii_upper(c),
{
    let u = c as u32;
    if 0x61 <= u && u <= 0x7A {
        let b: u8 = (u - 32) as u8;
        b as char
    } else {
        c
    }
}

/// `str::to_ascii_lowercase` on a character slice.
pub fn lower_chars(s: &[char]) -> (r: Vec<char>)
    ensures
        r@ == lower_seq(s@),
{
    let mut r: Vec<char> = Vec::new();
    let mut i: usize = 0;
    while i < s.len()
        invariant
            i <= s.len(),
            r@ == lower_seq(s@.take(i as int)),
        decreases s.len() - i,
    {
        let c = to_ascii_lower(s[i]);
        r.push(c);
        proof {
            assert(s@.take(i + 1) =~= s@.take(i as int).push(s@[i as int]));
            assert(lower_seq(s@.take(i + 1)) =~= lower_seq(s@.take(i as int)).push(c));
        }
        i += 1;
    }
    proof {
        assert(s@.take(s@.len() as int) =~= s@);
    }
    r
}

/// `str::to_ascii_uppercase` on a character slice.
pub fn upper_chars(s: &[char]) -> (r: Vec<char>)
    ensures
        r@ == upper_seq(s@),
{
    let mut r: Vec<char> = Vec::new();
    let mut i: usize = 0;
    while i < s.len()
        invariant
            i <= s.len(),
            r@ == upper_seq(s@.take(i as int)),
        decreases s.len() - i,
    {
        let c = to_ascii_upper(s[i]);
        r.push(c);
        proof {
            assert(s@.take(i + 1) =~= s@.take(i as int).push(s@[i as int]));
            assert(upper_seq(s@.take(i + 1)) =~= upper_seq(s@.take(i as int)).push(c));
        }
        i += 1;
    }
    proof {
        assert(s@.take(s@.len() as int) =~= s@);
    }
    r
}

// ---------------------------------------------------------------------------
// Conversions between `str` and character vectors
// ---------------------------------------------------------------------------

/// The characters of `s`, in order.
pub fn chars_of(s: &str) -> (v: Vec<char>)
    ensures
        v@ == s@,
{
    let mut v: Vec<char> = Vec::new();
    for c in it: s.chars()
        invariant
            v@ == it.seq().take(it.index() as int),
    {
        v.push(c);
    }
    v
}

/// Append one character to a `String` (`String::push`).
#[verifier::external_body]
pub(crate) fn push_char(s: &mut String, c: char)
    ensures
        final(s)@ == old(s)@.push(c),
{
    s.push(c);
}

/// A `String` holding exactly `cs`.
pub fn string_of(cs: &[char]) -> (s: String)
    ensures
        s@ == cs@,
{
    let mut s = String::new();
    let mut i: usize = 0;
    while i < cs.len()
        invariant
            i <= cs.len(),
            s@ == cs@.take(i as int),
        decreases cs.len() - i,
    {
        push_char(&mut s, cs[i]);
        proof {
            assert(cs@.take(i + 1) =~= cs@.take(i as int).push(cs@[i as int]));
        }
        i += 1;
    }
    proof {
        assert(cs@.take(cs@.len() as int) =~= cs@);
    }
    s
}

/// The Unicode lowercase mapping of a string, as `str::to_lowercase`
/// computes it from the Unicode case tables.
pub uninterp spec fn unicode_lowercase(s: Seq<char>) -> Seq<char>;

/// `str::to_lowercase`: the full Unicode lowercase mapping of `s`.
#[verifier::external_body]
pub(crate) fn to_lowercase(s: &str) -> (r: String)
    ensures
        r@ == unicode_lowercase(s@),
{
    s.to_lowercase()
}

// ---------------------------------------------------------------------------
// Substring relations
// ---------------------------------------------------------------------------

/// `n` occurs in `h` starting at index `i`.
pub open spec fn occurs_at(h: Seq<char>, n: Seq<char>, i: int) -> bool {
    0 <= i && i + n.len() <= h.len() && h.subrange(i, i + n.len()) == n
}

/// `str::contains` with a string pattern.
pub open spec fn has_sub(h: Seq<char>, n: Seq<char>) -> bool {
    exists|i: int| #[trigger] occurs_at(h, n, i)
}

/// `str::starts_with`.
pub open spec fn starts_with(h: Seq<char>, n: Seq<char>) -> bool {
    n.len() <= h.len() && h.take(n.len() as int) == n
}

/// `str::ends_with`.
pub open spec fn ends_with(h: Seq<char>, n: Seq<char>) -> bool {
    n.len() <= h.len() && h.skip(h.len() - n.len()) == n
}

/// `h` contains some needle of `needles`.
pub open spec fn has_any(h: Seq<char>, needles: Seq<&str>) -> bool {
    exists|k: int| 0 <= k < needles.len() && #[trigger] has_sub(h, needles[k]@)
}

/// `needles.contains(&h)`.
pub open spec fn is_one_of(h: Seq<char>, needles: Seq<&str>) -> bool {
    exists|k: int| 0 <= k < needles.len() && h == #[trigger] needles[k]@
}

/// `h[i..i + n.len()] == n`, with the range inside `h`.
pub fn matches_at(h: &[char], n: &[char], i: usize) -> (b: bool)
    requires
        i + n@.len() <= h@.len(),
    ensures
        b == (h@.subrange(i as int, i + n@.len()) == n@),
{
    let mut j: usize = 0;
    while j < n.len()
        invariant
            j <= n@.len(),
            i + n@.len() <= h@.len(),
            h@.len() == h.len(),
            forall|k: int| 0 <= k < j ==> h@[i + k] == n@[k],
        decreases n.len() - j,
    {
        let at = i + j;
        if h[at] != n[j] {
            proof {
                assert(h@.subrange(i as int, i + n@.len())[j as int] != n@[j as int]);
            }
            return false;
        }
        j += 1;
    }
    proof {
        assert(h@.subrange(i as int, i + n@.len()) =~= n@);
    }
    true
}

/// Character-slice equality.
pub fn same_chars(a: &[char], b: &[char]) -> (r: bool)
    ensures
        r == (a@ == b@),
{
    if a.len() != b.len() {
        return false;
    }
    let r = matches_at(a, b, 0);
    proof {
        assert(a@.subrange(0, b@.len() as int) =~= a@);
    }
    r
}

/// Equality of a character slice with a `str`.
pub fn chars_eq_str(a: &[char], s: &str) -> (r: bool)
    ensures
        r == (a@ == s@),
{
    let b = chars_of(s);
    same_chars(a, b.as_slice())
}

/// `h.contains(n)`.
pub fn contains_chars(h: &[char], n: &[char]) -> (b: bool)
    ensures
        b == has_sub(h@, n@),
{
    if n.len() > h.len() {
        proof {
            assert forall|i: int| !#[trigger] occurs_at(h@, n@, i) by {}
        }
        return false;
    }
    let last = h.len() - n.len();
    let mut i: usize = 0;
    loop
        invariant
            last == h@.len() - n@.len(),
            i <= last,
            forall|k: int| 0 <= k < i ==> !#[trigger] occurs_at(h@, n@, k),
        ensures
            forall|k: int| 0 <= k <= last ==> !#[trigger] occurs_at(h@, n@, k),
        decreases last - i,
    {
        if matches_at(h, n, i) {
            proof {
                assert(occurs_at(h@, n@, i as int));
            }
            return true;
        }
        if i == last {
            break;
        }
        i += 1;
    }
    proof {
        assert forall|k: int| !#[trigger] occurs_at(h@, n@, k) by {
            if 0 <= k <= last {
            }
        }
    }
    false
}

/// `h.contains(s)` for a `str` needle.
pub fn contains_str(h: &[char], s: &str) -> (b: bool)
    ensures
        b == has_sub(h@, s@),
{
    let n = chars_of(s);
    contains_chars(h, n.as_slice())
}

/// `h.starts_with(s)` for a `str` prefix.
pub fn starts_with_str(h: &[char], s: &str) -> (b: bool)
    ensures
        b == starts_with(h@, s@),
{
    let n = chars_of(s);
    if n.len() > h.len() {
        return false;
    }
    let r = matches_at(h, n.as_slice(), 0);
    proof {
        assert(h@.subrange(0, n@.len() as int) =~= h@.take(n@.len() as int));
    }
    r
}

/// `h.ends_with(s)` for a `str` suffix.
pub fn ends_with_str(h: &[char], s: &str) -> (b: bool)
    ensures
        b == ends_with(h@, s@),
{
    let n = chars_of(s);
    if n.len() > h.len() {
        return false;
    }
    let at = h.len() - n.len();
    let r = matches_at(h, n.as_slice(), at);
    proof {
        assert(h@.subrange(at as int, h@.len() as int) =~= h@.skip(at as int));
    }
    r
}

/// Some needle of `needles` occurs in `h`.
pub fn contains_any(h: &[char], needles: &[&str]) -> (b: bool)
    ensures
        b == has_any(h@, needles@),
{
    let mut k: usize = 0;
    while k < needles.len()
        invariant
            k <= needles@.len(),
            forall|j: int| 0 <= j < k ==> !#[trigger] has_sub(h@, needles@[j]@),
        decreases needles.len() - k,
    {
        if contains_str(h, needles[k]) {
            return true;
        }
        k += 1;
    }
    false
}

/// `needles.contains(&h)`.
pub fn equals_any(h: &[char], needles: &[&str]) -> (b: bool)
    ensures
        b == is_one_of(h@, needles@),
{
    let mut k: usize = 0;
    while k < needles.len()
        invariant
            k <= needles@.len(),
            forall|j: int| 0 <= j < k ==> h@ != #[trigger] needles@[j]@,
        decreases needles.len() - k,
    {
        if chars_eq_str(h, needles[k]) {
            return true;
        }
        k += 1;
    }
    false
}

/// `h` contains the character `c`.
pub fn contains_char(h: &[char], c: char) -> (b: bool)
    ensures
        b == h@.contains(c),
{
    let mut i: usize = 0;
    while i < h.len()
        invariant
            i <= h@.len(),
            forall|k: int| 0 <= k < i ==> h@[k] != c,
        decreases h.len() - i,
    {
        if h[i] == c {
            proof {
                assert(h@[i as int] == c);
            }
            return true;
        }
        i += 1;
    }
    false
}

/// The sub-slice `h[start..end]` as a vector.
pub fn slice_chars(h: &[char], start: usize, end: usize) -> (r: Vec<char>)
    requires
        start <= end <= h@.len(),
    ensures
        r@ == h@.subrange(start as int, end as int),
{
    let mut r: Vec<char> = Vec::new();
    let mut i: usize = start;
    while i < end
        invariant
            start <= i <= end <= h@.len(),
            r@ == h@.subrange(start as int, i as int),
        decreases end - i,
    {
        r.push(h[i]);
        proof {
            assert(h@.subrange(start as int, i + 1) =~= h@.subrange(start as int, i as int).push(
                h@[i as int],
            ));
        }
        i += 1;
    }
    r
}

// ---------------------------------------------------------------------------
// Trimming
// ---------------------------------------------------------------------------

/// `trim_start_matches(p)`: drop leading characters that satisfy `p`.
pub open spec fn trim_start_by(s: Seq<char>, p: spec_fn(char) -> bool) -> Seq<char>
    decreases s.len(),
{
    if s.len() > 0 && p(s[0]) {
        trim_start_by(s.drop_first(), p)
    } else {
        s
    }
}

/// `trim_end_matches(p)`: drop trailing characters that satisfy `p`.
pub open spec fn trim_end_by(s: Seq<char>, p: spec_fn(char) -> bool) -> Seq<char>
    decreases s.len(),
{
    if s.len() > 0 && p(s.last()) {
        trim_end_by(s.drop_last(), p)
    } else {
        s
    }
}

/// `trim_matches(p)`: both ends.
pub open spec fn trim_by(s: Seq<char>, p: spec_fn(char) -> bool) -> Seq<char> {
    trim_end_by(trim_start_by(s, p), p)
}

/// `str::trim`.
pub open spec fn trim_ws(s: Seq<char>) -> Seq<char> {
    trim_by(s, ws_pred())
}

/// `char::is_whitespace` as a predicate value.
pub open spec fn ws_pred() -> spec_fn(char) -> bool {
    |c: char| is_ws(c)
}

pub proof fn lemma_trim_start_at(s: Seq<char>, p: spec_fn(char) -> bool, a: int)
    requires
        0 <= a <= s.len(),
        forall|i: int| 0 <= i < a ==> p(#[trigger] s[i]),
        a == s.len() || !p(s[a]),
    ensures
        trim_start_by(s, p) == s.skip(a),
    decreases a,
{
    if a == 0 {
        assert(s.skip(0) =~= s);
    } else {
        let t = s.drop_first();
        assert forall|i: int| 0 <= i < a - 1 implies p(#[trigger] t[i]) by {
            assert(t[i] == s[i + 1]);
        }
        lemma_trim_start_at(t, p, a - 1);
        assert(t.skip(a - 1) =~= s.skip(a));
    }
}

pub proof fn lemma_trim_end_at(s: Seq<char>, p: spec_fn(char) -> bool, b: int)
    requires
        0 <= b <= s.len(),
        forall|i: int| b <= i < s.len() ==> p(#[trigger] s[i]),
        b == 0 || !p(s[b - 1]),
    ensures
        trim_end_by(s, p) == s.take(b),
    decreases s.len() - b,
{
    if b == s.len() {
        assert(s.take(b) =~= s);
    } else {
        let t = s.drop_last();
        assert(p(s[s.len() - 1]));
        assert forall|i: int| b <= i < t.len() implies p(#[trigger] t[i]) by {
            assert(t[i] == s[i]);
        }
        lemma_trim_end_at(t, p, b);
        assert(t.take(b) =~= s.take(b));
    }
}

/// `s.trim()` on a character slice.
pub fn trim_whitespace(s: &[char]) -> (r: Vec<char>)
    ensures
        r@ == trim_ws(s@),
{
    let ghost p = ws_pred();
    let mut a: usize = 0;
    while a < s.len() && whitespace(s[a])
        invariant
            a <= s@.len(),
            forall|i: int| 0 <= i < a ==> is_ws(#[trigger] s@[i]),
        decreases s.len() - a,
    {
        a += 1;
    }
    let mut b: usize = s.len();
    while b > a && whitespace(s[b - 1])
        invariant
            a <= b <= s@.len(),
            forall|i: int| b <= i < s@.len() ==> is_ws(#[trigger] s@[i]),
        decreases b - a,
    {
        b -= 1;
    }
    proof {
        lemma_trim_start_at(s@, p, a as int);
        let t = s@.skip(a as int);
        assert forall|i: int| b - a <= i < t.len() implies p(#[trigger] t[i]) by {
            assert(t[i] == s@[i + a]);
        }
        if b > a {
            assert(t[b - a - 1] == s@[b - 1]);
        }
        lemma_trim_end_at(t, p, b - a);
        assert(t.take(b - a) =~= s@.subrange(a as int, b as int));
    }
    slice_chars(s, a, b)
}

// ---------------------------------------------------------------------------
// Whitespace-separated words
// ---------------------------------------------------------------------------

/// The words of `s`: its maximal runs of non-whitespace characters, in order
/// (`str::split_whitespace`).
pub open spec fn words(s: Seq<char>) -> Seq<Seq<char>>
    decreases s.len(),
{
    if s.len() == 0 {
        seq![]
    } else {
        let prev = words(s.drop_last());
        let c = s.last();
        if is_ws(c) {
            prev
        } else if s.len() >= 2 && !is_ws(s[s.len() - 2]) {
            prev.update(prev.len() - 1, prev.last().push(c))
        } else {
            prev.push(seq![c])
        }
    }
}

/// Words joined with one space (`join(" ")`).
pub open spec fn join_space(ws: Seq<Seq<char>>) -> Seq<char>
    decreases ws.len(),
{
    if ws.len() == 0 {
        seq![]
    } else if ws.len() == 1 {
        ws[0]
    } else {
        join_space(ws.drop_last()) + seq![' '] + ws.last()
    }
}

/// Words concatenated (`collect::<String>()`).
pub open spec fn concat_all(ws: Seq<Seq<char>>) -> Seq<char>
    decreases ws.len(),
{
    if ws.len() == 0 {
        seq![]
    } else {
        concat_all(ws.drop_last()) + ws.last()
    }
}

/// When the text ends in a non-whitespace character, it contributes to a
/// last word; that is what makes `words` well defined one step at a time.
pub proof fn lemma_words_nonempty_after_word(s: Seq<char>)
    requires
        s.len() > 0,
        !is_ws(s.last()),
    ensures
        words(s).len() > 0,
    decreases s.len(),
{
    if s.len() >= 2 && !is_ws(s[s.len() - 2]) {
        lemma_words_nonempty_after_word(s.drop_last());
    }
}

/// The views of a vector of character vectors.
pub open spec fn views(v: Seq<Vec<char>>) -> Seq<Seq<char>> {
    v.map_values(|w: Vec<char>| w@)
}

/// The words of `s`.
pub fn split_words(s: &[char]) -> (r: Vec<Vec<char>>)
    ensures
        views(r@) == words(s@),
{
    let mut r: Vec<Vec<char>> = Vec::new();
    let mut i: usize = 0;
    while i < s.len()
        invariant
            i <= s@.len(),
            views(r@) == words(s@.take(i as int)),
        decreases s.len() - i,
    {
        let c = s[i];
        let ghost prev = views(r@);
        let ghost t = s@.take(i + 1);
        proof {
            assert(t.drop_last() =~= s@.take(i as int));
            assert(t.last() == c);
        }
        if whitespace(c) {
        } else if i >= 1 && !whitespace(s[i - 1]) {
            proof {
                assert(t[t.len() - 2] == s@[i - 1]);
                lemma_words_nonempty_after_word(s@.take(i as int));
                assert(s@.take(i as int).last() == s@[i - 1]);
            }
            let mut last = r.pop().unwrap();
            last.push(c);
            r.push(last);
            proof {
                assert(views(r@) =~= prev.update(prev.len() - 1, prev.last().push(c)));
            }
        } else {
            let mut w: Vec<char> = Vec::new();
            w.push(c);
            r.push(w);
            proof {
                assert(views(r@) =~= prev.push(seq![c]));
            }
        }
        i += 1;
    }
    proof {
        assert(s@.take(s@.len() as int) =~= s@);
    }
    r
}

/// Words joined by single spaces.
pub fn join_words(ws: &Vec<Vec<char>>) -> (r: Vec<char>)
    ensures
        r@ == join_space(views(ws@)),
{
    let mut r: Vec<char> = Vec::new();
    let mut k: usize = 0;
    while k < ws.len()
        invariant
            k <= ws@.len(),
            r@ == join_space(views(ws@).take(k as int)),
        decreases ws.len() - k,
    {
        let ghost t = views(ws@).take(k + 1);
        proof {
            assert(t.drop_last() =~= views(ws@).take(k as int));
            assert(t.last() == ws[k as int]@);
        }
        if k > 0 {
            r.push(' ');
        }
        let w = &ws[k];
        let mut j: usize = 0;
        let ghost base = r@;
        while j < w.len()
            invariant
                j <= w@.len(),
                r@ == base + w@.take(j as int),
            decreases w.len() - j,
        {
            r.push(w[j]);
            proof {
                assert(w@.take(j + 1) =~= w@.take(j as int).push(w@[j as int]));
                assert(r@ =~= base + w@.take(j + 1));
            }
            j += 1;
        }
        proof {
            assert(w@.take(w@.len() as int) =~= w@);
            if k == 0 {
                assert(base =~= seq![]);
                assert(r@ =~= t[0]);
            } else {
                assert(r@ =~= join_space(t.drop_last()) + seq![' '] + t.last());
            }
        }
        k += 1;
    }
    proof {
        assert(views(ws@).take(ws@.len() as int) =~= views(ws@));
    }
    r
}

/// Words concatenated.
pub fn concat_words(ws: &Vec<Vec<char>>) -> (r: Vec<char>)
    ensures
        r@ == concat_all(views(ws@)),
{
    let mut r: Vec<char> = Vec::new();
    let mut k: usize = 0;
    while k < ws.len()
        invariant
            k <= ws@.len(),
            r@ == concat_all(views(ws@).take(k as int)),
        decreases ws.len() - k,
    {
        let ghost t = views(ws@).take(k + 1);
        proof {
            assert(t.drop_last() =~= views(ws@).take(k as int));
            assert(t.last() == ws[k as int]@);
        }
        let w = &ws[k];
        let mut j: usize = 0;
        let ghost base = r@;
        while j < w.len()
            invariant
                j <= w@.len(),
                r@ == base + w@.take(j as int),
            decreases w.len() - j,
        {
            r.push(w[j]);
            proof {
                assert(w@.take(j + 1) =~= w@.take(j as int).push(w@[j as int]));
                assert(r@ =~= base + w@.take(j + 1));
            }
            j += 1;
        }
        proof {
            assert(w@.take(w@.len() as int) =~= w@);
        }
        k += 1;
    }
    proof {
        assert(views(ws@).take(ws@.len() as int) =~= views(ws@));
    }
    r
}

// ---------------------------------------------------------------------------
// Separator splitting
// ---------------------------------------------------------------------------

/// The pieces of `s` between occurrences of `sep` (`str::split(sep)`): an
/// empty input is one empty piece, and a trailing separator yields a trailing
/// empty piece.
pub open spec fn split_char(s: Seq<char>, sep: char) -> Seq<Seq<char>>
    decreases s.len(),
{
    if s.len() == 0 {
        seq![seq![]]
    } else {
        let prev = split_char(s.drop_last(), sep);
        if s.last() == sep {
            prev.push(seq![])
        } else {
            prev.update(prev.len() - 1, prev.last().push(s.last()))
        }
    }
}

pub proof fn lemma_split_char_nonempty(s: Seq<char>, sep: char)
    ensures
        split_char(s, sep).len() >= 1,
    decreases s.len(),
{
    if s.len() > 0 {
        lemma_split_char_nonempty(s.drop_last(), sep);
    }
}

/// `s.split(sep)`, each piece collected.
pub fn split_on_char(s: &[char], sep: char) -> (r: Vec<Vec<char>>)
    ensures
        views(r@) == split_char(s@, sep),
{
    let mut r: Vec<Vec<char>> = Vec::new();
    r.push(Vec::new());
    let mut i: usize = 0;
    proof {
        assert(views(r@) =~= split_char(s@.take(0), sep));
    }
    while i < s.len()
        invariant
            i <= s@.len(),
            views(r@) == split_char(s@.take(i as int), sep),
        decreases s.len() - i,
    {
        let ghost prev = views(r@);
        let ghost t = s@.take(i + 1);
        proof {
            assert(t.drop_last() =~= s@.take(i as int));
            assert(t.last() == s@[i as int]);
            lemma_split_char_nonempty(s@.take(i as int), sep);
        }
        if s[i] == sep {
            r.push(Vec::new());
            proof {
                assert(views(r@) =~= prev.push(seq![]));
            }
        } else {
            let mut last = r.pop().unwrap();
            last.push(s[i]);
            r.push(last);
            proof {
                assert(views(r@) =~= prev.update(prev.len() - 1, prev.last().push(s@[i as int])));
            }
        }
        i += 1;
    }
    proof {
        assert(s@.take(s@.len() as int) =~= s@);
    }
    r
}

// ---------------------------------------------------------------------------
// Ordered sets of strings
// ---------------------------------------------------------------------------

/// Code-point lexicographic order (the order of `String`'s `Ord`).
pub open spec fn lex_lt(a: Seq<char>, b: Seq<char>) -> bool
    decreases a.len(),
{
    if a.len() == 0 {
        b.len() > 0
    } else if b.len() == 0 {
        false
    } else if a[0] < b[0] {
        true
    } else if a[0] == b[0] {
        lex_lt(a.drop_first(), b.drop_first())
    } else {
        false
    }
}

/// Insert `d` into an ordered set kept as a sequence, as a `BTreeSet` does.
pub open spec fn insert_sorted(ds: Seq<Seq<char>>, d: Seq<char>) -> Seq<Seq<char>>
    decreases ds.len(),
{
    if ds.len() == 0 {
        seq![d]
    } else if ds[0] == d {
        ds
    } else if lex_lt(d, ds[0]) {
        seq![d] + ds
    } else {
        seq![ds[0]] + insert_sorted(ds.drop_first(), d)
    }
}

pub proof fn lemma_lex_irreflexive(a: Seq<char>)
    ensures
        !lex_lt(a, a),
    decreases a.len(),
{
    if a.len() > 0 {
        lemma_lex_irreflexive(a.drop_first());
    }
}

pub proof fn lemma_lex_asymmetric(a: Seq<char>, b: Seq<char>)
    requires
        lex_lt(a, b),
    ensures
        !lex_lt(b, a),
        a != b,
    decreases a.len(),
{
    if a.len() > 0 && b.len() > 0 && a[0] == b[0] {
        lemma_lex_asymmetric(a.drop_first(), b.drop_first());
    }
    if a == b {
        lemma_lex_irreflexive(a);
    }
}

pub proof fn lemma_lex_transitive(a: Seq<char>, b: Seq<char>, c: Seq<char>)
    requires
        lex_lt(a, b),
        lex_lt(b, c),
    ensures
        lex_lt(a, c),
    decreases a.len(),
{
    if a.len() > 0 && b.len() > 0 && c.len() > 0 && a[0] == b[0] && b[0] == c[0] {
        lemma_lex_transitive(a.drop_first(), b.drop_first(), c.drop_first());
    }
}

pub proof fn lemma_lex_total(a: Seq<char>, b: Seq<char>)
    requires
        a != b,
    ensures
        lex_lt(a, b) || lex_lt(b, a),
    decreases a.len(),
{
    if a.len() == 0 && b.len() == 0 {
        assert(a =~= b);
    } else if a.len() > 0 && b.len() > 0 && a[0] == b[0] {
        if a.drop_first() == b.drop_first() {
            assert(a =~= seq![a[0]] + a.drop_first());
            assert(b =~= seq![b[0]] + b.drop_first());
        }
        lemma_lex_total(a.drop_first(), b.drop_first());
    }
}

/// Insertion below the first element that is not smaller than `d`.
pub proof fn lemma_insert_at(ds: Seq<Seq<char>>, d: Seq<char>, i: int)
    requires
        0 <= i <= ds.len(),
        forall|j: int| 0 <= j < i ==> lex_lt(#[trigger] ds[j], d),
        i < ds.len() ==> !lex_lt(ds[i], d),
    ensures
        i < ds.len() && ds[i] == d ==> insert_sorted(ds, d) == ds,
        !(i < ds.len() && ds[i] == d) ==> insert_sorted(ds, d) == ds.take(i) + seq![d] + ds.skip(
            i,
        ),
    decreases i,
{
    if i == 0 {
        if ds.len() > 0 && ds[0] != d {
            lemma_lex_total(ds[0], d);
        }
        assert(ds.take(0) + seq![d] + ds.skip(0) =~= seq![d] + ds);
    } else {
        lemma_lex_asymmetric(ds[0], d);
        let t = ds.drop_first();
        assert forall|j: int| 0 <= j < i - 1 implies lex_lt(#[trigger] t[j], d) by {
            assert(t[j] == ds[j + 1]);
        }
        lemma_insert_at(t, d, i - 1);
        assert(ds =~= seq![ds[0]] + t);
        if !(i < ds.len() && ds[i] == d) {
            assert(seq![ds[0]] + (t.take(i - 1) + seq![d] + t.skip(i - 1)) =~= ds.take(i)
                + seq![d] + ds.skip(i));
        }
    }
}

/// `a < b` in code-point lexicographic order.
pub fn lex_less(a: &[char], b: &[char]) -> (r: bool)
    ensures
        r == lex_lt(a@, b@),
{
    let mut i: usize = 0;
    proof {
        assert(a@.skip(0) =~= a@);
        assert(b@.skip(0) =~= b@);
    }
    while i < a.len() && i < b.len() && a[i] == b[i]
        invariant
            i <= a@.len(),
            i <= b@.len(),
            lex_lt(a@, b@) == lex_lt(a@.skip(i as int), b@.skip(i as int)),
        decreases a.len() - i,
    {
        proof {
            assert(a@.skip(i as int).drop_first() =~= a@.skip(i + 1));
            assert(b@.skip(i as int).drop_first() =~= b@.skip(i + 1));
        }
        i += 1;
    }
    proof {
        if i < a@.len() {
            assert(a@.skip(i as int)[0] == a@[i as int]);
        }
        if i < b@.len() {
            assert(b@.skip(i as int)[0] == b@[i as int]);
        }
    }
    if i == a.len() {
        i < b.len()
    } else if i == b.len() {
        false
    } else {
        a[i] < b[i]
    }
}

/// Insert `d` into an ordered set of character strings.
pub fn insert_sorted_chars(ds: &mut Vec<Vec<char>>, d: Vec<char>)
    ensures
        final(ds)@.map_values(|v: Vec<char>| v@) == insert_sorted(
            old(ds)@.map_values(|v: Vec<char>| v@),
            d@,
        ),
{
    let ghost before = ds@.map_values(|v: Vec<char>| v@);
    let mut i: usize = 0;
    while i < ds.len() && lex_less(ds[i].as_slice(), d.as_slice())
        invariant
            i <= ds@.len(),
            before == ds@.map_values(|v: Vec<char>| v@),
            forall|j: int| 0 <= j < i ==> lex_lt(#[trigger] before[j], d@),
        decreases ds.len() - i,
    {
        i += 1;
    }
    proof {
        lemma_insert_at(before, d@, i as int);
    }
    if i < ds.len() {
        if same_chars(ds[i].as_slice(), d.as_slice()) {
            return;
        }
    }
    ds.insert(i, d);
    proof {
        assert(ds@.map_values(|v: Vec<char>| v@) =~= before.take(i as int) + seq![d@]
            + before.skip(i as int));
    }
}


/// Each element is smaller than the next.
pub open spec fn strictly_ascending(ds: Seq<Seq<char>>) -> bool {
    forall|i: int| 0 <= i < ds.len() - 1 ==> lex_lt(#[trigger] ds[i], ds[i + 1])
}

/// Inserting into an ascending list keeps it ascending; the first element
/// is the inserted one or the old first, and every element is old or new.
pub proof fn lemma_insert_sorted_shape(ds: Seq<Seq<char>>, d: Seq<char>)
    requires
        strictly_ascending(ds),
    ensures
        strictly_ascending(insert_sorted(ds, d)),
        insert_sorted(ds, d).len() > 0,
        insert_sorted(ds, d)[0] == d || (ds.len() > 0 && insert_sorted(ds, d)[0] == ds[0]),
        forall|i: int|
            0 <= i < insert_sorted(ds, d).len() ==> #[trigger] insert_sorted(ds, d)[i] == d
                || ds.contains(insert_sorted(ds, d)[i]),
    decreases ds.len(),
{
    let r = insert_sorted(ds, d);
    if ds.len() == 0 {
    } else if ds[0] == d {
        assert forall|i: int| 0 <= i < r.len() implies #[trigger] r[i] == d || ds.contains(r[i]) by {
            assert(r[i] == ds[i]);
        }
    } else if lex_lt(d, ds[0]) {
        assert forall|i: int| 0 <= i < r.len() - 1 implies lex_lt(#[trigger] r[i], r[i + 1]) by {
            if i > 0 {
                assert(r[i] == ds[i - 1]);
                assert(r[i + 1] == ds[i]);
            }
        }
        assert forall|i: int| 0 <= i < r.len() implies #[trigger] r[i] == d || ds.contains(r[i]) by {
            if i > 0 {
                assert(r[i] == ds[i - 1]);
            }
        }
    } else {
        let t = ds.drop_first();
        assert forall|i: int| 0 <= i < t.len() - 1 implies lex_lt(#[trigger] t[i], t[i + 1]) by {
            assert(t[i] == ds[i + 1]);
            assert(t[i + 1] == ds[i + 2]);
        }
        lemma_insert_sorted_shape(t, d);
        let rest = insert_sorted(t, d);
        lemma_lex_total(d, ds[0]);
        if t.len() > 0 {
            assert(lex_lt(ds[0], ds[0int + 1]));
            assert(t[0] == ds[1]);
        }
        assert(r == seq![ds[0]] + rest);
        assert forall|i: int| 0 <= i < r.len() - 1 implies lex_lt(#[trigger] r[i], r[i + 1]) by {
            if i > 0 {
                assert(r[i] == rest[i - 1]);
                assert(r[i + 1] == rest[i]);
            } else {
                assert(r[1] == rest[0]);
            }
        }
        assert forall|i: int| 0 <= i < r.len() implies #[trigger] r[i] == d || ds.contains(r[i]) by {
            if i > 0 {
                assert(r[i] == rest[i - 1]);
                if rest[i - 1] != d {
                    let q = choose|q: int| 0 <= q < t.len() && t[q] == rest[i - 1];
                    assert(ds[q + 1] == t[q]);
                }
            } else {
                assert(ds[0] == ds[0]);
            }
        }
    }
}

} // verus!
