//! Honest summaries for low-signal read-only tool output.
//!
//! Grep output may hold arbitrary project data, so only a provider's explicit
//! count phrase on its first non-empty line is trusted as a count.

use vstd::prelude::*;

use crate::lock::{parse_decimal_u64, parse_u64};
use crate::text::{
    ascii_alphanumeric, chars_of, equals_any, is_ascii_alnum, is_one_of, lemma_trim_end_at,
    lemma_trim_start_at, lower_chars, lower_seq, slice_chars, split_char, split_on_char,
    split_words, trim_by, trim_whitespace, trim_ws, views, words,
};

verus! {

/// The largest count trusted as a provider's own.
pub const MAX_TRUSTED_MATCH_COUNT: usize = 1000000;

/// The first line of `lines` that is not blank.
pub open spec fn first_content_line(lines: Seq<Seq<char>>) -> Option<Seq<char>>
    decreases lines.len(),
{
    if lines.len() == 0 {
        None
    } else if trim_ws(lines[0]).len() > 0 {
        Some(lines[0])
    } else {
        first_content_line(lines.drop_first())
    }
}

/// Characters kept at the ends of a summary word: ASCII letters and digits,
/// and the CJK characters of the count phrases.
pub open spec fn is_metric_char(c: char) -> bool {
    is_ascii_alnum(c) || c == '处' || c == '處' || c == '个' || c == '個' || c == '匹' || c == '配'
        || c == '文' || c == '件'
}

/// The characters trimmed from the ends of a summary word.
pub open spec fn metric_trim_pred() -> spec_fn(char) -> bool {
    |c: char| !is_metric_char(c)
}

/// The summary words of a line: each whitespace-separated word trimmed of
/// punctuation and ASCII-lowercased, empty ones dropped.
pub open spec fn summary_words(ws: Seq<Seq<char>>) -> Seq<Seq<char>>
    decreases ws.len(),
{
    if ws.len() == 0 {
        seq![]
    } else {
        let prev = summary_words(ws.drop_last());
        let w = lower_seq(trim_by(ws.last(), metric_trim_pred()));
        if w.len() == 0 {
            prev
        } else {
            prev.push(w)
        }
    }
}

/// Leading words after which the count comes second.
pub open spec fn count_leads() -> Seq<&'static str> {
    seq!["found", "matched", "matches", "total", "count", "共", "找到"]
}

/// Units a trusted count may carry.
pub open spec fn count_units() -> Seq<&'static str> {
    seq![
        "match",
        "matches",
        "result",
        "results",
        "file",
        "files",
        "path",
        "paths",
        "line",
        "lines",
        "处匹配",
        "處匹配",
        "个匹配",
        "個匹配",
        "个文件",
        "個文件",
    ]
}

/// The count a summary phrase declares: `[lead] <count> <unit>` and nothing
/// else, with a count no larger than [`MAX_TRUSTED_MATCH_COUNT`].
pub open spec fn phrase_count(ws: Seq<Seq<char>>) -> Option<usize> {
    if ws.len() == 0 {
        None
    } else {
        let led = is_one_of(ws[0], count_leads());
        let count_at: int = if led {
            1
        } else {
            0
        };
        if ws.len() != count_at + 2 {
            None
        } else {
            match parse_u64(ws[count_at]) {
                None => None,
                Some(n) => if n > MAX_TRUSTED_MATCH_COUNT || !is_one_of(
                    ws[count_at + 1],
                    count_units(),
                ) {
                    None
                } else {
                    Some(n as usize)
                },
            }
        }
    }
}

/// The count a read-only tool's output declares on its first non-empty line.
pub open spec fn declared_count(preview: Seq<char>) -> Option<usize> {
    match first_content_line(split_char(preview, '\n')) {
        None => None,
        Some(line) => phrase_count(summary_words(words(line))),
    }
}

fn count_leads_list() -> (r: &'static [&'static str])
    ensures
        r@ == count_leads(),
{
    let a: &'static [&'static str; 7] = &["found", "matched", "matches", "total", "count", "共", "找到"];
    let r: &'static [&'static str] = a;
    r
}

fn count_units_list() -> (r: &'static [&'static str])
    ensures
        r@ == count_units(),
{
    let a: &'static [&'static str; 16] = &[
        "match",
        "matches",
        "result",
        "results",
        "file",
        "files",
        "path",
        "paths",
        "line",
        "lines",
        "处匹配",
        "處匹配",
        "个匹配",
        "個匹配",
        "个文件",
        "個文件",
    ];
    let r: &'static [&'static str] = a;
    r
}

fn metric_char(c: char) -> (b: bool)
    ensures
        b == is_metric_char(c),
{
    ascii_alphanumeric(c) || c == '处' || c == '處' || c == '个' || c == '個' || c == '匹' || c
        == '配' || c == '文' || c == '件'
}

/// A word with its leading and trailing punctuation removed.
fn trim_metric(w: &[char]) -> (r: Vec<char>)
    ensures
        r@ == trim_by(w@, metric_trim_pred()),
{
    let ghost p = metric_trim_pred();
    let mut a: usize = 0;
    while a < w.len() && !metric_char(w[a])
        invariant
            a <= w@.len(),
            p == metric_trim_pred(),
            forall|i: int| 0 <= i < a ==> p(#[trigger] w@[i]),
        decreases w.len() - a,
    {
        a += 1;
    }
    let mut b: usize = w.len();
    while b > a && !metric_char(w[b - 1])
        invariant
            a <= b <= w@.len(),
            p == metric_trim_pred(),
            forall|i: int| b <= i < w@.len() ==> p(#[trigger] w@[i]),
        decreases b - a,
    {
        b -= 1;
    }
    proof {
        lemma_trim_start_at(w@, p, a as int);
        let t = w@.skip(a as int);
        assert forall|i: int| b - a <= i < t.len() implies p(#[trigger] t[i]) by {
            assert(t[i] == w@[i + a]);
        }
        if b > a {
            assert(t[b - a - 1] == w@[b - 1]);
        }
        lemma_trim_end_at(t, p, b - a);
        assert(t.take(b - a) =~= w@.subrange(a as int, b as int));
    }
    slice_chars(w, a, b)
}

/// The summary words of a line.
fn summary_words_of(line: &[char]) -> (r: Vec<Vec<char>>)
    ensures
        views(r@) == summary_words(words(line@)),
{
    let ws = split_words(line);
    let ghost wv = views(ws@);
    let mut r: Vec<Vec<char>> = Vec::new();
    let mut i: usize = 0;
    while i < ws.len()
        invariant
            i <= ws@.len(),
            wv == views(ws@),
            wv == words(line@),
            views(r@) == summary_words(wv.take(i as int)),
        decreases ws.len() - i,
    {
        let ghost t = wv.take(i + 1);
        proof {
            assert(t.drop_last() =~= wv.take(i as int));
            assert(t.last() == ws@[i as int]@);
        }
        let trimmed = trim_metric(ws[i].as_slice());
        let w = lower_chars(trimmed.as_slice());
        if w.len() > 0 {
            let ghost prev = views(r@);
            r.push(w);
            proof {
                assert(views(r@) =~= prev.push(w@));
            }
        }
        i += 1;
    }
    proof {
        assert(wv.take(wv.len() as int) =~= wv);
    }
    r
}

/// The count a read-only tool's output declares on its first non-empty line:
/// `[found|matched|matches|total|count|共|找到] <count> <unit>` and nothing
/// else, with a known unit and a count of at most a million. Every other line
/// may be a verbatim match from the user's repository and is never read.
pub fn explicit_read_only_count(preview: &str) -> (r: Option<usize>)
    ensures
        r == declared_count(preview@),
{
    let cs = chars_of(preview);
    let lines = split_on_char(cs.as_slice(), '\n');
    let ghost lv = views(lines@);
    let mut i: usize = 0;
    proof {
        assert(lv.skip(0) =~= lv);
    }
    while i < lines.len()
        invariant
            i <= lines@.len(),
            lv == views(lines@),
            lv == split_char(preview@, '\n'),
            first_content_line(lv) == first_content_line(lv.skip(i as int)),
        decreases lines.len() - i,
    {
        let ghost rest = lv.skip(i as int);
        proof {
            assert(rest[0] == lines@[i as int]@);
            assert(rest.drop_first() =~= lv.skip(i + 1));
        }
        let trimmed = trim_whitespace(lines[i].as_slice());
        if trimmed.len() > 0 {
            let ws = summary_words_of(lines[i].as_slice());
            return phrase_count_of(&ws);
        }
        i += 1;
    }
    proof {
        assert(lv.skip(lv.len() as int) =~= Seq::<Seq<char>>::empty());
    }
    None
}

fn phrase_count_of(ws: &Vec<Vec<char>>) -> (r: Option<usize>)
    ensures
        r == phrase_count(views(ws@)),
{
    let ghost wv = views(ws@);
    if ws.len() == 0 {
        return None;
    }
    proof {
        assert(wv[0] == ws@[0]@);
    }
    let led = equals_any(ws[0].as_slice(), count_leads_list());
    let count_at: usize = if led {
        1
    } else {
        0
    };
    if ws.len() != count_at + 2 {
        return None;
    }
    proof {
        assert(wv[count_at as int] == ws@[count_at as int]@);
        assert(wv[count_at + 1] == ws@[count_at + 1]@);
    }
    let n = match parse_decimal_u64(ws[count_at].as_slice()) {
        None => {
            return None;
        },
        Some(n) => n,
    };
    if n > 1000000 {
        return None;
    }
    if !equals_any(ws[count_at + 1].as_slice(), count_units_list()) {
        return None;
    }
    Some(n as usize)
}

// ---------------------------------------------------------------------------
// Laws
// ---------------------------------------------------------------------------

/// A declared count is never larger than the trusted maximum.
pub proof fn law_declared_counts_are_bounded(preview: Seq<char>)
    ensures
        declared_count(preview) matches Some(n) ==> n <= MAX_TRUSTED_MATCH_COUNT,
{
}

proof fn lemma_split_without_sep(a: Seq<char>, sep: char)
    requires
        !a.contains(sep),
    ensures
        split_char(a, sep) == seq![a],
    decreases a.len(),
{
    if a.len() > 0 {
        assert(!a.drop_last().contains(sep)) by {
            if a.drop_last().contains(sep) {
                let i = choose|i: int| 0 <= i < a.drop_last().len() && a.drop_last()[i] == sep;
                assert(a[i] == sep);
            }
        }
        lemma_split_without_sep(a.drop_last(), sep);
        assert(a.last() != sep) by {
            if a.last() == sep {
                assert(a[a.len() - 1] == sep);
            }
        }
        assert(a.drop_last().push(a.last()) =~= a);
    } else {
        assert(a =~= Seq::<char>::empty());
    }
}

proof fn lemma_split_after_sep(a: Seq<char>, b: Seq<char>, sep: char)
    ensures
        split_char(a.push(sep) + b, sep) == split_char(a, sep) + split_char(b, sep),
    decreases b.len(),
{
    let x = a.push(sep);
    if b.len() == 0 {
        assert(x + b =~= x);
        assert(x.drop_last() =~= a);
        assert(split_char(b, sep) == seq![Seq::<char>::empty()]);
    } else {
        lemma_split_after_sep(a, b.drop_last(), sep);
        crate::text::lemma_split_char_nonempty(b.drop_last(), sep);
        let whole = x + b;
        assert(whole.drop_last() =~= x + b.drop_last());
        assert(whole.last() == b.last());
        let p = split_char(a, sep);
        let q = split_char(b.drop_last(), sep);
        if b.last() == sep {
            assert((p + q).push(Seq::<char>::empty()) =~= p + q.push(Seq::<char>::empty()));
        } else {
            assert((p + q).update((p + q).len() - 1, (p + q).last().push(b.last())) =~= p + q.update(
                q.len() - 1,
                q.last().push(b.last()),
            ));
        }
    }
}

/// Only the first non-empty line is read: whatever follows it (a verbatim
/// match from the user's repository, say) never changes the count.
pub proof fn law_later_lines_are_ignored(first: Seq<char>, rest1: Seq<char>, rest2: Seq<char>)
    requires
        !first.contains('\n'),
        trim_ws(first).len() > 0,
    ensures
        declared_count(first.push('\n') + rest1) == declared_count(first.push('\n') + rest2),
{
    lemma_split_without_sep(first, '\n');
    lemma_split_after_sep(first, rest1, '\n');
    lemma_split_after_sep(first, rest2, '\n');
    let l1 = seq![first] + split_char(rest1, '\n');
    let l2 = seq![first] + split_char(rest2, '\n');
    assert(l1[0] == first);
    assert(l2[0] == first);
}


/// The lead words of a count phrase, written out.
pub open spec fn named_lead(w: Seq<char>) -> bool {
    w == "found"@ || w == "matched"@ || w == "matches"@ || w == "total"@ || w == "count"@ || w == "共"@ || w == "找到"@
}

/// The units of a count phrase, written out.
pub open spec fn named_unit(w: Seq<char>) -> bool {
    w == "match"@ || w == "matches"@ || w == "result"@ || w == "results"@ || w == "file"@ || w == "files"@ || w == "path"@ || w == "paths"@ || w == "line"@ || w == "lines"@ || w == "处匹配"@ || w == "處匹配"@ || w == "个匹配"@ || w == "個匹配"@ || w == "个文件"@ || w == "個文件"@
}

proof fn lemma_named_lead(w: Seq<char>)
    ensures
        is_one_of(w, count_leads()) <==> named_lead(w),
{
    if is_one_of(w, count_leads()) {
        let k = choose|k: int| 0 <= k < count_leads().len() && w == #[trigger] count_leads()[k]@;
        assert(0 <= k < 7);
    }
    if w == "found"@ {
        assert(w == count_leads()[0]@);
    }
    if w == "matched"@ {
        assert(w == count_leads()[1]@);
    }
    if w == "matches"@ {
        assert(w == count_leads()[2]@);
    }
    if w == "total"@ {
        assert(w == count_leads()[3]@);
    }
    if w == "count"@ {
        assert(w == count_leads()[4]@);
    }
    if w == "共"@ {
        assert(w == count_leads()[5]@);
    }
    if w == "找到"@ {
        assert(w == count_leads()[6]@);
    }
}

proof fn lemma_named_unit(w: Seq<char>)
    ensures
        is_one_of(w, count_units()) <==> named_unit(w),
{
    if is_one_of(w, count_units()) {
        let k = choose|k: int| 0 <= k < count_units().len() && w == #[trigger] count_units()[k]@;
        assert(0 <= k < 16);
    }
    if w == "match"@ {
        assert(w == count_units()[0]@);
    }
    if w == "matches"@ {
        assert(w == count_units()[1]@);
    }
    if w == "result"@ {
        assert(w == count_units()[2]@);
    }
    if w == "results"@ {
        assert(w == count_units()[3]@);
    }
    if w == "file"@ {
        assert(w == count_units()[4]@);
    }
    if w == "files"@ {
        assert(w == count_units()[5]@);
    }
    if w == "path"@ {
        assert(w == count_units()[6]@);
    }
    if w == "paths"@ {
        assert(w == count_units()[7]@);
    }
    if w == "line"@ {
        assert(w == count_units()[8]@);
    }
    if w == "lines"@ {
        assert(w == count_units()[9]@);
    }
    if w == "处匹配"@ {
        assert(w == count_units()[10]@);
    }
    if w == "處匹配"@ {
        assert(w == count_units()[11]@);
    }
    if w == "个匹配"@ {
        assert(w == count_units()[12]@);
    }
    if w == "個匹配"@ {
        assert(w == count_units()[13]@);
    }
    if w == "个文件"@ {
        assert(w == count_units()[14]@);
    }
    if w == "個文件"@ {
        assert(w == count_units()[15]@);
    }
}

/// The only count phrases are `<count> <unit>` after a word that is not a
/// lead, and `<lead> <count> <unit>`; the count is at most
/// [`MAX_TRUSTED_MATCH_COUNT`]. Every such phrase declares its count, and a
/// three-word line whose first word is not a lead declares none.
pub proof fn law_count_phrase_shapes(ws: Seq<Seq<char>>)
    ensures
        phrase_count(ws) matches Some(n) ==> n <= MAX_TRUSTED_MATCH_COUNT && ((ws.len() == 2
            && !named_lead(ws[0]) && parse_u64(ws[0]) == Some(n as u64) && named_unit(ws[1])) || (
        ws.len() == 3 && named_lead(ws[0]) && parse_u64(ws[1]) == Some(n as u64) && named_unit(
            ws[2],
        ))),
        ws.len() == 3 && !named_lead(ws[0]) ==> phrase_count(ws) is None,
        ws.len() == 2 && named_lead(ws[0]) ==> phrase_count(ws) is None,
        ws.len() == 2 && !named_lead(ws[0]) && named_unit(ws[1]) && parse_u64(ws[0]) is Some
            && parse_u64(ws[0]).unwrap() <= MAX_TRUSTED_MATCH_COUNT ==> phrase_count(ws) == Some(
            parse_u64(ws[0]).unwrap() as usize,
        ),
        ws.len() == 3 && named_lead(ws[0]) && named_unit(ws[2]) && parse_u64(ws[1]) is Some
            && parse_u64(ws[1]).unwrap() <= MAX_TRUSTED_MATCH_COUNT ==> phrase_count(ws) == Some(
            parse_u64(ws[1]).unwrap() as usize,
        ),
{
    if ws.len() > 0 {
        lemma_named_lead(ws[0]);
    }
    if ws.len() == 2 {
        lemma_named_unit(ws[1]);
    }
    if ws.len() == 3 {
        lemma_named_unit(ws[2]);
    }
}

} // verus!
