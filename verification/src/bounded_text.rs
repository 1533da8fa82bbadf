//! Character-bounded text that never cuts a visible glyph in half.
//!
//! Scalar-aligned truncation is valid UTF-8 but can still leave an orphan
//! skin-tone modifier, combining mark or half of a ZWJ sequence. Both
//! operations here keep or drop whole extended grapheme clusters, as the
//! `unicode-segmentation` crate splits them.

use unicode_segmentation::UnicodeSegmentation;
use vstd::prelude::*;

use crate::text::{chars_of, string_of};

verus! {

/// The extended grapheme clusters of a text, in order, as
/// `unicode_segmentation::UnicodeSegmentation::graphemes(text, true)` yields
/// them.
pub uninterp spec fn extended_graphemes(s: Seq<char>) -> Seq<Seq<char>>;

/// Pieces concatenated in order.
pub open spec fn joined(gs: Seq<Seq<char>>) -> Seq<char>
    decreases gs.len(),
{
    if gs.len() == 0 {
        seq![]
    } else {
        gs[0] + joined(gs.drop_first())
    }
}

/// The views of a list of strings.
pub open spec fn string_views(v: Seq<String>) -> Seq<Seq<char>> {
    v.map_values(|s: String| s@)
}

/// `text.graphemes(true)`, each cluster collected into a `String`.
///
/// Claimed of the crate: the clusters are [`extended_graphemes`] of the text,
/// none is empty, and in order they make up the text exactly (the iterator
/// walks the string from start to end, yielding consecutive sub-slices).
#[verifier::external_body]
fn graphemes_of(text: &str) -> (gs: Vec<String>)
    ensures
        string_views(gs@) == extended_graphemes(text@),
        joined(string_views(gs@)) == text@,
        forall|i: int| 0 <= i < gs@.len() ==> (#[trigger] gs@[i])@.len() > 0,
{
    text.graphemes(true).map(|g: &str| g.to_owned()).collect()
}

/// The leading clusters whose scalar counts fit in `budget` together.
pub open spec fn prefix_graphemes(gs: Seq<Seq<char>>, budget: int) -> Seq<Seq<char>>
    decreases gs.len(),
{
    if gs.len() == 0 || gs[0].len() > budget {
        seq![]
    } else {
        seq![gs[0]] + prefix_graphemes(gs.drop_first(), budget - gs[0].len())
    }
}

/// The clusters left after dropping whole leading clusters until at least
/// `need` scalars are gone.
pub open spec fn drop_graphemes(gs: Seq<Seq<char>>, need: int) -> Seq<Seq<char>>
    decreases gs.len(),
{
    if need <= 0 || gs.len() == 0 {
        gs
    } else {
        drop_graphemes(gs.drop_first(), need - gs[0].len())
    }
}

proof fn lemma_joined_split(gs: Seq<Seq<char>>, k: int)
    requires
        0 <= k <= gs.len(),
    ensures
        joined(gs.take(k)) + joined(gs.skip(k)) == joined(gs),
    decreases k,
{
    if k == 0 {
        assert(gs.take(0) =~= Seq::<Seq<char>>::empty());
        assert(gs.skip(0) =~= gs);
        assert(joined(gs.take(0)) + joined(gs) =~= joined(gs));
    } else {
        let t = gs.drop_first();
        lemma_joined_split(t, k - 1);
        assert(gs.take(k).drop_first() =~= t.take(k - 1));
        assert(gs.skip(k) =~= t.skip(k - 1));
        assert(gs.take(k)[0] == gs[0]);
        assert(joined(gs.take(k)) + joined(gs.skip(k)) =~= gs[0] + (joined(t.take(k - 1)) + joined(
            t.skip(k - 1),
        )));
    }
}

proof fn lemma_joined_push(gs: Seq<Seq<char>>, g: Seq<char>)
    ensures
        joined(gs.push(g)) == joined(gs) + g,
    decreases gs.len(),
{
    if gs.len() == 0 {
        assert(gs.push(g).drop_first() =~= Seq::<Seq<char>>::empty());
        reveal_with_fuel(joined, 2);
        assert(joined(gs.push(g)) =~= g);
        assert(joined(gs) + g =~= g);
    } else {
        lemma_joined_push(gs.drop_first(), g);
        assert(gs.push(g).drop_first() =~= gs.drop_first().push(g));
        assert(joined(gs.push(g)) =~= joined(gs) + g);
    }
}

/// Take a scalar-count-bounded prefix, stopping before a grapheme that would
/// cross the cap: a visible glyph is either kept whole or not kept at all.
pub fn prefix_with_char_limit(text: &str, max_chars: usize) -> (r: String)
    ensures
        r@ == joined(prefix_graphemes(extended_graphemes(text@), max_chars as int)),
{
    let gs = graphemes_of(text);
    let ghost gv = string_views(gs@);
    let mut out: Vec<char> = Vec::new();
    let mut chars: usize = 0;
    let mut i: usize = 0;
    proof {
        assert(gv.take(0) =~= Seq::<Seq<char>>::empty());
        assert(gv.skip(0) =~= gv);
        assert(out@ =~= joined(gv.take(0)));
    }
    while i < gs.len()
        invariant
            i <= gs@.len(),
            gv == string_views(gs@),
            gv == extended_graphemes(text@),
            chars <= max_chars,
            out@ == joined(gv.take(i as int)),
            chars == out@.len(),
            prefix_graphemes(gv, max_chars as int) == gv.take(i as int) + prefix_graphemes(
                gv.skip(i as int),
                max_chars - chars,
            ),
        decreases gs.len() - i,
    {
        let g = chars_of(gs[i].as_str());
        let ghost rest = gv.skip(i as int);
        proof {
            assert(rest[0] == g@);
            assert(rest.drop_first() =~= gv.skip(i + 1));
        }
        if g.len() > max_chars - chars {
            proof {
                assert(prefix_graphemes(rest, max_chars - chars) == Seq::<Seq<char>>::empty());
                assert(gv.take(i as int) + Seq::<Seq<char>>::empty() =~= gv.take(i as int));
            }
            let r = string_of(out.as_slice());
            return r;
        }
        let mut j: usize = 0;
        let ghost base = out@;
        while j < g.len()
            invariant
                j <= g@.len(),
                out@ == base + g@.take(j as int),
            decreases g.len() - j,
        {
            out.push(g[j]);
            proof {
                assert(g@.take(j + 1) =~= g@.take(j as int).push(g@[j as int]));
                assert(out@ =~= base + g@.take(j + 1));
            }
            j += 1;
        }
        proof {
            assert(g@.take(g@.len() as int) =~= g@);
            assert(gv.take(i + 1) =~= gv.take(i as int).push(g@));
            lemma_joined_push(gv.take(i as int), g@);
            assert(gv.take(i as int) + (seq![g@] + prefix_graphemes(
                gv.skip(i + 1),
                max_chars - chars - g@.len(),
            )) =~= gv.take(i + 1) + prefix_graphemes(gv.skip(i + 1), max_chars - chars - g@.len()));
        }
        chars = chars + g.len();
        i += 1;
    }
    proof {
        assert(gv.skip(gv.len() as int) =~= Seq::<Seq<char>>::empty());
        assert(gv.take(gv.len() as int) =~= gv);
        assert(gv + Seq::<Seq<char>>::empty() =~= gv);
    }
    string_of(out.as_slice())
}

/// Retain a bounded tail without starting it in the middle of one visible
/// grapheme: whole leading graphemes are dropped until the text fits, so the
/// retained tail never exceeds `max_chars`.
pub fn trim_tail(output: &mut String, max_chars: usize)
    ensures
        old(output)@.len() <= max_chars ==> final(output)@ == old(output)@,
        old(output)@.len() > max_chars ==> final(output)@ == joined(
            drop_graphemes(extended_graphemes(old(output)@), old(output)@.len() - max_chars),
        ),
{
    let all = chars_of(output.as_str());
    let total = all.len();
    if total <= max_chars {
        return;
    }
    let must_drop = total - max_chars;
    let gs = graphemes_of(output.as_str());
    let ghost gv = string_views(gs@);
    let mut dropped: usize = 0;
    let mut i: usize = 0;
    proof {
        assert(gv.skip(0) =~= gv);
        lemma_joined_split(gv, 0);
    }
    while i < gs.len() && dropped < must_drop
        invariant
            i <= gs@.len(),
            gv == string_views(gs@),
            joined(gv) == all@,
            all@.len() == total,
            dropped <= total,
            dropped == joined(gv.take(i as int)).len(),
            drop_graphemes(gv, must_drop as int) == drop_graphemes(
                gv.skip(i as int),
                must_drop - dropped,
            ),
        decreases gs.len() - i,
    {
        let n = chars_of(gs[i].as_str()).len();
        let ghost rest = gv.skip(i as int);
        proof {
            assert(rest[0] == gs@[i as int]@);
            assert(rest.drop_first() =~= gv.skip(i + 1));
            assert(gv.take(i + 1) =~= gv.take(i as int).push(gs@[i as int]@));
            lemma_joined_push(gv.take(i as int), gs@[i as int]@);
            lemma_joined_split(gv, i + 1);
        }
        dropped = dropped + n;
        i += 1;
    }
    proof {
        if i == gs.len() {
            assert(gv.skip(i as int) =~= Seq::<Seq<char>>::empty());
        }
    }
    let mut kept: Vec<char> = Vec::new();
    let mut k: usize = i;
    let ghost start = i;
    proof {
        assert(gv.subrange(start as int, start as int) =~= Seq::<Seq<char>>::empty());
    }
    while k < gs.len()
        invariant
            start <= k <= gs@.len(),
            gv == string_views(gs@),
            kept@ == joined(gv.subrange(start as int, k as int)),
        decreases gs.len() - k,
    {
        let g = chars_of(gs[k].as_str());
        let mut j: usize = 0;
        let ghost base = kept@;
        while j < g.len()
            invariant
                j <= g@.len(),
                kept@ == base + g@.take(j as int),
            decreases g.len() - j,
        {
            kept.push(g[j]);
            proof {
                assert(g@.take(j + 1) =~= g@.take(j as int).push(g@[j as int]));
                assert(kept@ =~= base + g@.take(j + 1));
            }
            j += 1;
        }
        proof {
            assert(g@.take(g@.len() as int) =~= g@);
            assert(gv.subrange(start as int, k + 1) =~= gv.subrange(start as int, k as int).push(
                g@,
            ));
            lemma_joined_push(gv.subrange(start as int, k as int), g@);
        }
        k += 1;
    }
    proof {
        assert(gv.subrange(start as int, gv.len() as int) =~= gv.skip(start as int));
    }
    *output = string_of(kept.as_slice());
}

/// A bounded prefix is made of whole leading graphemes and fits the cap.
pub proof fn law_prefix_keeps_whole_graphemes(gs: Seq<Seq<char>>, budget: int)
    requires
        budget >= 0,
    ensures
        exists|k: int| 0 <= k <= gs.len() && prefix_graphemes(gs, budget) == gs.take(k),
        joined(prefix_graphemes(gs, budget)).len() <= budget,
    decreases gs.len(),
{
    if gs.len() == 0 || gs[0].len() > budget {
        assert(prefix_graphemes(gs, budget) == gs.take(0));
    } else {
        let t = gs.drop_first();
        law_prefix_keeps_whole_graphemes(t, budget - gs[0].len());
        let k = choose|k: int| 0 <= k <= t.len() && prefix_graphemes(t, budget - gs[0].len()) == t.take(k);
        assert(seq![gs[0]] + t.take(k) =~= gs.take(k + 1));
        let p = prefix_graphemes(gs, budget);
        assert(p.drop_first() =~= prefix_graphemes(t, budget - gs[0].len()));
    }
}

/// A trimmed tail is made of whole trailing graphemes, and when the text was
/// over the cap, at most the cap remains.
pub proof fn law_tail_keeps_whole_graphemes(gs: Seq<Seq<char>>, need: int)
    ensures
        exists|k: int| 0 <= k <= gs.len() && drop_graphemes(gs, need) == gs.skip(k),
        need <= joined(gs).len() ==> joined(drop_graphemes(gs, need)).len() <= joined(gs).len()
            - need,
    decreases gs.len(),
{
    if need <= 0 || gs.len() == 0 {
        assert(drop_graphemes(gs, need) == gs.skip(0));
    } else {
        let t = gs.drop_first();
        law_tail_keeps_whole_graphemes(t, need - gs[0].len());
        let k = choose|k: int| 0 <= k <= t.len() && drop_graphemes(t, need - gs[0].len()) == t.skip(k);
        assert(t.skip(k) =~= gs.skip(k + 1));
        assert(joined(gs) == gs[0] + joined(t));
        if need - gs[0].len() <= 0 {
            assert(drop_graphemes(t, need - gs[0].len()) == t);
        }
    }
}

} // verus!
