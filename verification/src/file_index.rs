//! The workspace file index behind input affordances: which entries a
//! bounded breadth-first walk lists, the order it visits them in, and the
//! index it builds — a sorted set of relative paths and the most recently
//! modified source file.
//!
//! The caller reads directories; this module decides.

use vstd::prelude::*;

use crate::text::{
    chars_eq_str, chars_of, equals_any, insert_sorted, insert_sorted_chars, lemma_insert_sorted_shape,
    lemma_lex_irreflexive, lemma_lex_transitive, lex_less, lex_lt, lower_chars,
    lower_seq, is_one_of, string_of, strictly_ascending, to_lowercase, unicode_lowercase,
};

verus! {

/// At most this many paths are indexed.
pub const FILE_CAP: usize = 2000;

/// At most this many directory entries are read by one walk.
pub const ENTRY_CAP: usize = 8192;

/// Directories deeper than this below the root are not entered.
pub const SCAN_DEPTH: usize = 12;

/// Entries that are neither listed nor entered: hidden ones and build
/// output.
pub open spec fn skipped_name_spec(name: Seq<char>) -> bool {
    (name.len() > 0 && name[0] == '.') || name == "target"@ || name == "node_modules"@
}

/// Whether an entry is skipped by the walk.
pub fn skipped_name(name: &str) -> (b: bool)
    ensures
        b == skipped_name_spec(name@),
{
    let cs = chars_of(name);
    (cs.len() > 0 && cs[0] == '.') || chars_eq_str(cs.as_slice(), "target") || chars_eq_str(
        cs.as_slice(),
        "node_modules",
    )
}

/// Extensions of source files, lower-case.
pub open spec fn source_extensions() -> Seq<&'static str> {
    seq![
        "rs", "ts", "tsx", "js", "jsx", "mjs", "cjs", "py", "go", "java", "rb", "php", "c", "cc",
        "cpp", "h", "hpp", "cs", "swift", "kt", "vue", "svelte", "css", "scss", "less", "html",
    ]
}

fn source_extensions_list() -> (r: &'static [&'static str])
    ensures
        r@ == source_extensions(),
{
    let a: &'static [&'static str; 26] = &[
        "rs", "ts", "tsx", "js", "jsx", "mjs", "cjs", "py", "go", "java", "rb", "php", "c", "cc",
        "cpp", "h", "hpp", "cs", "swift", "kt", "vue", "svelte", "css", "scss", "less", "html",
    ];
    let r: &'static [&'static str] = a;
    r
}

/// Whether a file extension marks a source file, ignoring ASCII case.
pub fn is_source_extension(extension: &str) -> (b: bool)
    ensures
        b == is_one_of(lower_seq(extension@), source_extensions()),
{
    let lowered = lower_chars(chars_of(extension).as_slice());
    equals_any(lowered.as_slice(), source_extensions_list())
}

/// The source extensions are exactly these twenty-six, compared ignoring
/// ASCII case: a file is a source file when the lowered extension is one of
/// them, and only then.
pub proof fn law_source_extensions(extension: Seq<char>)
    ensures
        ({
            let l = lower_seq(extension);
            is_one_of(l, source_extensions()) <==> (l == "rs"@ || l == "ts"@ || l == "tsx"@ || l == "js"@ || l == "jsx"@ || l == "mjs"@ || l == "cjs"@ || l == "py"@ || l == "go"@ || l == "java"@ || l == "rb"@ || l == "php"@ || l == "c"@ || l == "cc"@ || l == "cpp"@ || l == "h"@ || l == "hpp"@ || l == "cs"@ || l == "swift"@ || l == "kt"@ || l == "vue"@ || l == "svelte"@ || l == "css"@ || l == "scss"@ || l == "less"@ || l == "html"@)
        }),
{
    let l = lower_seq(extension);
    let s = source_extensions();
    if is_one_of(l, s) {
        let k = choose|k: int| 0 <= k < s.len() && l == #[trigger] s[k]@;
        assert(0 <= k < 26);
    }
    if l == "rs"@ { assert(l == s[0]@); }
    if l == "ts"@ { assert(l == s[1]@); }
    if l == "tsx"@ { assert(l == s[2]@); }
    if l == "js"@ { assert(l == s[3]@); }
    if l == "jsx"@ { assert(l == s[4]@); }
    if l == "mjs"@ { assert(l == s[5]@); }
    if l == "cjs"@ { assert(l == s[6]@); }
    if l == "py"@ { assert(l == s[7]@); }
    if l == "go"@ { assert(l == s[8]@); }
    if l == "java"@ { assert(l == s[9]@); }
    if l == "rb"@ { assert(l == s[10]@); }
    if l == "php"@ { assert(l == s[11]@); }
    if l == "c"@ { assert(l == s[12]@); }
    if l == "cc"@ { assert(l == s[13]@); }
    if l == "cpp"@ { assert(l == s[14]@); }
    if l == "h"@ { assert(l == s[15]@); }
    if l == "hpp"@ { assert(l == s[16]@); }
    if l == "cs"@ { assert(l == s[17]@); }
    if l == "swift"@ { assert(l == s[18]@); }
    if l == "kt"@ { assert(l == s[19]@); }
    if l == "vue"@ { assert(l == s[20]@); }
    if l == "svelte"@ { assert(l == s[21]@); }
    if l == "css"@ { assert(l == s[22]@); }
    if l == "scss"@ { assert(l == s[23]@); }
    if l == "less"@ { assert(l == s[24]@); }
    if l == "html"@ { assert(l == s[25]@); }
}

/// How many more entries a walk may read after `scanned`, or `None` once
/// the budget is spent.
pub fn remaining_entries(scanned: usize) -> (r: Option<usize>)
    ensures
        r == if scanned >= ENTRY_CAP {
            None::<usize>
        } else {
            Some((ENTRY_CAP - scanned) as usize)
        },
{
    if scanned >= ENTRY_CAP {
        None
    } else {
        Some(ENTRY_CAP - scanned)
    }
}

/// The depth of a subdirectory found at `depth`, when it may still be
/// entered.
pub fn child_depth(depth: usize) -> (r: Option<usize>)
    ensures
        r == if depth < SCAN_DEPTH {
            Some((depth + 1) as usize)
        } else {
            None::<usize>
        },
{
    if depth < SCAN_DEPTH {
        Some(depth + 1)
    } else {
        None
    }
}

/// The path of an indexed file as shown: backslashes become slashes.
pub open spec fn display_path_spec(p: Seq<char>) -> Seq<char> {
    Seq::new(p.len(), |i: int| if p[i] == '\\' { '/' } else { p[i] })
}

/// Show a relative path with forward slashes.
pub fn display_path(p: &str) -> (r: String)
    ensures
        r@ == display_path_spec(p@),
{
    let cs = chars_of(p);
    let mut out: Vec<char> = Vec::new();
    let mut i: usize = 0;
    while i < cs.len()
        invariant
            i <= cs@.len(),
            cs@ == p@,
            out@ == display_path_spec(p@).take(i as int),
        decreases cs.len() - i,
    {
        out.push(if cs[i] == '\\' { '/' } else { cs[i] });
        proof {
            assert(out@ =~= display_path_spec(p@).take(i + 1));
        }
        i += 1;
    }
    proof {
        assert(display_path_spec(p@).take(cs@.len() as int) =~= display_path_spec(p@));
    }
    string_of(out.as_slice())
}

// ---------------------------------------------------------------------------
// Visiting order
// ---------------------------------------------------------------------------

/// An entry name with the key it is ordered by: its Unicode lowercase form.
pub open spec fn folded(name: Seq<char>) -> Seq<char> {
    unicode_lowercase(name)
}

/// Insert `x` after every entry whose key is not greater than its own.
pub open spec fn insert_stable(s: Seq<Seq<char>>, x: Seq<char>) -> Seq<Seq<char>>
    decreases s.len(),
{
    if s.len() == 0 {
        seq![x]
    } else if lex_lt(folded(x), folded(s[0])) {
        seq![x] + s
    } else {
        seq![s[0]] + insert_stable(s.drop_first(), x)
    }
}

/// The names ordered by their lowercase form, equal keys keeping their
/// original order (a stable sort).
pub open spec fn order_by_folded(names: Seq<Seq<char>>) -> Seq<Seq<char>>
    decreases names.len(),
{
    if names.len() == 0 {
        seq![]
    } else {
        insert_stable(order_by_folded(names.drop_last()), names.last())
    }
}

/// The keys never decrease along `s`.
pub open spec fn folded_ascending(s: Seq<Seq<char>>) -> bool {
    forall|i: int, j: int| 0 <= i < j < s.len() ==> !lex_lt(folded(#[trigger] s[j]), folded(#[trigger] s[i]))
}

/// Where stable insertion puts `x`: after the leading entries whose keys are
/// not greater than its own.
proof fn lemma_insert_stable_at(s: Seq<Seq<char>>, x: Seq<char>, p: int)
    requires
        0 <= p <= s.len(),
        forall|j: int| 0 <= j < p ==> !lex_lt(folded(x), folded(#[trigger] s[j])),
        p < s.len() ==> lex_lt(folded(x), folded(s[p])),
    ensures
        insert_stable(s, x) == s.take(p) + seq![x] + s.skip(p),
    decreases p,
{
    if p == 0 {
        assert(s.take(0) + seq![x] + s.skip(0) =~= if s.len() == 0 { seq![x] } else { seq![x] + s });
    } else {
        let t = s.drop_first();
        assert forall|j: int| 0 <= j < p - 1 implies !lex_lt(folded(x), folded(#[trigger] t[j])) by {
            assert(t[j] == s[j + 1]);
        }
        if p < s.len() {
            assert(t[p - 1] == s[p]);
        }
        lemma_insert_stable_at(t, x, p - 1);
        assert(seq![s[0]] + (t.take(p - 1) + seq![x] + t.skip(p - 1)) =~= s.take(p) + seq![x] + s.skip(p));
    }
}

proof fn lemma_insert_stable_sorted(s: Seq<Seq<char>>, x: Seq<char>, p: int)
    requires
        folded_ascending(s),
        0 <= p <= s.len(),
        forall|j: int| 0 <= j < p ==> !lex_lt(folded(x), folded(#[trigger] s[j])),
        p < s.len() ==> lex_lt(folded(x), folded(s[p])),
    ensures
        folded_ascending(s.take(p) + seq![x] + s.skip(p)),
{
    let r = s.take(p) + seq![x] + s.skip(p);
    assert forall|i: int, j: int| 0 <= i < j < r.len() implies !lex_lt(folded(#[trigger] r[j]), folded(#[trigger] r[i])) by {
        if j < p {
            assert(r[i] == s[i] && r[j] == s[j]);
        } else if j == p {
            assert(r[i] == s[i] && r[j] == x);
        } else if i < p {
            assert(r[i] == s[i] && r[j] == s[j - 1]);
        } else if i == p {
            assert(r[i] == x && r[j] == s[j - 1]);
            if lex_lt(folded(s[j - 1]), folded(x)) {
                lemma_lex_transitive(folded(s[j - 1]), folded(x), folded(s[p]));
                if j - 1 > p {
                    assert(!lex_lt(folded(s[j - 1]), folded(s[p])));
                } else {
                    lemma_lex_irreflexive(folded(s[p]));
                }
            }
        } else {
            assert(r[i] == s[i - 1] && r[j] == s[j - 1]);
        }
    }
}

proof fn lemma_first_greater(s: Seq<Seq<char>>, x: Seq<char>, k: int)
    requires
        0 <= k <= s.len(),
    ensures
        k <= first_greater(s, x, k) <= s.len(),
        forall|j: int| k <= j < first_greater(s, x, k) ==> !lex_lt(folded(x), folded(#[trigger] s[j])),
        first_greater(s, x, k) < s.len() ==> lex_lt(folded(x), folded(s[first_greater(s, x, k)])),
    decreases s.len() - k,
{
    if k < s.len() && !lex_lt(folded(x), folded(s[k])) {
        lemma_first_greater(s, x, k + 1);
    }
}

/// The first index at or after `k` whose key is greater than that of `x`;
/// the length when there is none.
pub open spec fn first_greater(s: Seq<Seq<char>>, x: Seq<char>, k: int) -> int
    decreases s.len() - k,
{
    if k >= s.len() {
        s.len() as int
    } else if lex_lt(folded(x), folded(s[k])) {
        k
    } else {
        first_greater(s, x, k + 1)
    }
}

/// Stable insertion puts `x` at [`first_greater`].
proof fn lemma_insert_stable_shape(s: Seq<Seq<char>>, x: Seq<char>)
    ensures
        insert_stable(s, x) == s.take(first_greater(s, x, 0)) + seq![x] + s.skip(first_greater(s, x, 0)),
        folded_ascending(s) ==> folded_ascending(insert_stable(s, x)),
{
    lemma_first_greater(s, x, 0);
    let p = first_greater(s, x, 0);
    lemma_insert_stable_at(s, x, p);
    if folded_ascending(s) {
        lemma_insert_stable_sorted(s, x, p);
    }
}

/// The visiting order never decreases by key, and it holds exactly the
/// names given.
pub proof fn law_visiting_order_is_sorted(names: Seq<Seq<char>>)
    ensures
        folded_ascending(order_by_folded(names)),
        order_by_folded(names).to_multiset() == names.to_multiset(),
    decreases names.len(),
{
    broadcast use vstd::seq_lib::group_to_multiset_ensures;
    if names.len() > 0 {
        let prev = order_by_folded(names.drop_last());
        law_visiting_order_is_sorted(names.drop_last());
        let x = names.last();
        lemma_insert_stable_shape(prev, x);
        lemma_first_greater(prev, x, 0);
        let p = first_greater(prev, x, 0);
        let r = insert_stable(prev, x);
        assert(r.remove(p) =~= prev);
        assert(r[p] == x);
        assert(r.to_multiset() =~= prev.to_multiset().insert(x)) by {
            assert(r.contains(x));
        }
        assert(names =~= names.drop_last().push(x));
    }
}

/// The views of a vector of strings.
pub open spec fn string_views(v: Seq<String>) -> Seq<Seq<char>> {
    v.map_values(|s: String| s@)
}

/// Order directory entry names for visiting: by their Unicode lowercase
/// form, equal forms keeping the order they were read in.
pub fn order_entries(names: Vec<String>) -> (r: Vec<String>)
    ensures
        string_views(r@) == order_by_folded(string_views(names@)),
{
    let ghost all = string_views(names@);
    let mut out: Vec<String> = Vec::new();
    let mut keys: Vec<Vec<char>> = Vec::new();
    let mut i: usize = 0;
    while i < names.len()
        invariant
            i <= names@.len(),
            all == string_views(names@),
            string_views(out@) == order_by_folded(all.take(i as int)),
            keys@.len() == out@.len(),
            forall|k: int| 0 <= k < keys@.len() ==> #[trigger] keys@[k]@ == folded(out@[k]@),
        decreases names.len() - i,
    {
        let name = names[i].clone();
        let key = chars_of(to_lowercase(name.as_str()).as_str());
        let ghost prev = string_views(out@);
        proof {
            assert(all.take(i + 1).drop_last() =~= all.take(i as int));
            assert(all.take(i + 1).last() == all[i as int]);
            assert(all[i as int] == names@[i as int]@);
        }
        let mut j: usize = 0;
        while j < out.len() && !lex_less(key.as_slice(), keys[j].as_slice())
            invariant
                j <= out@.len(),
                keys@.len() == out@.len(),
                prev == string_views(out@),
                forall|k: int| 0 <= k < keys@.len() ==> #[trigger] keys@[k]@ == folded(out@[k]@),
                key@ == folded(name@),
                forall|k: int| 0 <= k < j ==> !lex_lt(folded(name@), folded(#[trigger] prev[k])),
            decreases out.len() - j,
        {
            proof {
                assert(prev[j as int] == out@[j as int]@);
            }
            j += 1;
        }
        proof {
            if j < out@.len() {
                assert(prev[j as int] == out@[j as int]@);
            }
            lemma_insert_stable_at(prev, name@, j as int);
        }
        let ghost keys_before = keys@;
        let ghost out_before = out@;
        out.insert(j, name);
        keys.insert(j, key);
        proof {
            assert(string_views(out@) =~= prev.take(j as int) + seq![all[i as int]] + prev.skip(j as int));
            assert forall|k: int| 0 <= k < keys@.len() implies #[trigger] keys@[k]@ == folded(out@[k]@) by {
                if k < j {
                    assert(keys@[k] == keys_before[k] && out@[k] == out_before[k]);
                } else if k > j {
                    assert(keys@[k] == keys_before[k - 1] && out@[k] == out_before[k - 1]);
                }
            }
        }
        i += 1;
    }
    proof {
        assert(all.take(names@.len() as int) =~= all);
    }
    out
}

// ---------------------------------------------------------------------------
// The index
// ---------------------------------------------------------------------------

/// Candidate `a` is more recent than `b`: modified later, or at the same
/// time with the smaller path.
pub open spec fn more_recent(a: (i128, Seq<char>), b: (i128, Seq<char>)) -> bool {
    a.0 > b.0 || (a.0 == b.0 && lex_lt(a.1, b.1))
}

/// `c` is one of `cs` and no candidate of `cs` is more recent.
pub open spec fn most_recent_of(cs: Seq<(i128, Seq<char>)>, c: (i128, Seq<char>)) -> bool {
    cs.contains(c) && forall|i: int| 0 <= i < cs.len() ==> !more_recent(#[trigger] cs[i], c)
}

/// The paths kept by the index: the first [`FILE_CAP`] recorded.
pub open spec fn kept(recorded: Seq<Seq<char>>) -> Seq<Seq<char>> {
    if recorded.len() <= FILE_CAP {
        recorded
    } else {
        recorded.take(FILE_CAP as int)
    }
}

/// The finished index: the listed paths, sorted and without repeats, and
/// the most recently modified source file.
pub struct WorkspaceFileIndex {
    pub paths: Vec<String>,
    pub recent_source: Option<String>,
}

/// An index being built from the files a walk visits, in order.
pub struct FileIndexBuilder {
    listed: Vec<String>,
    best: Option<(i128, String)>,
    recorded: Ghost<Seq<Seq<char>>>,
    sources: Ghost<Seq<(i128, Seq<char>)>>,
}

impl FileIndexBuilder {
    /// Every path recorded so far, in order.
    pub closed spec fn recorded(&self) -> Seq<Seq<char>> {
        self.recorded@
    }

    /// The source files with a known modification time recorded so far.
    pub closed spec fn sources(&self) -> Seq<(i128, Seq<char>)> {
        self.sources@
    }

    pub closed spec fn wf(&self) -> bool {
        &&& string_views(self.listed@) == kept(self.recorded@)
        &&& (self.best is None <==> self.sources@.len() == 0)
        &&& (self.best matches Some((m, p)) ==> most_recent_of(self.sources@, (m, p@)))
    }

    pub fn new() -> (b: Self)
        ensures
            b.wf(),
            b.recorded() == Seq::<Seq<char>>::empty(),
            b.sources() == Seq::<(i128, Seq<char>)>::empty(),
    {
        let b = FileIndexBuilder {
            listed: Vec::new(),
            best: None,
            recorded: Ghost(Seq::empty()),
            sources: Ghost(Seq::empty()),
        };
        proof {
            assert(string_views(b.listed@) =~= kept(Seq::<Seq<char>>::empty()));
        }
        b
    }

    /// Record one visited regular file: its relative path as shown, its
    /// extension, and its modification time in nanoseconds from the Unix
    /// epoch when known. Only source files with a known time compete for
    /// the most recent.
    pub fn record(&mut self, relative: String, extension: Option<&str>, modified_ns: Option<i128>)
        requires
            old(self).wf(),
        ensures
            final(self).wf(),
            final(self).recorded() == old(self).recorded().push(relative@),
            final(self).sources() == match (extension, modified_ns) {
                (Some(e), Some(m)) => if is_one_of(lower_seq(e@), source_extensions()) {
                    old(self).sources().push((m, relative@))
                } else {
                    old(self).sources()
                },
                _ => old(self).sources(),
            },
    {
        let ghost rec0 = self.recorded@;
        let ghost src0 = self.sources@;
        if self.listed.len() < FILE_CAP {
            self.listed.push(relative.clone());
        }
        self.recorded = Ghost(rec0.push(relative@));
        proof {
            let r = rec0.push(relative@);
            if rec0.len() < FILE_CAP {
                assert(string_views(self.listed@) =~= kept(r));
            } else {
                assert(kept(r) =~= kept(rec0));
            }
        }
        let is_source = match extension {
            Some(e) => is_source_extension(e),
            None => false,
        };
        if !is_source {
            return;
        }
        let m = match modified_ns {
            Some(m) => m,
            None => {
                return;
            },
        };
        self.sources = Ghost(src0.push((m, relative@)));
        let replace = match &self.best {
            None => true,
            Some((t, p)) => m > *t || (m == *t && lex_less(chars_of(relative.as_str()).as_slice(), chars_of(p.as_str()).as_slice())),
        };
        proof {
            let cs = src0.push((m, relative@));
            assert(cs[cs.len() - 1] == (m, relative@));
        }
        if replace {
            proof {
                let cs = src0.push((m, relative@));
                assert forall|i: int| 0 <= i < cs.len() implies !more_recent(#[trigger] cs[i], (m, relative@)) by {
                    if i < src0.len() {
                        assert(cs[i] == src0[i]);
                        if let Some((tr, p)) = &self.best {
                            let t = *tr;
                            assert(!more_recent(src0[i], (t, p@)));
                            lemma_more_recent_order(src0[i], (t, p@), (m, relative@));
                        }
                    } else {
                        lemma_lex_irreflexive(relative@);
                    }
                }
            }
            self.best = Some((m, relative));
        } else {
            proof {
                let cs = src0.push((m, relative@));
                if let Some((tr, p)) = &self.best {
                    let t = *tr;
                    assert(src0.contains((t, p@)));
                    let w = choose|i: int| 0 <= i < src0.len() && src0[i] == (t, p@);
                    assert(cs[w] == (t, p@));
                    assert forall|i: int| 0 <= i < cs.len() implies !more_recent(#[trigger] cs[i], (t, p@)) by {
                        if i < src0.len() {
                            assert(cs[i] == src0[i]);
                        } else {
                            assert(cs[i] == (m, relative@));
                            if m == t && lex_lt(relative@, p@) {
                            }
                        }
                    }
                }
            }
        }
    }

    /// Finish the index: the kept paths sorted without repeats, and the most
    /// recent source file.
    pub fn finish(self) -> (ix: WorkspaceFileIndex)
        requires
            self.wf(),
        ensures
            strictly_ascending(string_views(ix.paths@)),
            forall|x: Seq<char>| string_views(ix.paths@).contains(x) <==> kept(self.recorded()).contains(x),
            ix.paths@.len() <= FILE_CAP,
            ix.recent_source is None <==> self.sources().len() == 0,
            ix.recent_source matches Some(p) ==> exists|m: i128| #[trigger] most_recent_of(self.sources(), (m, p@)),
    {
        let ghost listed = string_views(self.listed@);
        let mut set: Vec<Vec<char>> = Vec::new();
        let mut i: usize = 0;
        while i < self.listed.len()
            invariant
                i <= self.listed@.len(),
                listed == string_views(self.listed@),
                strictly_ascending(set@.map_values(|v: Vec<char>| v@)),
                set@.len() <= i,
                forall|x: Seq<char>| set@.map_values(|v: Vec<char>| v@).contains(x) <==> listed.take(i as int).contains(x),
            decreases self.listed.len() - i,
        {
            let ghost before = set@.map_values(|v: Vec<char>| v@);
            let d = chars_of(self.listed[i].as_str());
            proof {
                assert(listed[i as int] == self.listed@[i as int]@);
                lemma_set_step(before, listed.take(i as int), d@);
                assert(listed.take(i + 1) =~= listed.take(i as int).push(d@));
            }
            insert_sorted_chars(&mut set, d);
            i += 1;
        }
        proof {
            assert(listed.take(self.listed@.len() as int) =~= listed);
            assert(self.listed@.len() == kept(self.recorded@).len());
        }
        let mut paths: Vec<String> = Vec::new();
        let mut j: usize = 0;
        while j < set.len()
            invariant
                j <= set@.len(),
                string_views(paths@) == set@.map_values(|v: Vec<char>| v@).take(j as int),
            decreases set.len() - j,
        {
            let item = string_of(set[j].as_slice());
            let ghost old_paths = paths@;
            paths.push(item);
            proof {
                let sv = set@.map_values(|v: Vec<char>| v@);
                assert(sv[j as int] == set@[j as int]@);
                assert(paths@ == old_paths.push(item));
                assert(string_views(paths@) =~= string_views(old_paths).push(item@));
                assert(sv.take(j + 1) =~= sv.take(j as int).push(sv[j as int]));
            }
            j += 1;
        }
        proof {
            assert(set@.map_values(|v: Vec<char>| v@).take(set@.len() as int) =~= set@.map_values(|v: Vec<char>| v@));
            assert(self.listed@.len() <= FILE_CAP);
        }
        let ghost sources = self.sources();
        let best = self.best;
        let ghost gbest = best;
        let recent_source = match best {
            Some((_, p)) => Some(p),
            None => None,
        };
        proof {
            if let Some(p) = &recent_source {
                let (m, q) = gbest.unwrap();
                assert(q == *p);
                assert(most_recent_of(sources, (m, p@)));
            }
        }
        WorkspaceFileIndex { paths, recent_source }
    }
}

proof fn lemma_more_recent_order(a: (i128, Seq<char>), b: (i128, Seq<char>), c: (i128, Seq<char>))
    requires
        !more_recent(a, b),
        more_recent(c, b),
    ensures
        !more_recent(a, c),
{
    if more_recent(a, c) {
        if a.0 == c.0 && c.0 == b.0 {
            lemma_lex_transitive(a.1, c.1, b.1);
        }
    }
}

/// Inserting keeps the new element and every old one.
proof fn lemma_insert_sorted_keeps(ds: Seq<Seq<char>>, d: Seq<char>)
    ensures
        insert_sorted(ds, d).contains(d),
        forall|x: Seq<char>| ds.contains(x) ==> insert_sorted(ds, d).contains(x),
    decreases ds.len(),
{
    let r = insert_sorted(ds, d);
    if ds.len() == 0 {
        assert(r[0] == d);
    } else if ds[0] == d {
        assert(r[0] == d);
    } else if lex_lt(d, ds[0]) {
        assert(r[0] == d);
        assert forall|x: Seq<char>| ds.contains(x) implies r.contains(x) by {
            let k = choose|k: int| 0 <= k < ds.len() && ds[k] == x;
            assert(r[k + 1] == x);
        }
    } else {
        let t = ds.drop_first();
        lemma_insert_sorted_keeps(t, d);
        let rest = insert_sorted(t, d);
        assert(r == seq![ds[0]] + rest);
        let w = choose|k: int| 0 <= k < rest.len() && rest[k] == d;
        assert(r[w + 1] == d);
        assert forall|x: Seq<char>| ds.contains(x) implies r.contains(x) by {
            let k = choose|k: int| 0 <= k < ds.len() && ds[k] == x;
            if k == 0 {
                assert(r[0] == x);
            } else {
                assert(t[k - 1] == x);
                assert(t.contains(x));
                let q = choose|q: int| 0 <= q < rest.len() && rest[q] == x;
                assert(r[q + 1] == x);
            }
        }
    }
}

/// Inserting adds at most one element.
proof fn lemma_insert_sorted_len(ds: Seq<Seq<char>>, d: Seq<char>)
    ensures
        insert_sorted(ds, d).len() <= ds.len() + 1,
    decreases ds.len(),
{
    if ds.len() > 0 && ds[0] != d && !lex_lt(d, ds[0]) {
        lemma_insert_sorted_len(ds.drop_first(), d);
    }
}

/// One step of building the sorted set of listed paths.
proof fn lemma_set_step(before: Seq<Seq<char>>, prefix: Seq<Seq<char>>, d: Seq<char>)
    requires
        strictly_ascending(before),
        forall|x: Seq<char>| before.contains(x) <==> prefix.contains(x),
    ensures
        strictly_ascending(insert_sorted(before, d)),
        insert_sorted(before, d).len() <= before.len() + 1,
        forall|x: Seq<char>| insert_sorted(before, d).contains(x) <==> prefix.push(d).contains(x),
{
    lemma_insert_sorted_shape(before, d);
    lemma_insert_sorted_keeps(before, d);
    lemma_insert_sorted_len(before, d);
    let after = insert_sorted(before, d);
    let t1 = prefix.push(d);
    assert forall|x: Seq<char>| after.contains(x) <==> t1.contains(x) by {
        if after.contains(x) {
            let k = choose|k: int| 0 <= k < after.len() && after[k] == x;
            if x != d {
                assert(before.contains(x));
                let q = choose|q: int| 0 <= q < prefix.len() && prefix[q] == x;
                assert(t1[q] == x);
            } else {
                assert(t1[prefix.len() as int] == x);
            }
        }
        if t1.contains(x) {
            let q = choose|q: int| 0 <= q < t1.len() && t1[q] == x;
            if q < prefix.len() {
                assert(prefix[q] == x);
                assert(prefix.contains(x));
            }
        }
    }
}

} // verus!
