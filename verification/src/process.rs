//! Process-facing primitives: the bounded output tail every child pipe drains
//! into, the environment each child carries, program extension candidates,
//! argument lookup in a captured command line, and the Windows clipboard
//! payload.

use std::collections::VecDeque;
use vstd::prelude::*;

use vstd::utf8::encode_utf8;

use crate::git::{split_nul, split_on_nul};
use crate::text::{
    chars_of, lower_chars, lower_seq, same_chars, split_char, split_on_char, trim_whitespace,
    trim_ws, views,
};

verus! {

// ---------------------------------------------------------------------------
// Bounded tail
// ---------------------------------------------------------------------------

/// The newest `cap` bytes of `s` (all of `s` when it is no longer).
pub open spec fn keep_newest(s: Seq<u8>, cap: nat) -> Seq<u8> {
    if s.len() <= cap {
        s
    } else {
        s.skip(s.len() - cap)
    }
}

/// `a + b` without overflow past `usize::MAX` (`usize::saturating_add`).
pub open spec fn saturating_sum(a: nat, b: nat) -> nat {
    if a + b > usize::MAX {
        usize::MAX as nat
    } else {
        a + b
    }
}

/// A byte buffer that keeps only the newest `capacity` bytes while callers
/// continue draining the producer to EOF.
///
/// Stopping a read once a limit is reached can deadlock a child on a full
/// pipe, while an ordinary `Vec` makes a flooding child an out-of-memory risk.
/// The retained bytes never exceed the capacity, even when one input chunk is
/// itself larger than the capacity, and before each push the buffer reserves
/// exactly the room the retained bytes will need, never more than the
/// capacity (the allocator itself may still round an allocation up).
#[derive(Debug, Clone)]
pub struct BoundedTail {
    bytes: VecDeque<u8>,
    capacity: usize,
    total_seen: usize,
}

/// `VecDeque::reserve_exact`: room for `additional` more bytes, without the
/// extra room `reserve` takes for future growth.
///
/// Claimed of std: the contents are unchanged. What is allocated is not
/// stated, since the allocator may give more than asked. The call panics when
/// the new capacity overflows, which the bound on the input rules out.
#[verifier::external_body]
fn reserve_exact_bytes(d: &mut VecDeque<u8>, additional: usize)
    requires
        old(d)@.len() + additional <= usize::MAX / 2,
    ensures
        final(d)@ == old(d)@,
{
    d.reserve_exact(additional);
}

impl BoundedTail {
    /// The bytes currently retained, oldest first.
    pub closed spec fn retained(&self) -> Seq<u8> {
        self.bytes@
    }

    /// The hard byte capacity.
    pub closed spec fn cap(&self) -> nat {
        self.capacity as nat
    }

    /// Total bytes offered, including discarded ones (saturating).
    pub closed spec fn seen(&self) -> nat {
        self.total_seen as nat
    }

    /// Nothing beyond the capacity is retained.
    pub closed spec fn wf(&self) -> bool {
        self.bytes@.len() <= self.capacity
    }

    /// Create an empty tail with a hard byte capacity.
    pub fn new(capacity: usize) -> (t: Self)
        ensures
            t.wf(),
            t.retained() == Seq::<u8>::empty(),
            t.cap() == capacity,
            t.seen() == 0,
    {
        BoundedTail { bytes: VecDeque::new(), capacity, total_seen: 0 }
    }

    /// Append bytes, discarding the oldest bytes as needed to remain bounded.
    pub fn push(&mut self, input: &[u8])
        requires
            old(self).wf(),
        ensures
            final(self).wf(),
            final(self).cap() == old(self).cap(),
            final(self).retained() == keep_newest(old(self).retained() + input@, old(self).cap()),
            final(self).seen() == saturating_sum(old(self).seen(), input@.len()),
    {
        let ghost before = self.bytes@;
        let n = input.len();
        let total: usize = if n > usize::MAX - self.total_seen {
            usize::MAX
        } else {
            self.total_seen + n
        };
        self.total_seen = total;
        let cap = self.capacity;
        if cap == 0 {
            self.bytes.clear();
            proof {
                assert((before + input@).skip((before + input@).len() - 0) =~= Seq::<u8>::empty());
            }
            return;
        }
        if n >= cap {
            self.bytes.clear();
            if cap <= usize::MAX / 2 {
                reserve_exact_bytes(&mut self.bytes, cap);
            }
            let start = n - cap;
            let mut i: usize = start;
            while i < n
                invariant
                    start <= i <= n,
                    n == input@.len(),
                    start == n - cap,
                    self.capacity == cap,
                    self.total_seen == total,
                    self.bytes@ == input@.subrange(start as int, i as int),
                decreases n - i,
            {
                self.bytes.push_back(input[i]);
                proof {
                    assert(input@.subrange(start as int, i + 1) =~= input@.subrange(
                        start as int,
                        i as int,
                    ).push(input@[i as int]));
                }
                i += 1;
            }
            proof {
                let all = before + input@;
                assert(all.skip(all.len() - cap) =~= input@.subrange(start as int, n as int));
            }
            return;
        }
        // Room for the whole input once the oldest `overflow` bytes are gone.
        let room = cap - n;
        let len = self.bytes.len();
        let overflow: usize = if len > room {
            len - room
        } else {
            0
        };
        let mut dropped: usize = 0;
        while dropped < overflow
            invariant
                dropped <= overflow <= before.len(),
                self.capacity == cap,
                self.total_seen == total,
                self.bytes@ == before.skip(dropped as int),
            decreases overflow - dropped,
        {
            let _ = self.bytes.pop_front();
            proof {
                assert(before.skip(dropped as int).subrange(1, before.skip(dropped as int).len() as int)
                    =~= before.skip(dropped + 1));
            }
            dropped += 1;
        }
        let kept = self.bytes.len();
        if cap <= usize::MAX / 2 && kept + n <= cap {
            reserve_exact_bytes(&mut self.bytes, n);
        }
        let mut i: usize = 0;
        while i < n
            invariant
                i <= n,
                n == input@.len(),
                n < cap,
                overflow <= before.len(),
                before.len() - overflow + n <= cap,
                self.capacity == cap,
                self.total_seen == total,
                self.bytes@ == before.skip(overflow as int) + input@.take(i as int),
            decreases n - i,
        {
            self.bytes.push_back(input[i]);
            proof {
                assert(input@.take(i + 1) =~= input@.take(i as int).push(input@[i as int]));
                assert(before.skip(overflow as int) + input@.take(i + 1) =~= (before.skip(
                    overflow as int,
                ) + input@.take(i as int)).push(input@[i as int]));
            }
            i += 1;
        }
        proof {
            let all = before + input@;
            assert(input@.take(n as int) =~= input@);
            if all.len() > cap {
                assert(all.skip(all.len() - cap) =~= before.skip(overflow as int) + input@);
            } else {
                assert(overflow == 0);
                assert(before.skip(0) =~= before);
            }
        }
    }

    /// Remove all retained bytes and reset the counter.
    pub fn clear(&mut self)
        requires
            old(self).wf(),
        ensures
            final(self).wf(),
            final(self).cap() == old(self).cap(),
            final(self).retained() == Seq::<u8>::empty(),
            final(self).seen() == 0,
    {
        self.bytes.clear();
        self.total_seen = 0;
    }

    /// Number of bytes currently retained.
    pub fn len(&self) -> (n: usize)
        ensures
            n == self.retained().len(),
    {
        self.bytes.len()
    }

    /// Whether no bytes are currently retained.
    pub fn is_empty(&self) -> (b: bool)
        ensures
            b == (self.retained().len() == 0),
    {
        self.bytes.len() == 0
    }

    /// Total bytes offered to this tail, including discarded bytes.
    pub fn total_seen(&self) -> (n: usize)
        ensures
            n == self.seen(),
    {
        self.total_seen
    }

    /// Whether older bytes were discarded.
    pub fn truncated(&self) -> (b: bool)
        ensures
            b == (self.seen() > self.cap()),
    {
        self.total_seen > self.capacity
    }

    /// The retained tail, in the order the bytes arrived.
    pub fn into_bytes(self) -> (v: Vec<u8>)
        ensures
            v@ == self.retained(),
    {
        let mut v: Vec<u8> = Vec::new();
        let mut i: usize = 0;
        let n = self.bytes.len();
        while i < n
            invariant
                i <= n,
                n == self.bytes@.len(),
                v@ == self.bytes@.take(i as int),
            decreases n - i,
        {
            v.push(self.bytes[i]);
            proof {
                assert(self.bytes@.take(i + 1) =~= self.bytes@.take(i as int).push(
                    self.bytes@[i as int],
                ));
            }
            i += 1;
        }
        proof {
            assert(self.bytes@.take(n as int) =~= self.bytes@);
        }
        v
    }
}

impl BoundedTail {
    /// The counters of a tail are machine words.
    pub proof fn lemma_counts_fit(&self)
        ensures
            self.seen() <= usize::MAX,
            self.cap() <= usize::MAX,
    {
    }
}

/// Once bytes were discarded, the tail stays truncated: whatever is pushed
/// next, the bytes offered still exceed the capacity (until a `clear`).
pub proof fn law_truncation_stays_set(t: BoundedTail, input: Seq<u8>)
    requires
        t.seen() > t.cap(),
    ensures
        saturating_sum(t.seen(), input.len()) > t.cap(),
{
    t.lemma_counts_fit();
}

/// The chunks one after the other.
pub open spec fn flatten_chunks(chunks: Seq<Seq<u8>>) -> Seq<u8>
    decreases chunks.len(),
{
    if chunks.len() == 0 {
        seq![]
    } else {
        flatten_chunks(chunks.drop_last()) + chunks.last()
    }
}

/// What a fresh tail with capacity `cap` holds after the chunks were pushed
/// one by one, as [`BoundedTail::push`] states each step: the retained bytes
/// and the count of bytes offered.
pub open spec fn tail_after(chunks: Seq<Seq<u8>>, cap: nat) -> (Seq<u8>, nat)
    decreases chunks.len(),
{
    if chunks.len() == 0 {
        (seq![], 0)
    } else {
        let (kept, seen) = tail_after(chunks.drop_last(), cap);
        (keep_newest(kept + chunks.last(), cap), saturating_sum(seen, chunks.last().len()))
    }
}

/// Whatever the chunking, a tail ends up holding the newest `cap` bytes of
/// everything pushed, and counts every byte offered (up to `usize::MAX`);
/// so it reports truncation exactly when more than `cap` bytes were offered
/// (short of a capacity of `usize::MAX` overtaken by a saturated count).
pub proof fn law_tail_is_the_newest_bytes(chunks: Seq<Seq<u8>>, cap: nat)
    requires
        cap <= usize::MAX,
    ensures
        tail_after(chunks, cap).0 == keep_newest(flatten_chunks(chunks), cap),
        tail_after(chunks, cap).1 == if flatten_chunks(chunks).len() > usize::MAX {
            usize::MAX as nat
        } else {
            flatten_chunks(chunks).len()
        },
        cap < usize::MAX || flatten_chunks(chunks).len() <= usize::MAX ==> ((tail_after(chunks, cap).1
            > cap) == (flatten_chunks(chunks).len() > cap)),
    decreases chunks.len(),
{
    if chunks.len() > 0 {
        law_tail_is_the_newest_bytes(chunks.drop_last(), cap);
        law_pushing_in_pieces_keeps_the_same_tail(flatten_chunks(chunks.drop_last()), chunks.last(), cap);
    } else {
        assert(keep_newest(seq![], cap) =~= Seq::<u8>::empty());
    }
}

/// Pushing in pieces keeps what pushing everything at once keeps: the tail
/// after `a` then `b` is the newest `cap` bytes of `a + b`.
pub proof fn law_pushing_in_pieces_keeps_the_same_tail(a: Seq<u8>, b: Seq<u8>, cap: nat)
    ensures
        keep_newest(keep_newest(a, cap) + b, cap) == keep_newest(a + b, cap),
{
    let k = keep_newest(a, cap);
    if a.len() > cap {
        let x = k + b;
        let y = a + b;
        if x.len() > cap {
            assert(x.skip(x.len() - cap) =~= y.skip(y.len() - cap));
        }
    }
}

// ---------------------------------------------------------------------------
// Child environment
// ---------------------------------------------------------------------------

/// The variable that removes the current directory from Windows executable
/// search, and the value set for it. Windows checks only for its presence.
pub const NO_CURRENT_DIRECTORY_EXE_SEARCH: (&'static str, &'static str) = (
    "NoDefaultCurrentDirectoryInExePath",
    "1",
);

/// Environment overrides a child receives on the given platform: on Windows
/// exactly [`NO_CURRENT_DIRECTORY_EXE_SEARCH`], elsewhere none.
pub fn child_env_overrides(windows: bool) -> (r: &'static [(&'static str, &'static str)])
    ensures
        windows ==> r@ == seq![NO_CURRENT_DIRECTORY_EXE_SEARCH],
        !windows ==> r@.len() == 0,
{
    if windows {
        let a: &'static [(&'static str, &'static str); 1] = &[NO_CURRENT_DIRECTORY_EXE_SEARCH];
        let r: &'static [(&'static str, &'static str)] = a;
        r
    } else {
        let a: &'static [(&'static str, &'static str); 0] = &[];
        let r: &'static [(&'static str, &'static str)] = a;
        r
    }
}

// ---------------------------------------------------------------------------
// Executable extensions
// ---------------------------------------------------------------------------

/// The extensions Windows can spawn directly, in their fallback order.
pub open spec fn spawnable_extensions() -> Seq<&'static str> {
    seq![".COM", ".EXE", ".BAT", ".CMD"]
}

fn spawnable_extensions_list() -> (r: &'static [&'static str])
    ensures
        r@ == spawnable_extensions(),
{
    let a: &'static [&'static str; 4] = &[".COM", ".EXE", ".BAT", ".CMD"];
    let r: &'static [&'static str] = a;
    r
}

/// The first spawnable extension at index `k` or later that `entry` names,
/// ignoring ASCII case and surrounding whitespace.
pub open spec fn spawnable_match(entry: Seq<char>, k: int) -> Option<int>
    decreases 4 - k,
{
    if k < 0 || k >= 4 {
        None
    } else if lower_seq(spawnable_extensions()[k]@) == lower_seq(trim_ws(entry)) {
        Some(k)
    } else {
        spawnable_match(entry, k + 1)
    }
}

/// The spawnable extensions a `PATHEXT` list names, in its order, repeats kept.
pub open spec fn listed_extensions(entries: Seq<Seq<char>>) -> Seq<int>
    decreases entries.len(),
{
    if entries.len() == 0 {
        seq![]
    } else {
        let prev = listed_extensions(entries.drop_last());
        match spawnable_match(entries.last(), 0) {
            Some(k) => prev.push(k),
            None => prev,
        }
    }
}

/// `xs` with every repeat of an earlier element removed.
pub open spec fn dedup_first(xs: Seq<int>) -> Seq<int>
    decreases xs.len(),
{
    if xs.len() == 0 {
        seq![]
    } else {
        let prev = dedup_first(xs.drop_last());
        if prev.contains(xs.last()) {
            prev
        } else {
            prev.push(xs.last())
        }
    }
}

/// The extension candidates for `pathext` on the given platform.
pub open spec fn extension_candidates(pathext: Seq<char>, windows: bool) -> Seq<Seq<char>> {
    if !windows {
        seq![seq![]]
    } else {
        let order = dedup_first(listed_extensions(split_char(pathext, ';')) + seq![0int, 1, 2, 3]);
        order.map_values(|k: int| spawnable_extensions()[k]@).push(seq![])
    }
}

/// The spawnable extension a `PATHEXT` entry names, if any.
fn spawnable_index(entry: &[char]) -> (r: Option<usize>)
    ensures
        match spawnable_match(entry@, 0) {
            Some(k) => r == Some(k as usize),
            None => r is None,
        },
{
    let names = spawnable_extensions_list();
    let trimmed = trim_whitespace(entry);
    let lowered = lower_chars(trimmed.as_slice());
    let mut k: usize = 0;
    while k < 4
        invariant
            k <= 4,
            names@ == spawnable_extensions(),
            lowered@ == lower_seq(trim_ws(entry@)),
            spawnable_match(entry@, 0) == spawnable_match(entry@, k as int),
        decreases 4 - k,
    {
        let name = chars_of(names[k]);
        let lname = lower_chars(name.as_slice());
        if same_chars(lname.as_slice(), lowered.as_slice()) {
            return Some(k);
        }
        k += 1;
    }
    None
}

/// The indices of the spawnable extensions that `entries` name, in order.
fn listed_indices(entries: &Vec<Vec<char>>) -> (order: Vec<usize>)
    ensures
        order@.map_values(|k: usize| k as int) == listed_extensions(views(entries@)),
{
    let ghost es = views(entries@);
    let mut order: Vec<usize> = Vec::new();
    let mut e: usize = 0;
    while e < entries.len()
        invariant
            e <= entries@.len(),
            es == views(entries@),
            order@.map_values(|k: usize| k as int) == listed_extensions(es.take(e as int)),
        decreases entries.len() - e,
    {
        let ghost t = es.take(e + 1);
        let ghost prev = order@.map_values(|k: usize| k as int);
        proof {
            assert(t.drop_last() =~= es.take(e as int));
            assert(t.last() == entries@[e as int]@);
            lemma_match_in_range(t.last(), 0);
        }
        if let Some(j) = spawnable_index(entries[e].as_slice()) {
            order.push(j);
            proof {
                assert(order@.map_values(|k: usize| k as int) =~= prev.push(j as int));
            }
        }
        e += 1;
    }
    proof {
        assert(es.take(entries@.len() as int) =~= es);
    }
    order
}

/// `order` with every repeat of an earlier index removed.
fn dedup_indices(order: &Vec<usize>) -> (kept: Vec<usize>)
    ensures
        kept@.map_values(|j: usize| j as int) == dedup_first(order@.map_values(|j: usize| j as int)),
{
    let ghost all = order@.map_values(|j: usize| j as int);
    let mut kept: Vec<usize> = Vec::new();
    let mut i: usize = 0;
    while i < order.len()
        invariant
            i <= order@.len(),
            all == order@.map_values(|j: usize| j as int),
            kept@.map_values(|j: usize| j as int) == dedup_first(all.take(i as int)),
        decreases order.len() - i,
    {
        let ghost t = all.take(i + 1);
        proof {
            assert(t.drop_last() =~= all.take(i as int));
            assert(t.last() == order@[i as int] as int);
        }
        let x = order[i];
        let mut present = false;
        let mut j: usize = 0;
        while j < kept.len()
            invariant
                j <= kept@.len(),
                present == exists|q: int| 0 <= q < j && kept@[q] == x,
            decreases kept.len() - j,
        {
            if kept[j] == x {
                present = true;
            }
            j += 1;
        }
        let ghost kv = kept@.map_values(|j: usize| j as int);
        proof {
            if present {
                let q = choose|q: int| 0 <= q < kept@.len() && kept@[q] == x;
                assert(kv[q] == x as int);
                assert(kv.contains(x as int));
            } else {
                assert forall|q: int| 0 <= q < kv.len() implies kv[q] != x as int by {
                    assert(kv[q] == kept@[q] as int);
                }
            }
        }
        if !present {
            kept.push(x);
            proof {
                assert(kept@.map_values(|j: usize| j as int) =~= kv.push(x as int));
            }
        }
        i += 1;
    }
    proof {
        assert(all.take(all.len() as int) =~= all);
    }
    kept
}

/// The extension names of `kept`, then the bare name.
fn extension_names(kept: &Vec<usize>) -> (r: Vec<String>)
    requires
        forall|q: int| 0 <= q < kept@.len() ==> #[trigger] kept@[q] < 4,
    ensures
        r@.map_values(|s: String| s@) == kept@.map_values(|j: usize| j as int).map_values(
            |k: int| spawnable_extensions()[k]@,
        ).push(seq![]),
{
    let names = spawnable_extensions_list();
    let ghost ds = kept@.map_values(|j: usize| j as int);
    let mut r: Vec<String> = Vec::new();
    let mut m: usize = 0;
    while m < kept.len()
        invariant
            m <= kept@.len(),
            names@ == spawnable_extensions(),
            ds == kept@.map_values(|j: usize| j as int),
            forall|q: int| 0 <= q < kept@.len() ==> #[trigger] kept@[q] < 4,
            r@.map_values(|s: String| s@) == ds.take(m as int).map_values(
                |k: int| spawnable_extensions()[k]@,
            ),
        decreases kept.len() - m,
    {
        let idx = kept[m];
        let ghost prev = r@.map_values(|s: String| s@);
        let name: &str = names[idx];
        r.push(name.to_owned());
        proof {
            assert(ds[m as int] == idx as int);
            assert(r@.map_values(|s: String| s@) =~= prev.push(spawnable_extensions()[idx as int]@));
            assert(ds.take(m + 1) =~= ds.take(m as int).push(idx as int));
            assert(ds.take(m + 1).map_values(|k: int| spawnable_extensions()[k]@) =~= ds.take(
                m as int,
            ).map_values(|k: int| spawnable_extensions()[k]@).push(spawnable_extensions()[idx as int]@));
        }
        m += 1;
    }
    let ghost before = r@.map_values(|s: String| s@);
    r.push(String::new());
    proof {
        assert(ds.take(ds.len() as int) =~= ds);
        assert(r@.map_values(|s: String| s@) =~= before.push(seq![]));
    }
    r
}

/// Candidate file extensions for `pathext` on the given platform.
///
/// On Windows this is the directly spawnable subset of `PATHEXT` in its order,
/// then any of those four missing from it, then the bare name as the last
/// resort (npm puts both a shell script `codex` and `codex.cmd` in one
/// directory, and the `.cmd` must win). Elsewhere it is only the bare name.
pub fn executable_extensions_for(pathext: Option<&str>, windows: bool) -> (r: Vec<String>)
    ensures
        r@.map_values(|s: String| s@) == extension_candidates(
            match pathext {
                Some(p) => p@,
                None => Seq::<char>::empty(),
            },
            windows,
        ),
{
    let ghost text = match pathext {
        Some(p) => p@,
        None => Seq::<char>::empty(),
    };
    if !windows {
        let mut r: Vec<String> = Vec::new();
        r.push(String::new());
        proof {
            assert(r@.map_values(|s: String| s@) =~= seq![Seq::<char>::empty()]);
        }
        return r;
    }
    let chars: Vec<char> = match pathext {
        Some(p) => chars_of(p),
        None => Vec::new(),
    };
    let entries = split_on_char(chars.as_slice(), ';');
    let mut order = listed_indices(&entries);
    let ghost listed = order@.map_values(|k: usize| k as int);
    let mut k: usize = 0;
    while k < 4
        invariant
            k <= 4,
            listed == listed_extensions(split_char(text, ';')),
            order@.map_values(|j: usize| j as int) == listed + seq![0int, 1, 2, 3].take(k as int),
        decreases 4 - k,
    {
        let ghost prev = order@.map_values(|j: usize| j as int);
        order.push(k);
        proof {
            assert(order@.map_values(|j: usize| j as int) =~= prev.push(k as int));
            assert(seq![0int, 1, 2, 3].take(k + 1) =~= seq![0int, 1, 2, 3].take(k as int).push(
                k as int,
            ));
        }
        k += 1;
    }
    let ghost all = listed + seq![0int, 1, 2, 3];
    proof {
        assert(seq![0int, 1, 2, 3].take(4) =~= seq![0int, 1, 2, 3]);
        assert(forall|i: int| 0 <= i < listed.len() ==> 0 <= #[trigger] listed[i] < 4) by {
            lemma_listed_in_range(split_char(text, ';'));
        }
        assert forall|i: int| 0 <= i < all.len() implies 0 <= #[trigger] all[i] < 4 by {
            if i >= listed.len() {
                assert(all[i] == seq![0int, 1, 2, 3][i - listed.len()]);
            }
        }
    }
    let kept = dedup_indices(&order);
    proof {
        assert forall|q: int| 0 <= q < kept@.len() implies #[trigger] kept@[q] < 4 by {
            lemma_dedup_in_range(all, q);
            assert(kept@.map_values(|j: usize| j as int)[q] == kept@[q] as int);
        }
    }
    extension_names(&kept)
}

/// Every listed index names one of the four extensions.
proof fn lemma_listed_in_range(entries: Seq<Seq<char>>)
    ensures
        forall|i: int|
            0 <= i < listed_extensions(entries).len() ==> 0 <= #[trigger] listed_extensions(
                entries,
            )[i] < 4,
    decreases entries.len(),
{
    if entries.len() > 0 {
        let prev = listed_extensions(entries.drop_last());
        lemma_listed_in_range(entries.drop_last());
        lemma_match_in_range(entries.last(), 0);
        let cur = listed_extensions(entries);
        assert forall|i: int| 0 <= i < cur.len() implies 0 <= #[trigger] cur[i] < 4 by {
            if i < prev.len() {
                assert(cur[i] == prev[i]);
            }
        }
    }
}

proof fn lemma_match_in_range(entry: Seq<char>, k: int)
    ensures
        spawnable_match(entry, k) matches Some(j) ==> 0 <= j < 4,
    decreases 4 - k,
{
    if 0 <= k < 4 {
        lemma_match_in_range(entry, k + 1);
    }
}

/// Every element of `dedup_first(xs)` occurs in `xs`; here, every candidate
/// index is one of the four extensions.
proof fn lemma_dedup_in_range(all: Seq<int>, q: int)
    requires
        forall|i: int| 0 <= i < all.len() ==> 0 <= #[trigger] all[i] < 4,
        0 <= q < dedup_first(all).len(),
    ensures
        0 <= dedup_first(all)[q] < 4,
    decreases all.len(),
{
    let prev = dedup_first(all.drop_last());
    if q < prev.len() {
        assert forall|i: int| 0 <= i < all.drop_last().len() implies 0 <= #[trigger] all.drop_last()[i] < 4 by {
            assert(all.drop_last()[i] == all[i]);
        }
        lemma_dedup_in_range(all.drop_last(), q);
    }
}

// ---------------------------------------------------------------------------
// Exact argument lookup
// ---------------------------------------------------------------------------

/// The most command-line bytes a native argument lookup accepts.
pub const PROCESS_ARGUMENT_BYTES: usize = 1048576;

/// Whether an argument query can be asked at all: a real process and a
/// non-empty argument without NUL bytes.
pub open spec fn argument_query_valid(pid: u32, argument: Seq<char>) -> bool {
    pid != 0 && argument.len() > 0 && !encode_utf8(argument).contains(0u8)
}

/// Determine whether one exact argument belongs to a live process, given the
/// NUL-separated command line read for it (`/proc/<pid>/cmdline`, at most one
/// byte past the limit), or `None` when it could not be read.
///
/// The answer fails closed: `None` means the query is invalid, the command
/// line could not be read, was empty, or exceeded the limit. Callers must not
/// treat `None` as proof of ownership.
pub fn process_has_exact_argument(pid: u32, argument: &str, cmdline: Option<&[u8]>) -> (r: Option<
    bool,
>)
    ensures
        !argument_query_valid(pid, argument@) ==> r is None,
        argument_query_valid(pid, argument@) ==> r == match cmdline {
            None => None,
            Some(b) => if b@.len() == 0 || b@.len() > PROCESS_ARGUMENT_BYTES {
                None
            } else {
                Some(split_nul(b@).contains(encode_utf8(argument@)))
            },
        },
{
    let arg: &[u8] = argument.as_bytes();
    if pid == 0 || arg.len() == 0 {
        proof {
            if arg.len() == 0 {
                lemma_encode_empty(argument@);
            }
        }
        return None;
    }
    let mut i: usize = 0;
    while i < arg.len()
        invariant
            i <= arg@.len(),
            arg@ == encode_utf8(argument@),
            forall|k: int| 0 <= k < i ==> arg@[k] != 0u8,
        decreases arg.len() - i,
    {
        if arg[i] == 0 {
            proof {
                assert(arg@.contains(0u8));
            }
            return None;
        }
        i += 1;
    }
    proof {
        lemma_encode_nonempty(argument@);
        assert(!arg@.contains(0u8));
    }
    let bytes = match cmdline {
        None => {
            return None;
        },
        Some(b) => b,
    };
    if bytes.len() == 0 || bytes.len() > PROCESS_ARGUMENT_BYTES {
        return None;
    }
    let pieces = split_on_nul(bytes);
    let ghost pv = pieces@.map_values(|v: Vec<u8>| v@);
    let mut k: usize = 0;
    while k < pieces.len()
        invariant
            k <= pieces@.len(),
            pv == pieces@.map_values(|v: Vec<u8>| v@),
            pv == split_nul(bytes@),
            argument_query_valid(pid, argument@),
            arg@ == encode_utf8(argument@),
            cmdline == Some(bytes),
            0 < bytes@.len() <= PROCESS_ARGUMENT_BYTES,
            forall|q: int| 0 <= q < k ==> #[trigger] pv[q] != arg@,
        decreases pieces.len() - k,
    {
        if bytes_equal(pieces[k].as_slice(), arg) {
            proof {
                assert(pv[k as int] == arg@);
                assert(pv.contains(arg@));
            }
            return Some(true);
        }
        k += 1;
    }
    proof {
        assert(!pv.contains(arg@)) by {
            if pv.contains(arg@) {
                let q = choose|q: int| 0 <= q < pv.len() && pv[q] == arg@;
                assert(pv[q] != arg@);
            }
        }
    }
    Some(false)
}

proof fn lemma_encode_empty(s: Seq<char>)
    requires
        encode_utf8(s).len() == 0,
    ensures
        s.len() == 0,
{
    if s.len() > 0 {
        lemma_encode_nonempty(s);
    }
}

proof fn lemma_encode_nonempty(s: Seq<char>)
    ensures
        s.len() > 0 ==> encode_utf8(s).len() > 0,
{
    if s.len() > 0 {
        assert(vstd::utf8::encode_scalar(s[0] as u32).len() >= 1);
    }
}

/// Byte-slice equality.
fn bytes_equal(a: &[u8], b: &[u8]) -> (r: bool)
    ensures
        r == (a@ == b@),
{
    if a.len() != b.len() {
        return false;
    }
    let mut i: usize = 0;
    while i < a.len()
        invariant
            i <= a@.len(),
            a@.len() == b@.len(),
            forall|k: int| 0 <= k < i ==> a@[k] == b@[k],
        decreases a.len() - i,
    {
        if a[i] != b[i] {
            return false;
        }
        i += 1;
    }
    proof {
        assert(a@ =~= b@);
    }
    true
}

// ---------------------------------------------------------------------------
// Windows clipboard payload
// ---------------------------------------------------------------------------

/// The UTF-16 code units of one character.
pub open spec fn utf16_units(c: char) -> Seq<u16> {
    let u = c as u32;
    if u < 0x10000 {
        seq![u as u16]
    } else {
        let v = u - 0x10000;
        seq![(0xD800 + v / 0x400) as u16, (0xDC00 + v % 0x400) as u16]
    }
}

/// The UTF-16 encoding of a character sequence (`str::encode_utf16`).
pub open spec fn utf16_encode(s: Seq<char>) -> Seq<u16>
    decreases s.len(),
{
    if s.len() == 0 {
        seq![]
    } else {
        utf16_encode(s.drop_last()) + utf16_units(s.last())
    }
}

/// The `CF_UNICODETEXT` payload for `text`: its UTF-16 code units and a
/// terminating NUL, or `None` when the text itself holds a NUL, which the
/// clipboard would silently cut at.
pub fn windows_clipboard_payload(text: &str) -> (r: Option<Vec<u16>>)
    ensures
        text@.contains('\0') ==> r is None,
        !text@.contains('\0') ==> (r matches Some(w) && w@ == utf16_encode(text@).push(0u16)),
{
    let cs = chars_of(text);
    let mut wide: Vec<u16> = Vec::new();
    let mut i: usize = 0;
    while i < cs.len()
        invariant
            i <= cs@.len(),
            cs@ == text@,
            wide@ == utf16_encode(cs@.take(i as int)),
            forall|k: int| 0 <= k < i ==> cs@[k] != '\0',
        decreases cs.len() - i,
    {
        let c = cs[i];
        proof {
            assert(cs@.take(i + 1).drop_last() =~= cs@.take(i as int));
        }
        if c == '\0' {
            proof {
                assert(text@.contains('\0'));
            }
            return None;
        }
        let u = c as u32;
        if u < 0x10000 {
            wide.push(u as u16);
        } else {
            let v = u - 0x10000;
            wide.push((0xD800 + v / 0x400) as u16);
            wide.push((0xDC00 + v % 0x400) as u16);
        }
        proof {
            assert(wide@ =~= utf16_encode(cs@.take(i as int)) + utf16_units(c));
        }
        i += 1;
    }
    proof {
        assert(cs@.take(cs@.len() as int) =~= cs@);
        assert(!text@.contains('\0')) by {
            if text@.contains('\0') {
                let q = choose|q: int| 0 <= q < text@.len() && text@[q] == '\0';
                assert(cs@[q] != '\0');
            }
        }
    }
    wide.push(0);
    Some(wide)
}

// ---------------------------------------------------------------------------
// Liveness
// ---------------------------------------------------------------------------

/// `ERROR_ACCESS_DENIED`.
pub const ERROR_ACCESS_DENIED: u32 = 5;
/// `ERROR_INVALID_PARAMETER`.
pub const ERROR_INVALID_PARAMETER: u32 = 87;
/// `WAIT_OBJECT_0`: the process handle is signalled.
pub const WAIT_OBJECT_0: u32 = 0;
/// `WAIT_TIMEOUT`: the process is still running.
pub const WAIT_TIMEOUT: u32 = 258;

/// What the native Windows probe observed: opening the process failed with an
/// error code, or a zero-duration wait on its handle returned a code.
#[derive(Debug, Clone, Copy, PartialEq, Eq, Structural)]
pub enum LivenessProbe {
    OpenFailed(u32),
    Waited(u32),
}

/// Whether a process is alive, from the native probe (`None` where the
/// platform has no such probe). An invalid process id names no process; access
/// denied is conservatively live, because the id demonstrably names a
/// protected process; anything else is unknown.
pub fn process_is_alive(probe: Option<LivenessProbe>) -> (r: Option<bool>)
    ensures
        r == match probe {
            None => None,
            Some(LivenessProbe::OpenFailed(code)) => if code == ERROR_INVALID_PARAMETER {
                Some(false)
            } else if code == ERROR_ACCESS_DENIED {
                Some(true)
            } else {
                None
            },
            Some(LivenessProbe::Waited(code)) => if code == WAIT_OBJECT_0 {
                Some(false)
            } else if code == WAIT_TIMEOUT {
                Some(true)
            } else {
                None
            },
        },
{
    match probe {
        None => None,
        Some(LivenessProbe::OpenFailed(code)) => if code == ERROR_INVALID_PARAMETER {
            Some(false)
        } else if code == ERROR_ACCESS_DENIED {
            Some(true)
        } else {
            None
        },
        Some(LivenessProbe::Waited(code)) => if code == WAIT_OBJECT_0 {
            Some(false)
        } else if code == WAIT_TIMEOUT {
            Some(true)
        } else {
            None
        },
    }
}

// ---------------------------------------------------------------------------
// Program lookup
// ---------------------------------------------------------------------------

/// The first candidate (one per extension, in order) that is a spawnable
/// file, given whether each `dir/program{extension}` is. A relative or empty
/// directory never matches.
pub fn find_in_dir(dir_is_absolute: bool, candidate_spawnable: &[bool]) -> (r: Option<usize>)
    ensures
        !dir_is_absolute ==> r is None,
        dir_is_absolute ==> match r {
            Some(i) => i < candidate_spawnable@.len() && candidate_spawnable@[i as int] && forall|
                j: int,
            | 0 <= j < i ==> !candidate_spawnable@[j],
            None => forall|j: int|
                0 <= j < candidate_spawnable@.len() ==> !candidate_spawnable@[j],
        },
{
    if !dir_is_absolute {
        return None;
    }
    let mut i: usize = 0;
    while i < candidate_spawnable.len()
        invariant
            i <= candidate_spawnable@.len(),
            dir_is_absolute,
            forall|j: int| 0 <= j < i ==> !candidate_spawnable@[j],
        decreases candidate_spawnable.len() - i,
    {
        if candidate_spawnable[i] {
            return Some(i);
        }
        i += 1;
    }
    None
}

/// The program to spawn: its full path when the lookup found one, otherwise
/// the name unchanged so the spawn reports the real error.
pub fn resolve_on_path(program: &str, found: Option<&str>) -> (r: String)
    ensures
        r@ == match found {
            Some(path) => path@,
            None => program@,
        },
{
    match found {
        Some(path) => path.to_owned(),
        None => program.to_owned(),
    }
}

/// A path separator on the platform: `/`, and on Windows also `\`.
pub open spec fn is_path_separator(c: char, windows: bool) -> bool {
    c == '/' || (windows && c == '\\')
}

/// The program name contains a path separator.
pub open spec fn has_separator(program: Seq<char>, windows: bool) -> bool {
    exists|i: int| 0 <= i < program.len() && is_path_separator(#[trigger] program[i], windows)
}

fn contains_separator(program: &str, windows: bool) -> (b: bool)
    ensures
        b == has_separator(program@, windows),
{
    let cs = chars_of(program);
    let mut i: usize = 0;
    while i < cs.len()
        invariant
            i <= cs@.len(),
            cs@ == program@,
            forall|j: int| 0 <= j < i ==> !is_path_separator(#[trigger] program@[j], windows),
        decreases cs.len() - i,
    {
        if cs[i] == '/' || (windows && cs[i] == '\\') {
            assert(is_path_separator(program@[i as int], windows));
            return true;
        }
        i += 1;
    }
    false
}

/// Resolve a bare program name against the absolute `PATH` directories, in
/// order, given for each directory whether each candidate
/// `dir/program{extension}` is a spawnable file. The result is the first
/// directory with a spawnable candidate and that candidate. An empty name,
/// or one with a path separator, is not looked up.
pub fn find_on_path(program: &str, windows: bool, spawnable: &[Vec<bool>]) -> (r: Option<(usize, usize)>)
    ensures
        program@.len() == 0 || has_separator(program@, windows) ==> r is None,
        !(program@.len() == 0 || has_separator(program@, windows)) ==> match r {
            Some((d, k)) => d < spawnable@.len() && k < spawnable@[d as int]@.len()
                && spawnable@[d as int]@[k as int]
                && (forall|j: int| 0 <= j < k ==> !spawnable@[d as int]@[j])
                && (forall|e: int, j: int| 0 <= e < d && 0 <= j < spawnable@[e]@.len() ==> !spawnable@[e]@[j]),
            None => forall|e: int, j: int|
                0 <= e < spawnable@.len() && 0 <= j < spawnable@[e]@.len() ==> !spawnable@[e]@[j],
        },
{
    if program.unicode_len() == 0 || contains_separator(program, windows) {
        return None;
    }
    let mut d: usize = 0;
    while d < spawnable.len()
        invariant
            d <= spawnable@.len(),
            !(program@.len() == 0 || has_separator(program@, windows)),
            forall|e: int, j: int| 0 <= e < d && 0 <= j < spawnable@[e]@.len() ==> !spawnable@[e]@[j],
        decreases spawnable.len() - d,
    {
        match find_in_dir(true, spawnable[d].as_slice()) {
            Some(k) => {
                return Some((d, k));
            },
            None => {},
        }
        d += 1;
    }
    None
}

/// Whether a program is installed: a name with a path separator must itself
/// be a spawnable file; a bare name must be found on `PATH`.
pub fn is_installed(program: &str, windows: bool, explicit_is_spawnable: bool, found_on_path: bool) -> (b: bool)
    ensures
        b == if has_separator(program@, windows) {
            explicit_is_spawnable
        } else {
            found_on_path
        },
{
    if contains_separator(program, windows) {
        explicit_is_spawnable
    } else {
        found_on_path
    }
}

/// Whether the target has native kill-on-close Job Object support: only
/// Windows does.
pub fn has_kill_on_close_job(windows: bool) -> (b: bool)
    ensures
        b == windows,
{
    windows
}

/// The position of the first NUL byte in `b`, if any.
pub open spec fn first_nul(b: Seq<u8>) -> Option<int>
    decreases b.len(),
{
    if b.len() == 0 {
        None
    } else if b[0] == 0 {
        Some(0)
    } else {
        match first_nul(b.drop_first()) {
            Some(i) => Some(i + 1),
            None => None,
        }
    }
}

pub proof fn lemma_first_nul(b: Seq<u8>)
    ensures
        match first_nul(b) {
            Some(i) => 0 <= i < b.len() && b[i] == 0 && forall|j: int| 0 <= j < i ==> #[trigger] b[j] != 0,
            None => forall|j: int| 0 <= j < b.len() ==> #[trigger] b[j] != 0,
        },
    decreases b.len(),
{
    if b.len() > 0 && b[0] != 0 {
        lemma_first_nul(b.drop_first());
        assert forall|j: int| 1 <= j < b.len() implies b[j] == b.drop_first()[j - 1] by {}
    }
}

/// The first index at or after `i` holding a non-NUL byte, or the length.
pub open spec fn skip_nuls(b: Seq<u8>, i: int) -> int
    decreases b.len() - i,
{
    if i < b.len() && b[i] == 0 {
        skip_nuls(b, i + 1)
    } else {
        i
    }
}

/// A little-endian 32-bit signed integer from four bytes.
pub open spec fn le_i32(b0: u8, b1: u8, b2: u8, b3: u8) -> int {
    let u = b0 as int + 256 * b1 as int + 65536 * b2 as int + 16777216 * b3 as int;
    if u >= 0x8000_0000 {
        u - 0x1_0000_0000
    } else {
        u
    }
}

/// Look at `n` more NUL-terminated argument strings from `cursor` on: is one
/// of them exactly `argument`? `None` when the buffer ends first.
pub open spec fn scan_arguments(b: Seq<u8>, cursor: int, n: int, argument: Seq<u8>) -> Option<bool>
    decreases n,
{
    if n <= 0 {
        Some(false)
    } else if cursor > b.len() {
        None
    } else {
        match first_nul(b.skip(cursor)) {
            None => None,
            Some(end) => if b.subrange(cursor, cursor + end) == argument {
                Some(true)
            } else {
                scan_arguments(b, cursor + end + 1, n - 1, argument)
            },
        }
    }
}

/// Whether a macOS `KERN_PROCARGS2` buffer lists `argument` exactly among
/// its arguments. The buffer holds `argc` (a native, little-endian `int`),
/// the executable path, NUL padding, then `argc` NUL-terminated arguments.
/// `None` when the buffer is malformed.
pub open spec fn procargs_has_argument(b: Seq<u8>, argument: Seq<u8>) -> Option<bool> {
    if b.len() < 4 {
        None
    } else {
        let argc = le_i32(b[0], b[1], b[2], b[3]);
        if argc < 0 {
            None
        } else {
            match first_nul(b.skip(4)) {
                None => None,
                Some(p) => scan_arguments(b, skip_nuls(b, 4 + p + 1), argc, argument),
            }
        }
    }
}

fn first_nul_from(b: &[u8], start: usize) -> (r: Option<usize>)
    requires
        start <= b@.len(),
    ensures
        match first_nul(b@.skip(start as int)) {
            Some(i) => r == Some(i as usize),
            None => r is None,
        },
{
    let ghost t = b@.skip(start as int);
    proof {
        lemma_first_nul(t);
    }
    let mut i: usize = start;
    while i < b.len()
        invariant
            start <= i <= b@.len(),
            t == b@.skip(start as int),
            forall|j: int| 0 <= j < i - start ==> #[trigger] t[j] != 0,
        decreases b.len() - i,
    {
        if b[i] == 0 {
            proof {
                lemma_first_nul(t);
                assert(t[i - start] == 0);
                match first_nul(t) {
                    Some(k) => {
                        if k < i - start {
                        }
                        if k > i - start {
                            assert(t[i - start] != 0);
                        }
                    },
                    None => {
                        assert(t[i - start] != 0);
                    },
                }
            }
            return Some(i - start);
        }
        proof {
            assert(t[i - start] == b@[i as int]);
        }
        i += 1;
    }
    proof {
        lemma_first_nul(t);
        if let Some(k) = first_nul(t) {
            assert(t[k] != 0);
        }
    }
    None
}

fn bytes_equal_at(b: &[u8], start: usize, len: usize, other: &[u8]) -> (r: bool)
    requires
        start + len <= b@.len(),
    ensures
        r == (b@.subrange(start as int, start + len) == other@),
{
    if len != other.len() {
        proof {
            assert(b@.subrange(start as int, start + len).len() != other@.len());
        }
        return false;
    }
    let total = b.len();
    let mut k: usize = 0;
    while k < len
        invariant
            start + len <= total,
            total == b@.len(),
            len == other@.len(),
            k <= len,
            forall|q: int| 0 <= q < k ==> b@[start + q] == other@[q],
        decreases len - k,
    {
        if b[start + k] != other[k] {
            proof {
                assert(b@.subrange(start as int, start + len)[k as int] != other@[k as int]);
            }
            return false;
        }
        k += 1;
    }
    proof {
        assert(b@.subrange(start as int, start + len) =~= other@);
    }
    true
}

/// Whether a macOS `KERN_PROCARGS2` buffer lists `argument` exactly (see
/// [`procargs_has_argument`]).
pub fn procargs_has_exact_argument(bytes: &[u8], argument: &[u8]) -> (r: Option<bool>)
    ensures
        r == procargs_has_argument(bytes@, argument@),
{
    if bytes.len() < 4 {
        return None;
    }
    let u: u64 = bytes[0] as u64 + 256 * (bytes[1] as u64) + 65536 * (bytes[2] as u64) + 16777216 * (bytes[3] as u64);
    if u >= 0x8000_0000 {
        return None;
    }
    let argc = u as usize;
    let p = match first_nul_from(bytes, 4) {
        Some(p) => p,
        None => {
            return None;
        },
    };
    proof {
        lemma_first_nul(bytes@.skip(4));
    }
    let mut cursor: usize = 4 + p + 1;
    while cursor < bytes.len() && bytes[cursor] == 0
        invariant
            cursor <= bytes@.len(),
            skip_nuls(bytes@, 4 + p + 1) == skip_nuls(bytes@, cursor as int),
        decreases bytes.len() - cursor,
    {
        cursor += 1;
    }
    let mut n: usize = argc;
    while n > 0
        invariant
            cursor <= bytes@.len() + 1,
            procargs_has_argument(bytes@, argument@) == scan_arguments(bytes@, cursor as int, n as int, argument@),
        decreases n,
    {
        if cursor > bytes.len() {
            return None;
        }
        let end = match first_nul_from(bytes, cursor) {
            Some(e) => e,
            None => {
                return None;
            },
        };
        proof {
            lemma_first_nul(bytes@.skip(cursor as int));
        }
        let same = bytes_equal_at(bytes, cursor, end, argument);
        if same {
            return Some(true);
        }
        cursor = cursor + end + 1;
        n -= 1;
    }
    Some(false)
}

} // verus!
