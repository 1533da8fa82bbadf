//! Bounded, link-safe directory enumeration for explicit commands.
//!
//! The caller reads at most `cap` items of a directory and classifies each
//! one by its own metadata (a link or reparse point is never a real entry).
//! This module decides what such a listing yields: which entries are kept,
//! in which order, and how the inspection budget is accounted. It also holds
//! the decisions of the breadth-first tree count, which shares one budget
//! across every directory it visits and never queues a link.

use vstd::prelude::*;

verus! {

broadcast use vstd::seq_lib::group_to_multiset_ensures;

/// A command may inspect at most this many directory entries per invocation.
pub const ENTRY_CAP: usize = 4096;

/// How deep a recursive count descends below its root.
pub const RECURSIVE_DEPTH_CAP: usize = 6;

/// The kind of a real (non-link) directory entry.
#[derive(Clone, Copy, Debug, PartialEq, Eq, Structural)]
pub enum EntryKind {
    File,
    Directory,
}

/// What one item of a directory listing turned out to be.
#[derive(Clone, Debug)]
pub enum Listed {
    /// A real file or directory, with the bytes of its name.
    Real { name: Vec<u8>, kind: EntryKind },
    /// A link, a reparse point or a special file: never an entry.
    Skipped,
    /// The item, or its metadata, could not be read.
    Failed,
}

/// A kept entry: its name, its kind, and where it stood in the listing.
#[derive(Clone, Debug)]
pub struct ScanEntry {
    pub name: Vec<u8>,
    pub kind: EntryKind,
    pub position: usize,
}

/// The result of a bounded scan of one directory.
#[derive(Clone, Debug)]
pub struct Scan {
    /// The real entries, ordered by name.
    pub entries: Vec<ScanEntry>,
    /// Every listing item consumes budget, an unreadable one included.
    pub inspected: usize,
    /// Unreadable items, or one for a directory that could not be opened.
    pub errors: usize,
    /// The budget was exhausted: the directory may hold more entries.
    pub limit_reached: bool,
}

// ---------------------------------------------------------------------------
// Byte order
// ---------------------------------------------------------------------------

/// Lexicographic byte order, the order of an `OsString`'s `Ord`.
pub open spec fn bytes_lt(a: Seq<u8>, b: Seq<u8>) -> bool
    decreases a.len(),
{
    if a.len() == 0 {
        b.len() > 0
    } else if b.len() == 0 {
        false
    } else if a[0] < b[0] {
        true
    } else if a[0] == b[0] {
        bytes_lt(a.drop_first(), b.drop_first())
    } else {
        false
    }
}

proof fn lemma_bytes_irreflexive(a: Seq<u8>)
    ensures
        !bytes_lt(a, a),
    decreases a.len(),
{
    if a.len() > 0 {
        lemma_bytes_irreflexive(a.drop_first());
    }
}

proof fn lemma_bytes_transitive(a: Seq<u8>, b: Seq<u8>, c: Seq<u8>)
    requires
        bytes_lt(a, b),
        bytes_lt(b, c),
    ensures
        bytes_lt(a, c),
    decreases a.len(),
{
    if a.len() > 0 && b.len() > 0 && c.len() > 0 && a[0] == b[0] && b[0] == c[0] {
        lemma_bytes_transitive(a.drop_first(), b.drop_first(), c.drop_first());
    }
}

proof fn lemma_bytes_total(a: Seq<u8>, b: Seq<u8>)
    requires
        a != b,
    ensures
        bytes_lt(a, b) || bytes_lt(b, a),
    decreases a.len(),
{
    if a.len() == 0 && b.len() == 0 {
        assert(a =~= b);
    } else if a.len() > 0 && b.len() > 0 && a[0] == b[0] {
        if a.drop_first() == b.drop_first() {
            assert(a =~= seq![a[0]] + a.drop_first());
            assert(b =~= seq![b[0]] + b.drop_first());
        }
        lemma_bytes_total(a.drop_first(), b.drop_first());
    }
}

/// `a < b` in lexicographic byte order.
pub fn bytes_less(a: &[u8], b: &[u8]) -> (r: bool)
    ensures
        r == bytes_lt(a@, b@),
{
    let mut i: usize = 0;
    proof {
        assert(a@.skip(0) =~= a@);
        assert(b@.skip(0) =~= b@);
    }
    while i < a.len() && i < b.len() && a[i] == b[i]
        invariant
            i <= a@.len(),
            i <= b@.len(),
            bytes_lt(a@, b@) == bytes_lt(a@.skip(i as int), b@.skip(i as int)),
        decreases a.len() - i,
    {
        proof {
            assert(a@.skip(i as int).drop_first() =~= a@.skip(i + 1));
            assert(b@.skip(i as int).drop_first() =~= b@.skip(i + 1));
        }
        i += 1;
    }
    proof {
        if i < a@.len() {
            assert(a@.skip(i as int)[0] == a@[i as int]);
        }
        if i < b@.len() {
            assert(b@.skip(i as int)[0] == b@[i as int]);
        }
    }
    if i == a.len() {
        i < b.len()
    } else if i == b.len() {
        false
    } else {
        a[i] < b[i]
    }
}

// ---------------------------------------------------------------------------
// One directory
// ---------------------------------------------------------------------------

/// A kept entry as a plain value: name bytes, kind, listing position.
pub open spec fn entry_view(e: ScanEntry) -> (Seq<u8>, EntryKind, int) {
    (e.name@, e.kind, e.position as int)
}

/// The plain values of a sequence of kept entries.
pub open spec fn entries_view(s: Seq<ScanEntry>) -> Seq<(Seq<u8>, EntryKind, int)> {
    s.map_values(|e: ScanEntry| entry_view(e))
}

/// The real entries of a listing, in listing order, each with its position.
pub open spec fn real_entries(items: Seq<Listed>) -> Seq<(Seq<u8>, EntryKind, int)>
    decreases items.len(),
{
    if items.len() == 0 {
        seq![]
    } else {
        let prev = real_entries(items.drop_last());
        match items.last() {
            Listed::Real { name, kind } => prev.push((name@, kind, items.len() - 1)),
            _ => prev,
        }
    }
}

/// How many items of a listing could not be read.
pub open spec fn failed_count(items: Seq<Listed>) -> nat
    decreases items.len(),
{
    if items.len() == 0 {
        0
    } else {
        failed_count(items.drop_last()) + if items.last() is Failed {
            1nat
        } else {
            0nat
        }
    }
}

/// Entry `a` is listed before `b`: by name, equal names (which one
/// directory never holds) keeping their listing order.
pub open spec fn listed_before(a: (Seq<u8>, EntryKind, int), b: (Seq<u8>, EntryKind, int)) -> bool {
    bytes_lt(a.0, b.0) || (a.0 == b.0 && a.2 < b.2)
}

/// Every entry is listed before every later one.
pub open spec fn in_listing_order(s: Seq<(Seq<u8>, EntryKind, int)>) -> bool {
    forall|i: int, j: int| 0 <= i < j < s.len() ==> listed_before(#[trigger] s[i], #[trigger] s[j])
}

/// The items of a listing that a scan with budget `cap` inspects.
pub open spec fn inspected_items(items: Seq<Listed>, cap: usize) -> Seq<Listed> {
    if items.len() <= cap {
        items
    } else {
        items.take(cap as int)
    }
}

/// What a scan of one directory yields. `listing` is `None` when the path is
/// not a real directory or cannot be opened; otherwise it holds the items
/// read, at most `cap` of which are inspected.
pub open spec fn scan_meets(scan: Scan, cap: usize, listing: Option<Seq<Listed>>) -> bool {
    if cap == 0 {
        &&& scan.entries@.len() == 0
        &&& scan.inspected == 0
        &&& scan.errors == 0
        &&& !scan.limit_reached
    } else {
        match listing {
            None => {
                &&& scan.entries@.len() == 0
                &&& scan.inspected == 0
                &&& scan.errors == 1
                &&& !scan.limit_reached
            },
            Some(items) => {
                let taken = inspected_items(items, cap);
                &&& scan.inspected == taken.len()
                &&& scan.errors == failed_count(taken)
                &&& scan.limit_reached == (scan.inspected == cap)
                &&& in_listing_order(entries_view(scan.entries@))
                &&& entries_view(scan.entries@).to_multiset() == real_entries(taken).to_multiset()
            },
        }
    }
}

proof fn lemma_real_entries_bounds(items: Seq<Listed>)
    ensures
        real_entries(items).len() <= items.len(),
        failed_count(items) <= items.len(),
        forall|k: int| 0 <= k < real_entries(items).len() ==> 0 <= (#[trigger] real_entries(items)[k]).2 < items.len(),
    decreases items.len(),
{
    if items.len() > 0 {
        lemma_real_entries_bounds(items.drop_last());
    }
}

/// Place `x` among entries already in listing order, after every entry it
/// is not listed before. `x` comes after all of them in the listing.
proof fn lemma_listing_insert(s: Seq<(Seq<u8>, EntryKind, int)>, x: (Seq<u8>, EntryKind, int), p: int)
    requires
        in_listing_order(s),
        0 <= p <= s.len(),
        forall|k: int| 0 <= k < s.len() ==> (#[trigger] s[k]).2 < x.2,
        forall|k: int| 0 <= k < p ==> !bytes_lt(x.0, (#[trigger] s[k]).0),
        p < s.len() ==> bytes_lt(x.0, s[p].0),
    ensures
        in_listing_order(s.insert(p, x)),
{
    let r = s.insert(p, x);
    assert forall|i: int, j: int| 0 <= i < j < r.len() implies listed_before(#[trigger] r[i], #[trigger] r[j]) by {
        if j < p {
            assert(r[i] == s[i] && r[j] == s[j]);
        } else if j == p {
            assert(r[i] == s[i] && r[j] == x);
            assert(!bytes_lt(x.0, s[i].0));
            if x.0 != s[i].0 {
                lemma_bytes_total(x.0, s[i].0);
            }
        } else if i < p {
            assert(r[i] == s[i] && r[j] == s[j - 1]);
        } else if i == p {
            assert(r[i] == x && r[j] == s[j - 1]);
            assert(bytes_lt(x.0, s[p].0));
            if j - 1 > p {
                assert(listed_before(s[p], s[j - 1]));
                if bytes_lt(s[p].0, s[j - 1].0) {
                    lemma_bytes_transitive(x.0, s[p].0, s[j - 1].0);
                }
            }
        } else {
            assert(r[i] == s[i - 1] && r[j] == s[j - 1]);
        }
    }
}

/// Scan one directory from the items the caller read (see [`scan_meets`]).
pub fn scan_listing(cap: usize, listing: Option<Vec<Listed>>) -> (scan: Scan)
    ensures
        scan_meets(scan, cap, match listing {
            Some(v) => Some(v@),
            None => None,
        }),
{
    if cap == 0 {
        return Scan { entries: Vec::new(), inspected: 0, errors: 0, limit_reached: false };
    }
    let items = match listing {
        None => {
            return Scan { entries: Vec::new(), inspected: 0, errors: 1, limit_reached: false };
        },
        Some(items) => items,
    };
    let n: usize = if items.len() <= cap {
        items.len()
    } else {
        cap
    };
    let ghost taken = inspected_items(items@, cap);
    proof {
        assert(taken.len() == n);
        lemma_real_entries_bounds(taken);
    }
    let mut entries: Vec<ScanEntry> = Vec::new();
    let mut errors: usize = 0;
    let mut i: usize = 0;
    while i < n
        invariant
            n == taken.len(),
            n <= items@.len(),
            taken == items@.take(n as int),
            i <= n,
            errors == failed_count(taken.take(i as int)),
            errors <= i,
            in_listing_order(entries_view(entries@)),
            entries_view(entries@).to_multiset() == real_entries(taken.take(i as int)).to_multiset(),
            forall|k: int| 0 <= k < entries@.len() ==> (#[trigger] entries@[k]).position < i,
        decreases n - i,
    {
        let ghost before = entries_view(entries@);
        proof {
            assert(taken.take(i + 1).drop_last() =~= taken.take(i as int));
            assert(taken.take(i + 1).last() == items@[i as int]);
        }
        match &items[i] {
            Listed::Real { name, kind } => {
                let mut j: usize = 0;
                while j < entries.len() && !bytes_less(name.as_slice(), entries[j].name.as_slice())
                    invariant
                        j <= entries@.len(),
                        before == entries_view(entries@),
                        forall|k: int| 0 <= k < j ==> !bytes_lt(name@, (#[trigger] before[k]).0),
                    decreases entries.len() - j,
                {
                    j += 1;
                }
                let e = ScanEntry { name: name.clone(), kind: *kind, position: i };
                let ghost x = entry_view(e);
                proof {
                    assert forall|k: int| 0 <= k < before.len() implies (#[trigger] before[k]).2 < x.2 by {
                        assert(before[k] == entry_view(entries@[k]));
                    }
                    lemma_listing_insert(before, x, j as int);
                }
                entries.insert(j, e);
                proof {
                    assert(entries_view(entries@) =~= before.insert(j as int, x));
                    assert(real_entries(taken.take(i + 1)) == real_entries(taken.take(i as int)).push(x));
                    assert forall|k: int| 0 <= k < entries@.len() implies (#[trigger] entries@[k]).position < i + 1 by {
                        if k < j {
                            assert(entries_view(entries@)[k] == before[k]);
                        } else if k > j {
                            assert(entries_view(entries@)[k] == before[k - 1]);
                        }
                    }
                }
            },
            Listed::Skipped => {},
            Listed::Failed => {
                errors += 1;
            },
        }
        i += 1;
    }
    proof {
        assert(taken.take(n as int) =~= taken);
    }
    Scan { entries, inspected: n, errors, limit_reached: n == cap }
}

/// Every kept entry of a listing is a real item, read at the position it
/// records: a link or an unreadable item is never an entry.
pub proof fn law_links_are_never_entries(scan: Scan, cap: usize, items: Seq<Listed>, k: int)
    requires
        cap > 0,
        scan_meets(scan, cap, Some(items)),
        0 <= k < scan.entries@.len(),
    ensures
        ({
            let e = entry_view(scan.entries@[k]);
            &&& 0 <= e.2 < scan.inspected
            &&& items[e.2] matches Listed::Real { name, kind } && name@ == e.0 && kind == e.1
        }),
{
    let taken = inspected_items(items, cap);
    let v = entries_view(scan.entries@);
    assert(v[k] == entry_view(scan.entries@[k]));
    assert(v.to_multiset().count(v[k]) > 0);
    assert(real_entries(taken).contains(v[k]));
    lemma_real_entry_source(taken, v[k]);
    assert(taken[v[k].2] == items[v[k].2]);
}

proof fn lemma_real_entry_source(items: Seq<Listed>, e: (Seq<u8>, EntryKind, int))
    requires
        real_entries(items).contains(e),
    ensures
        0 <= e.2 < items.len(),
        items[e.2] matches Listed::Real { name, kind } && name@ == e.0 && kind == e.1,
    decreases items.len(),
{
    let prev = real_entries(items.drop_last());
    if prev.contains(e) {
        lemma_real_entry_source(items.drop_last(), e);
        assert(items.drop_last()[e.2] == items[e.2]);
    } else {
        let i = choose|i: int| 0 <= i < real_entries(items).len() && real_entries(items)[i] == e;
        assert(i == prev.len());
    }
}

// ---------------------------------------------------------------------------
// A recursive count over a tree
// ---------------------------------------------------------------------------

/// The caller's handle for the root directory of a recursive count.
pub const ROOT_DIRECTORY: usize = 0;

/// The totals of a bounded recursive count.
#[derive(Clone, Copy, Debug, PartialEq, Eq, Structural)]
pub struct RecursiveCount {
    /// Files the caller's predicate accepted.
    pub matching_files: usize,
    /// Listing items inspected, across every directory.
    pub inspected: usize,
    /// Unreadable items and directories.
    pub errors: usize,
    /// The shared budget was exhausted somewhere.
    pub limit_reached: bool,
}

/// Nothing counted yet.
pub open spec fn zero_count() -> RecursiveCount {
    RecursiveCount { matching_files: 0, inspected: 0, errors: 0, limit_reached: false }
}

/// A kept entry of a scanned directory, as the caller reports it.
#[derive(Clone, Copy, Debug, PartialEq, Eq, Structural)]
pub enum Found {
    /// A real directory, with the caller's handle for it.
    Directory(usize),
    /// A real file, and whether the caller's predicate accepts it.
    File(bool),
}

/// What the scan of one queued directory gave.
#[derive(Clone, Debug)]
pub struct ScanReport {
    pub inspected: usize,
    pub errors: usize,
    pub limit_reached: bool,
    /// The kept entries, in the scan's order.
    pub found: Vec<Found>,
}

/// The state of a recursive count between two scans.
#[derive(Clone, Debug)]
pub struct CountWalk {
    pub count: RecursiveCount,
    /// Directories still to scan, with their depth below the root; the
    /// front is scanned next.
    pub queue: Vec<(usize, usize)>,
    pub entry_cap: usize,
    pub depth_cap: usize,
    /// Depth of the directory being scanned.
    pub depth: usize,
    /// Budget granted to that scan.
    pub granted: usize,
}

/// What the caller does next.
#[derive(Clone, Copy, Debug, PartialEq, Eq, Structural)]
pub enum CountAction {
    /// Scan this directory with at most `cap` inspections, then report.
    Scan { directory: usize, cap: usize },
    /// The count is complete.
    Finished(RecursiveCount),
}

/// A walk as a plain value.
pub struct WalkView {
    pub count: RecursiveCount,
    pub queue: Seq<(usize, usize)>,
    pub entry_cap: usize,
    pub depth_cap: usize,
    pub depth: usize,
    pub granted: usize,
}

impl View for CountWalk {
    type V = WalkView;

    open spec fn view(&self) -> WalkView {
        WalkView {
            count: self.count,
            queue: self.queue@,
            entry_cap: self.entry_cap,
            depth_cap: self.depth_cap,
            depth: self.depth,
            granted: self.granted,
        }
    }
}

/// Directories a scan at `depth` queues: every reported directory, in
/// order, one level deeper, unless `depth` is already the limit.
pub open spec fn queued_children(found: Seq<Found>, depth: usize, depth_cap: usize) -> Seq<(usize, usize)>
    decreases found.len(),
{
    if found.len() == 0 {
        seq![]
    } else {
        let prev = queued_children(found.drop_last(), depth, depth_cap);
        match found.last() {
            Found::Directory(d) => if depth < depth_cap {
                prev.push((d, (depth + 1) as usize))
            } else {
                prev
            },
            Found::File(_) => prev,
        }
    }
}

/// How many reported files the predicate accepted.
pub open spec fn accepted_files(found: Seq<Found>) -> nat
    decreases found.len(),
{
    if found.len() == 0 {
        0
    } else {
        accepted_files(found.drop_last()) + if found.last() == Found::File(true) {
            1nat
        } else {
            0nat
        }
    }
}

/// Stop when the budget is spent (noting that), or when nothing is queued;
/// otherwise scan the front of the queue with what is left of the budget.
pub open spec fn advance(
    count: RecursiveCount,
    queue: Seq<(usize, usize)>,
    entry_cap: usize,
    depth_cap: usize,
) -> (WalkView, CountAction) {
    if count.inspected >= entry_cap {
        let c = RecursiveCount { limit_reached: true, ..count };
        (
            WalkView { count: c, queue, entry_cap, depth_cap, depth: 0, granted: 0 },
            CountAction::Finished(c),
        )
    } else if queue.len() == 0 {
        (
            WalkView { count, queue, entry_cap, depth_cap, depth: 0, granted: 0 },
            CountAction::Finished(count),
        )
    } else {
        let g = (entry_cap - count.inspected) as usize;
        (
            WalkView {
                count,
                queue: queue.drop_first(),
                entry_cap,
                depth_cap,
                depth: queue[0].1,
                granted: g,
            },
            CountAction::Scan { directory: queue[0].0, cap: g },
        )
    }
}

/// How a count begins: nothing to do without a budget or a real root
/// directory; otherwise the root is scanned first.
pub open spec fn count_begin(entry_cap: usize, depth_cap: usize, root_is_directory: bool) -> (WalkView, CountAction) {
    if entry_cap == 0 || !root_is_directory {
        (
            WalkView { count: zero_count(), queue: seq![], entry_cap, depth_cap, depth: 0, granted: 0 },
            CountAction::Finished(zero_count()),
        )
    } else {
        advance(zero_count(), seq![(ROOT_DIRECTORY, 0usize)], entry_cap, depth_cap)
    }
}

/// `a + b`, held at `usize::MAX`.
pub open spec fn saturated(a: usize, b: usize) -> usize {
    if a + b > usize::MAX {
        usize::MAX
    } else {
        (a + b) as usize
    }
}

/// Fold one scan's report into the walk, then advance.
pub open spec fn count_next(w: WalkView, found: Seq<Found>, inspected: usize, errors: usize, limit_reached: bool) -> (WalkView, CountAction) {
    let count = RecursiveCount {
        matching_files: (w.count.matching_files + accepted_files(found)) as usize,
        inspected: (w.count.inspected + inspected) as usize,
        errors: saturated(w.count.errors, errors),
        limit_reached: w.count.limit_reached || limit_reached,
    };
    advance(count, w.queue + queued_children(found, w.depth, w.depth_cap), w.entry_cap, w.depth_cap)
}

/// The invariant of a walk: the scan under way fits what is left of the
/// shared budget, only inspected files are counted, and nothing queued or
/// scanned lies deeper than the limit.
pub open spec fn walk_ok(w: WalkView) -> bool {
    &&& w.count.inspected + w.granted <= w.entry_cap
    &&& w.count.matching_files <= w.count.inspected
    &&& w.depth <= w.depth_cap
    &&& forall|k: int| 0 <= k < w.queue.len() ==> (#[trigger] w.queue[k]).1 <= w.depth_cap
}

/// A report fits the scan it answers.
pub open spec fn report_fits(w: WalkView, found: Seq<Found>, inspected: usize) -> bool {
    &&& inspected <= w.granted
    &&& found.len() <= inspected
}

proof fn lemma_found_bounds(found: Seq<Found>, depth: usize, depth_cap: usize)
    requires
        depth <= depth_cap,
    ensures
        accepted_files(found) <= found.len(),
        forall|k: int| 0 <= k < queued_children(found, depth, depth_cap).len()
            ==> (#[trigger] queued_children(found, depth, depth_cap)[k]).1 <= depth_cap,
    decreases found.len(),
{
    if found.len() > 0 {
        lemma_found_bounds(found.drop_last(), depth, depth_cap);
        let prev = queued_children(found.drop_last(), depth, depth_cap);
        let q = queued_children(found, depth, depth_cap);
        assert forall|k: int| 0 <= k < q.len() implies (#[trigger] q[k]).1 <= depth_cap by {
            if k < prev.len() {
                assert(q[k] == prev[k]);
            }
        }
    }
}

proof fn lemma_advance_ok(count: RecursiveCount, queue: Seq<(usize, usize)>, entry_cap: usize, depth_cap: usize)
    requires
        count.inspected <= entry_cap,
        count.matching_files <= count.inspected,
        forall|k: int| 0 <= k < queue.len() ==> (#[trigger] queue[k]).1 <= depth_cap,
    ensures
        walk_ok(advance(count, queue, entry_cap, depth_cap).0),
{
    if count.inspected < entry_cap && queue.len() > 0 {
        let q = queue.drop_first();
        assert forall|k: int| 0 <= k < q.len() implies (#[trigger] q[k]).1 <= depth_cap by {
            assert(q[k] == queue[k + 1]);
        }
    }
}

/// Begin a recursive count (see [`count_begin`]).
pub fn count_start(entry_cap: usize, depth_cap: usize, root_is_directory: bool) -> (r: (CountWalk, CountAction))
    ensures
        (r.0@, r.1) == count_begin(entry_cap, depth_cap, root_is_directory),
        walk_ok(r.0@),
{
    let zero = RecursiveCount { matching_files: 0, inspected: 0, errors: 0, limit_reached: false };
    if entry_cap == 0 || !root_is_directory {
        let walk = CountWalk { count: zero, queue: Vec::new(), entry_cap, depth_cap, depth: 0, granted: 0 };
        proof {
            assert(walk@.queue =~= Seq::<(usize, usize)>::empty());
        }
        return (walk, CountAction::Finished(zero));
    }
    let mut queue: Vec<(usize, usize)> = Vec::new();
    queue.push((ROOT_DIRECTORY, 0));
    proof {
        assert(queue@ =~= seq![(ROOT_DIRECTORY, 0usize)]);
        lemma_advance_ok(zero, queue@, entry_cap, depth_cap);
    }
    advance_walk(zero, queue, entry_cap, depth_cap)
}

fn advance_walk(count: RecursiveCount, queue: Vec<(usize, usize)>, entry_cap: usize, depth_cap: usize) -> (r: (CountWalk, CountAction))
    ensures
        (r.0@, r.1) == advance(count, queue@, entry_cap, depth_cap),
{
    if count.inspected >= entry_cap {
        let c = RecursiveCount { limit_reached: true, ..count };
        (CountWalk { count: c, queue, entry_cap, depth_cap, depth: 0, granted: 0 }, CountAction::Finished(c))
    } else if queue.len() == 0 {
        (CountWalk { count, queue, entry_cap, depth_cap, depth: 0, granted: 0 }, CountAction::Finished(count))
    } else {
        let mut queue = queue;
        let ghost before = queue@;
        let (directory, depth) = queue.remove(0);
        proof {
            assert(queue@ =~= before.drop_first());
        }
        let g = entry_cap - count.inspected;
        (
            CountWalk { count, queue, entry_cap, depth_cap, depth, granted: g },
            CountAction::Scan { directory, cap: g },
        )
    }
}

/// Fold the report of the scan just made into the walk and decide what
/// comes next (see [`count_next`]).
pub fn count_step(walk: CountWalk, report: ScanReport) -> (r: (CountWalk, CountAction))
    requires
        walk_ok(walk@),
        report_fits(walk@, report.found@, report.inspected),
    ensures
        (r.0@, r.1) == count_next(walk@, report.found@, report.inspected, report.errors, report.limit_reached),
        walk_ok(r.0@),
{
    let ghost w = walk@;
    let CountWalk { count, mut queue, entry_cap, depth_cap, depth, granted: _ } = walk;
    let mut matching = count.matching_files;
    let mut i: usize = 0;
    proof {
        lemma_found_bounds(report.found@, depth, depth_cap);
    }
    while i < report.found.len()
        invariant
            i <= report.found@.len(),
            report.found@.len() <= report.inspected,
            count.inspected + report.inspected <= entry_cap,
            count.matching_files <= count.inspected,
            matching == count.matching_files + accepted_files(report.found@.take(i as int)),
            accepted_files(report.found@.take(i as int)) <= i,
            queue@ == w.queue + queued_children(report.found@.take(i as int), depth, depth_cap),
        decreases report.found.len() - i,
    {
        proof {
            assert(report.found@.take(i + 1).drop_last() =~= report.found@.take(i as int));
            assert(report.found@.take(i + 1).last() == report.found@[i as int]);
        }
        match report.found[i] {
            Found::Directory(d) => {
                if depth < depth_cap {
                    queue.push((d, depth + 1));
                }
            },
            Found::File(accepted) => {
                if accepted {
                    matching = matching + 1;
                }
            },
        }
        i += 1;
    }
    proof {
        assert(report.found@.take(report.found@.len() as int) =~= report.found@);
        let q = w.queue + queued_children(report.found@, depth, depth_cap);
        assert forall|k: int| 0 <= k < q.len() implies (#[trigger] q[k]).1 <= depth_cap by {
            if k < w.queue.len() {
                assert(q[k] == w.queue[k]);
            } else {
                assert(q[k] == queued_children(report.found@, depth, depth_cap)[k - w.queue.len()]);
            }
        }
    }
    let next = RecursiveCount {
        matching_files: matching,
        inspected: count.inspected + report.inspected,
        errors: count.errors.saturating_add(report.errors),
        limit_reached: count.limit_reached || report.limit_reached,
    };
    proof {
        lemma_advance_ok(next, queue@, entry_cap, depth_cap);
    }
    advance_walk(next, queue, entry_cap, depth_cap)
}

/// One budget is shared by the whole tree: each scan is granted only what
/// the scans before it left, a finished count never inspected more than the
/// budget, and a count that spent it all says so.
pub proof fn law_one_budget_for_the_tree(w: WalkView, found: Seq<Found>, inspected: usize, errors: usize, limit_reached: bool)
    requires
        walk_ok(w),
        report_fits(w, found, inspected),
    ensures
        ({
            let (next, action) = count_next(w, found, inspected, errors, limit_reached);
            &&& walk_ok(next)
            &&& next.count.inspected == w.count.inspected + inspected
            &&& match action {
                CountAction::Scan { cap, .. } => cap > 0 && cap == next.granted
                    && next.count.inspected + cap == w.entry_cap,
                CountAction::Finished(c) => c == next.count && c.inspected <= w.entry_cap
                    && (c.inspected == w.entry_cap ==> c.limit_reached),
            }
        }),
{
    lemma_found_bounds(found, w.depth, w.depth_cap);
    let q = w.queue + queued_children(found, w.depth, w.depth_cap);
    assert forall|k: int| 0 <= k < q.len() implies (#[trigger] q[k]).1 <= w.depth_cap by {
        if k < w.queue.len() {
            assert(q[k] == w.queue[k]);
        } else {
            assert(q[k] == queued_children(found, w.depth, w.depth_cap)[k - w.queue.len()]);
        }
    }
    let count = count_next(w, found, inspected, errors, limit_reached).0.count;
    lemma_advance_ok(
        RecursiveCount {
            matching_files: (w.count.matching_files + accepted_files(found)) as usize,
            inspected: (w.count.inspected + inspected) as usize,
            errors: saturated(w.count.errors, errors),
            limit_reached: w.count.limit_reached || limit_reached,
        },
        q,
        w.entry_cap,
        w.depth_cap,
    );
}

/// No directory deeper than the limit is ever scanned, and a directory at
/// the limit queues nothing.
pub proof fn law_depth_is_bounded(w: WalkView, found: Seq<Found>, inspected: usize, errors: usize, limit_reached: bool)
    requires
        walk_ok(w),
        report_fits(w, found, inspected),
    ensures
        count_next(w, found, inspected, errors, limit_reached).0.depth <= w.depth_cap,
        w.depth == w.depth_cap ==> queued_children(found, w.depth, w.depth_cap).len() == 0,
{
    law_one_budget_for_the_tree(w, found, inspected, errors, limit_reached);
    if w.depth == w.depth_cap {
        lemma_no_children_at_limit(found, w.depth, w.depth_cap);
    }
}

proof fn lemma_no_children_at_limit(found: Seq<Found>, depth: usize, depth_cap: usize)
    requires
        depth >= depth_cap,
    ensures
        queued_children(found, depth, depth_cap).len() == 0,
    decreases found.len(),
{
    if found.len() > 0 {
        lemma_no_children_at_limit(found.drop_last(), depth, depth_cap);
    }
}

} // verus!
