use umadev::dir_scan::{
    bytes_less, count_start, count_step, scan_listing, CountAction, CountWalk, EntryKind, Found,
    Listed, RecursiveCount, ScanReport, ENTRY_CAP, RECURSIVE_DEPTH_CAP, ROOT_DIRECTORY,
};

fn file(name: &str) -> Listed {
    Listed::Real { name: name.as_bytes().to_vec(), kind: EntryKind::File }
}

fn dir(name: &str) -> Listed {
    Listed::Real { name: name.as_bytes().to_vec(), kind: EntryKind::Directory }
}

fn names(scan: &umadev::dir_scan::Scan) -> Vec<String> {
    scan.entries.iter().map(|e| String::from_utf8(e.name.clone()).unwrap()).collect()
}

#[test]
fn listing_budget_is_strict() {
    let items: Vec<Listed> = (0..12).map(|i| file(&format!("{i:02}.txt"))).collect();
    let scan = scan_listing(4, Some(items));
    assert_eq!(scan.inspected, 4);
    assert_eq!(scan.entries.len(), 4);
    assert!(scan.limit_reached);
    assert_eq!(scan.errors, 0);
}

#[test]
fn listing_below_budget_is_not_limited() {
    let scan = scan_listing(4, Some(vec![file("a"), file("b"), file("c")]));
    assert_eq!(scan.inspected, 3);
    assert!(!scan.limit_reached);
}

#[test]
fn listing_of_exactly_the_budget_is_reported_as_limited() {
    let scan = scan_listing(2, Some(vec![file("a"), file("b")]));
    assert_eq!(scan.inspected, 2);
    assert!(scan.limit_reached);
}

#[test]
fn missing_directory_counts_one_error() {
    let scan = scan_listing(4, None);
    assert_eq!(scan.inspected, 0);
    assert_eq!(scan.errors, 1);
    assert!(scan.entries.is_empty());
    assert!(!scan.limit_reached);
}

#[test]
fn zero_budget_inspects_nothing() {
    let scan = scan_listing(0, None);
    assert_eq!(scan.inspected, 0);
    assert_eq!(scan.errors, 0);
    assert!(scan.entries.is_empty());
    assert!(!scan.limit_reached);
}

#[test]
fn listing_is_sorted_by_name() {
    let scan = scan_listing(ENTRY_CAP, Some(vec![file("z.txt"), file("a.txt"), file("m.txt")]));
    assert_eq!(names(&scan), ["a.txt", "m.txt", "z.txt"]);
    let positions: Vec<usize> = scan.entries.iter().map(|e| e.position).collect();
    assert_eq!(positions, [1, 2, 0]);
}

#[test]
fn links_and_unreadable_items_consume_budget_but_are_not_entries() {
    let scan = scan_listing(
        ENTRY_CAP,
        Some(vec![Listed::Skipped, file("b"), Listed::Failed, dir("a"), Listed::Failed]),
    );
    assert_eq!(scan.inspected, 5);
    assert_eq!(scan.errors, 2);
    assert_eq!(names(&scan), ["a", "b"]);
    assert_eq!(scan.entries[0].kind, EntryKind::Directory);
    assert_eq!(scan.entries[0].position, 3);
}

#[test]
fn byte_order_is_lexicographic() {
    assert!(bytes_less(b"a", b"b"));
    assert!(bytes_less(b"ab", b"abc"));
    assert!(!bytes_less(b"abc", b"ab"));
    assert!(!bytes_less(b"same", b"same"));
    assert!(bytes_less(b"Z", b"a"));
    assert!(bytes_less(b"", b"x"));
}

/// Drive a count over a simulated tree: `tree[d]` lists directory `d`'s
/// items; a directory item names the index of its own listing.
fn simulate(tree: &[Vec<(Option<usize>, bool)>], entry_cap: usize, depth_cap: usize) -> (RecursiveCount, Vec<(usize, usize)>) {
    let mut scans = Vec::new();
    let (mut walk, mut action): (CountWalk, CountAction) = count_start(entry_cap, depth_cap, true);
    loop {
        match action {
            CountAction::Finished(count) => return (count, scans),
            CountAction::Scan { directory, cap } => {
                scans.push((directory, cap));
                let items = &tree[directory];
                let taken: Vec<_> = items.iter().take(cap).collect();
                let found: Vec<Found> = taken
                    .iter()
                    .map(|(sub, accepted)| match sub {
                        Some(d) => Found::Directory(*d),
                        None => Found::File(*accepted),
                    })
                    .collect();
                let report = ScanReport {
                    inspected: taken.len(),
                    errors: 0,
                    limit_reached: taken.len() == cap,
                    found,
                };
                (walk, action) = count_step(walk, report);
            }
        }
    }
}

#[test]
fn recursive_count_shares_one_budget() {
    // Root with five directories of five matching files each.
    let mut tree: Vec<Vec<(Option<usize>, bool)>> = vec![(1..=5).map(|d| (Some(d), false)).collect()];
    for _ in 0..5 {
        tree.push((0..5).map(|_| (None, true)).collect());
    }
    let (count, scans) = simulate(&tree, 7, RECURSIVE_DEPTH_CAP);
    assert_eq!(count.inspected, 7);
    assert!(count.limit_reached);
    assert!(count.matching_files <= 7);
    assert_eq!(count.matching_files, 2);
    assert_eq!(scans, [(ROOT_DIRECTORY, 7), (1, 2)]);
}

#[test]
fn recursive_count_stops_at_the_depth_limit() {
    // A chain root -> 1 -> 2, each directory also holding one matching file.
    let tree = vec![
        vec![(Some(1), false), (None, true)],
        vec![(Some(2), false), (None, true)],
        vec![(None, true)],
    ];
    let (count, scans) = simulate(&tree, ENTRY_CAP, 1);
    assert_eq!(count.matching_files, 2);
    assert_eq!(count.inspected, 4);
    assert!(!count.limit_reached);
    assert_eq!(scans.len(), 2);
}

#[test]
fn recursive_count_without_budget_or_root_does_nothing() {
    let (_, action) = count_start(0, RECURSIVE_DEPTH_CAP, true);
    assert_eq!(action, CountAction::Finished(RecursiveCount { matching_files: 0, inspected: 0, errors: 0, limit_reached: false }));
    let (_, action) = count_start(ENTRY_CAP, RECURSIVE_DEPTH_CAP, false);
    assert_eq!(action, CountAction::Finished(RecursiveCount { matching_files: 0, inspected: 0, errors: 0, limit_reached: false }));
}

#[test]
fn recursive_count_ignores_unmatched_files() {
    let tree = vec![vec![(None, false), (None, true), (None, false)]];
    let (count, _) = simulate(&tree, ENTRY_CAP, RECURSIVE_DEPTH_CAP);
    assert_eq!(count.matching_files, 1);
    assert_eq!(count.inspected, 3);
    assert_eq!(count.errors, 0);
}
