use umadev::tree_walk::{entry_kind, single_file_ok, RootedEntryKind, TreeError, TreeWalk};

#[test]
fn entries_are_classified_without_following_links() {
    assert_eq!(entry_kind(true, false, 2, true), RootedEntryKind::Directory);
    assert_eq!(entry_kind(true, false, 2, false), RootedEntryKind::Unsafe);
    assert_eq!(entry_kind(false, true, 1, true), RootedEntryKind::RegularFile);
    assert_eq!(entry_kind(false, true, 2, true), RootedEntryKind::Unsafe);
    assert_eq!(entry_kind(false, true, 1, false), RootedEntryKind::Unsafe);
    assert_eq!(entry_kind(false, false, 1, true), RootedEntryKind::Unsafe);
}

#[test]
fn node_budget_covers_directories_and_entries() {
    let mut walk = TreeWalk::new(2, 3, 10, 100);
    assert_eq!(walk.enter_directory(0), Ok(()));
    assert_eq!(walk.check_listing(2), Ok(()));
    assert_eq!(walk.check_listing(3), Err(TreeError::Nodes));
    assert_eq!(walk.visit_entry(), Ok(()));
    assert_eq!(walk.visit_entry(), Ok(()));
    assert_eq!(walk.visit_entry(), Err(TreeError::Nodes));
    assert_eq!(walk.enter_directory(1), Err(TreeError::DepthOrNodes));
}

#[test]
fn depth_bound_stops_descent() {
    let mut walk = TreeWalk::new(1, 100, 10, 100);
    assert_eq!(walk.may_descend(0), Ok(()));
    assert_eq!(walk.may_descend(1), Err(TreeError::Depth));
    assert_eq!(walk.enter_directory(1), Ok(()));
    assert_eq!(walk.enter_directory(2), Err(TreeError::DepthOrNodes));
}

#[test]
fn file_and_byte_budgets_are_strict() {
    let mut walk = TreeWalk::new(4, 100, 2, 10);
    assert_eq!(walk.add_file(2, true, 1), Err(TreeError::LinkedFile));
    assert_eq!(walk.add_file(1, false, 1), Err(TreeError::UnsafeEntry));
    assert_eq!(walk.add_file(1, true, 6), Ok(()));
    assert_eq!(walk.add_file(1, true, 5), Err(TreeError::Bytes));
    assert_eq!(walk.bytes_found(), 6);
    assert_eq!(walk.add_file(1, true, 4), Ok(()));
    assert_eq!(walk.add_file(1, true, 0), Err(TreeError::Files));
    assert_eq!(walk.files_found(), 2);
    assert_eq!(walk.bytes_found(), 10);

    let mut huge = TreeWalk::new(4, 100, 10, u64::MAX);
    assert_eq!(huge.add_file(1, true, u64::MAX), Ok(()));
    assert_eq!(huge.add_file(1, true, 1), Err(TreeError::ByteOverflow));
}

#[test]
fn a_single_file_needs_room_and_one_link() {
    assert!(single_file_ok(1, 10, 1, 1, 10));
    assert!(!single_file_ok(2, 10, 1, 1, 10));
    assert!(!single_file_ok(1, 11, 1, 1, 10));
    assert!(!single_file_ok(1, 10, 0, 1, 10));
    assert!(!single_file_ok(1, 10, 1, 0, 10));
}
