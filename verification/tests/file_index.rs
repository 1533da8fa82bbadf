use umadev::file_index::{
    child_depth, display_path, is_source_extension, order_entries, remaining_entries,
    skipped_name, FileIndexBuilder, ENTRY_CAP, FILE_CAP, SCAN_DEPTH,
};

#[test]
fn hidden_and_build_entries_are_skipped() {
    assert!(skipped_name(".git"));
    assert!(skipped_name(".env"));
    assert!(skipped_name("target"));
    assert!(skipped_name("node_modules"));
    assert!(!skipped_name("Target"));
    assert!(!skipped_name("src"));
    assert!(!skipped_name(""));
}

#[test]
fn source_extensions_ignore_ascii_case() {
    assert!(is_source_extension("rs"));
    assert!(is_source_extension("RS"));
    assert!(is_source_extension("Tsx"));
    assert!(is_source_extension("html"));
    assert!(!is_source_extension("md"));
    assert!(!is_source_extension(""));
    assert!(!is_source_extension("rs "));
}

#[test]
fn walk_budget_and_depth() {
    assert_eq!(remaining_entries(0), Some(ENTRY_CAP));
    assert_eq!(remaining_entries(ENTRY_CAP - 1), Some(1));
    assert_eq!(remaining_entries(ENTRY_CAP), None);
    assert_eq!(child_depth(0), Some(1));
    assert_eq!(child_depth(SCAN_DEPTH - 1), Some(SCAN_DEPTH));
    assert_eq!(child_depth(SCAN_DEPTH), None);
}

#[test]
fn displayed_paths_use_forward_slashes() {
    assert_eq!(display_path("src\\app\\mod.rs"), "src/app/mod.rs");
    assert_eq!(display_path("a/b"), "a/b");
}

#[test]
fn entries_are_visited_by_lowercase_name_stably() {
    let names = vec!["b".to_string(), "A".to_string(), "a".to_string(), "C".to_string()];
    assert_eq!(order_entries(names), vec!["A", "a", "b", "C"]);
    let names = vec!["Ä".to_string(), "z".to_string(), "ä".to_string()];
    assert_eq!(order_entries(names), vec!["z", "Ä", "ä"]);
    assert!(order_entries(Vec::new()).is_empty());
}

#[test]
fn index_is_sorted_without_repeats_and_tracks_the_newest_source() {
    let mut builder = FileIndexBuilder::new();
    builder.record("src/main.rs".to_string(), Some("rs"), Some(10));
    builder.record("README.md".to_string(), Some("md"), Some(99));
    builder.record("src/lib.rs".to_string(), Some("rs"), Some(20));
    builder.record("src/a.ts".to_string(), Some("TS"), Some(20));
    builder.record("src/main.rs".to_string(), Some("rs"), None);
    builder.record("Makefile".to_string(), None, Some(500));
    let index = builder.finish();
    assert_eq!(
        index.paths,
        vec!["Makefile", "README.md", "src/a.ts", "src/lib.rs", "src/main.rs"]
    );
    // Newest source wins; an equal time goes to the smaller path.
    assert_eq!(index.recent_source.as_deref(), Some("src/a.ts"));

    let empty = FileIndexBuilder::new().finish();
    assert!(empty.paths.is_empty());
    assert_eq!(empty.recent_source, None);
}

#[test]
fn index_keeps_at_most_its_cap() {
    let mut builder = FileIndexBuilder::new();
    for i in 0..(FILE_CAP + 5) {
        builder.record(format!("f{i:05}"), None, None);
    }
    let index = builder.finish();
    assert_eq!(index.paths.len(), FILE_CAP);
    assert_eq!(index.paths[0], "f00000");
    assert_eq!(index.paths[FILE_CAP - 1], format!("f{:05}", FILE_CAP - 1));
}
