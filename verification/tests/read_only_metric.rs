use umadev::read_only_metric::explicit_read_only_count;

#[test]
fn accepts_only_exact_provider_summary_shapes() {
    assert_eq!(explicit_read_only_count("Found 42 matches"), Some(42));
    assert_eq!(explicit_read_only_count("42 matches"), Some(42));
    assert_eq!(explicit_read_only_count("共 7 处匹配"), Some(7));
    assert_eq!(explicit_read_only_count("3 matches in source.rs"), None);
}

#[test]
fn rejects_implausible_provider_counts() {
    assert_eq!(explicit_read_only_count("3000000000000000 matches"), None);
    assert_eq!(explicit_read_only_count("1000001 matches"), None);
}

#[test]
fn only_the_first_non_empty_line_is_read() {
    assert_eq!(explicit_read_only_count("\n  \r\nTotal: 3 files.\nsecret 9 lines"), Some(3));
    assert_eq!(explicit_read_only_count("src/a.rs:1:fn main\n5 matches"), None);
    assert_eq!(explicit_read_only_count(""), None);
    assert_eq!(explicit_read_only_count("1000000 lines"), Some(1_000_000));
    assert_eq!(explicit_read_only_count("FOUND 2 RESULTS"), Some(2));
}
