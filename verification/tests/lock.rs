use umadev::lock::{
    lock_age_ms, lock_is_stale, owner_matches, parse_decimal_u64, parse_lock_owner,
    store_lock_owner_valid,
};

#[test]
fn owner_markers_are_parsed_strictly() {
    let (stamp, nonce) = parse_lock_owner(b"1700000000000\n123-456-7").unwrap();
    assert_eq!(stamp, 1_700_000_000_000);
    assert_eq!(nonce.iter().collect::<String>(), "123-456-7");
    assert!(parse_lock_owner(b"1700000000000\n").is_none());
    assert!(parse_lock_owner(b"1700000000000").is_none());
    assert!(parse_lock_owner(b"17x\nnonce").is_none());
    assert!(parse_lock_owner(b"1\nnon\nce").is_none());
    assert!(parse_lock_owner(b"\xff\nnonce").is_none());
    assert!(parse_lock_owner(b"+5\nnonce").is_some());
}

#[test]
fn decimal_parsing_matches_u64_from_str() {
    for text in ["0", "+7", "18446744073709551615", "18446744073709551616", "", "+", "-1", " 1", "1a"] {
        let chars: Vec<char> = text.chars().collect();
        assert_eq!(parse_decimal_u64(&chars), text.parse::<u64>().ok(), "{text}");
    }
}

#[test]
fn lock_age_trusts_only_plausible_stamps() {
    assert_eq!(lock_age_ms(Some(1_000), Some(500), 5_000, 60_000), Some(4_000));
    assert_eq!(lock_age_ms(Some(100_000), Some(500), 5_000, 60_000), Some(4_500));
    assert_eq!(lock_age_ms(Some(100_000), None, 5_000, 60_000), None);
    assert_eq!(lock_age_ms(None, Some(9_000), 5_000, 60_000), Some(0));
    assert!(lock_is_stale(Some(300_001), 300_000));
    assert!(!lock_is_stale(Some(300_000), 300_000));
    assert!(!lock_is_stale(None, 0));
}

#[test]
fn store_lock_owner_records_are_bounded() {
    assert!(store_lock_owner_valid(1, "nonce"));
    assert!(!store_lock_owner_valid(2, "nonce"));
    assert!(!store_lock_owner_valid(1, ""));
    assert!(store_lock_owner_valid(1, &"n".repeat(192)));
    assert!(!store_lock_owner_valid(1, &"n".repeat(193)));
}

#[test]
fn only_the_named_holder_owns_a_lock() {
    assert!(owner_matches(b"1700000000000\nabc-1", "abc-1"));
    assert!(!owner_matches(b"1700000000000\nabc-1", "abc-2"));
    assert!(!owner_matches(b"1700000000000\n", ""));
    assert!(!owner_matches(b"x\nabc-1", "abc-1"));
    assert!(!owner_matches(b"\xff\nabc", "abc"));
}
