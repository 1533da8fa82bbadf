use umadev::lifecycle::{operation_id, validate_operation_id};
use umadev::lock::{
    holder_nonce, owner_matches, owner_record, parse_lock_owner, store_holder_nonce,
    store_lock_owner_valid,
};
use umadev::numerals::{decimal_chars, hex_chars};

fn text(chars: Vec<char>) -> String {
    chars.into_iter().collect()
}

#[test]
fn numbers_are_spelled_as_formatting_prints_them() {
    for n in [0u128, 7, 9, 10, 15, 16, 255, 1009, 4096, u64::MAX as u128, u128::MAX] {
        assert_eq!(text(decimal_chars(n)), format!("{n}"));
        assert_eq!(text(hex_chars(n)), format!("{n:x}"));
    }
}

#[test]
fn generated_lifecycle_ids_pass_validation() {
    let id = operation_id(0x1793_5f4a_2b00_0000, 4242, 3);
    assert_eq!(id, "mlc-17935f4a2b000000-1092-3");
    assert_eq!(validate_operation_id(&id), Ok(()));
    let smallest = operation_id(0, 0, 0);
    assert_eq!(smallest, "mlc-0-0-0");
    assert_eq!(validate_operation_id(&smallest), Ok(()));
    let largest = operation_id(u128::MAX, u32::MAX, u64::MAX);
    assert_eq!(largest.len(), 4 + 32 + 1 + 8 + 1 + 16);
    assert_eq!(validate_operation_id(&largest), Ok(()));
}

#[test]
fn owner_records_read_back_what_was_written() {
    let nonce = holder_nonce(4242, 1_700_000_000_000, 7);
    assert_eq!(nonce, "4242-1700000000000-7");
    let record = owner_record(1_700_000_000_000, &nonce);
    assert_eq!(record, "1700000000000\n4242-1700000000000-7");
    let (stamp, read) = parse_lock_owner(record.as_bytes()).unwrap();
    assert_eq!(stamp, 1_700_000_000_000);
    assert_eq!(read.into_iter().collect::<String>(), nonce);
    assert!(owner_matches(record.as_bytes(), &nonce));
    assert!(!owner_matches(record.as_bytes(), "4242-1700000000000-8"));
    let max = owner_record(u64::MAX, "x");
    assert_eq!(parse_lock_owner(max.as_bytes()).unwrap().0, u64::MAX);
}

#[test]
fn store_holder_nonces_are_tagged_hex() {
    let nonce = store_holder_nonce("pitfalls", 0x2a, 0x17935f4a2b000000, 0);
    assert_eq!(nonce, "pitfalls-2a-17935f4a2b000000-0");
    assert!(store_lock_owner_valid(1, &nonce));
    let largest = store_holder_nonce("project-facts", u32::MAX, u128::MAX, u64::MAX);
    assert!(store_lock_owner_valid(1, &largest));
}
