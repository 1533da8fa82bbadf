use umadev::managed_path::{new_quarantine_suffix, quarantine_suffix, UNLINK_PREFIX};
use umadev::privacy::{
    ephemeral_key, key_from_bytes, key_start, key_step, state_source, KeyAction, KeyEvent,
    KeyState, StateSource, PROVENANCE_KEY_BYTES, WINNER_READS,
};

fn load(events: &[KeyEvent]) -> (KeyState, Vec<KeyAction>) {
    let (mut state, first) = key_start();
    let mut actions = vec![first];
    for event in events {
        let (next, action) = key_step(state, *event);
        state = next;
        actions.push(action);
    }
    (state, actions)
}

#[test]
fn stored_key_must_be_exact_and_nonzero() {
    let mut bytes = [7u8; PROVENANCE_KEY_BYTES];
    assert_eq!(key_from_bytes(&bytes), Some(bytes));
    bytes = [0u8; PROVENANCE_KEY_BYTES];
    assert_eq!(key_from_bytes(&bytes), None);
    bytes[31] = 1;
    assert_eq!(key_from_bytes(&bytes), Some(bytes));
    assert_eq!(key_from_bytes(&[7u8; 31]), None);
    assert_eq!(key_from_bytes(&[7u8; 33]), None);
    assert_eq!(key_from_bytes(&[]), None);
}

#[test]
fn ephemeral_keys_are_usable() {
    let key = ephemeral_key().expect("the system random source works here");
    assert_ne!(key, [0u8; PROVENANCE_KEY_BYTES]);
    assert_eq!(key_from_bytes(&key), Some(key));
}

#[test]
fn state_directory_source_prefers_umadev_home() {
    assert_eq!(state_source(true, true, true), Some(StateSource::UmadevHome));
    assert_eq!(state_source(false, true, true), Some(StateSource::Home));
    assert_eq!(state_source(false, false, true), Some(StateSource::UserProfile));
    assert_eq!(state_source(false, false, false), None);
}

#[test]
fn existing_key_is_returned_without_writing() {
    let key = [9u8; 32];
    let (state, actions) = load(&[KeyEvent::KeyRead(Some(key))]);
    assert_eq!(state, KeyState::Done(Some(key)));
    assert_eq!(actions, vec![KeyAction::ReadKey, KeyAction::Stop]);
}

#[test]
fn missing_key_is_generated_and_published() {
    let fresh = [3u8; 32];
    let (state, actions) = load(&[
        KeyEvent::KeyRead(None),
        KeyEvent::SlotChecked(true),
        KeyEvent::Generated(Some(fresh)),
        KeyEvent::Published,
    ]);
    assert_eq!(state, KeyState::Done(Some(fresh)));
    assert_eq!(
        actions,
        vec![
            KeyAction::ReadKey,
            KeyAction::CheckSlot,
            KeyAction::GenerateKey,
            KeyAction::PublishKey(fresh),
            KeyAction::Stop
        ]
    );
    // A second load reads the key the first one published.
    let (again, _) = load(&[KeyEvent::KeyRead(Some(fresh))]);
    assert_eq!(again, KeyState::Done(Some(fresh)));
}

#[test]
fn unsafe_key_path_or_failed_randomness_yields_no_key() {
    let (state, _) = load(&[KeyEvent::KeyRead(None), KeyEvent::SlotChecked(false)]);
    assert_eq!(state, KeyState::Done(None));
    let (state, _) = load(&[
        KeyEvent::KeyRead(None),
        KeyEvent::SlotChecked(true),
        KeyEvent::Generated(None),
    ]);
    assert_eq!(state, KeyState::Done(None));
    let (state, _) = load(&[
        KeyEvent::KeyRead(None),
        KeyEvent::SlotChecked(true),
        KeyEvent::Generated(Some([0u8; 32])),
    ]);
    assert_eq!(state, KeyState::Done(None));
    let (state, _) = load(&[KeyEvent::KeyRead(Some([0u8; 32]))]);
    assert_eq!(state, KeyState::CheckSlot);
}

#[test]
fn losing_publisher_adopts_the_winners_key() {
    let mine = [1u8; 32];
    let winner = [2u8; 32];
    let (state, actions) = load(&[
        KeyEvent::KeyRead(None),
        KeyEvent::SlotChecked(true),
        KeyEvent::Generated(Some(mine)),
        KeyEvent::PublishExists,
        KeyEvent::KeyRead(None),
        KeyEvent::KeyRead(Some(winner)),
    ]);
    assert_eq!(state, KeyState::Done(Some(winner)));
    assert_eq!(actions[4], KeyAction::ReadKey);
    assert_eq!(actions[5], KeyAction::WaitThenReadKey);
}

#[test]
fn a_permanently_partial_key_fails_closed_after_bounded_reads() {
    let mut events = vec![
        KeyEvent::KeyRead(None),
        KeyEvent::SlotChecked(true),
        KeyEvent::Generated(Some([1u8; 32])),
        KeyEvent::PublishExists,
    ];
    for _ in 0..WINNER_READS {
        events.push(KeyEvent::KeyRead(None));
    }
    let (state, actions) = load(&events);
    assert_eq!(state, KeyState::Done(None));
    assert_eq!(*actions.last().unwrap(), KeyAction::Wait);
    let reads = actions
        .iter()
        .filter(|a| matches!(a, KeyAction::ReadKey | KeyAction::WaitThenReadKey))
        .count();
    // The first read of the existing key, then the winner's key at most twenty times.
    assert_eq!(reads, 1 + WINNER_READS as usize);
}

#[test]
fn other_publish_errors_read_once_more() {
    let winner = [5u8; 32];
    let base = [
        KeyEvent::KeyRead(None),
        KeyEvent::SlotChecked(true),
        KeyEvent::Generated(Some([1u8; 32])),
        KeyEvent::PublishError,
    ];
    let mut found = base.to_vec();
    found.push(KeyEvent::KeyRead(Some(winner)));
    assert_eq!(load(&found).0, KeyState::Done(Some(winner)));
    let mut missing = base.to_vec();
    missing.push(KeyEvent::KeyRead(None));
    assert_eq!(load(&missing).0, KeyState::Done(None));
}

#[test]
fn quarantine_suffix_is_lower_hex_of_the_nonce() {
    let nonce = [
        0x00, 0x01, 0x0a, 0x0f, 0x10, 0x7f, 0x80, 0xab, 0xcd, 0xef, 0xff, 0x12, 0x34, 0x56, 0x78,
        0x9a,
    ];
    assert_eq!(
        quarantine_suffix(&nonce),
        "umadev-unlink-00010a0f107f80abcdefff123456789a"
    );
    let fresh = new_quarantine_suffix().expect("the system random source works here");
    assert!(fresh.starts_with(UNLINK_PREFIX));
    assert_eq!(fresh.len(), UNLINK_PREFIX.len() + 32);
    assert!(fresh[UNLINK_PREFIX.len()..]
        .chars()
        .all(|c| c.is_ascii_digit() || ('a'..='f').contains(&c)));
}
