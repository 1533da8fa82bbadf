//! Installation-local privacy keys.
//!
//! The provenance key lives in the user's state directory, never in a
//! project workspace, so a copied artifact does not carry what is needed to
//! dictionary-test short requirements. A key is exactly
//! [`PROVENANCE_KEY_BYTES`] bytes and never all zero; anything else fails
//! closed. Concurrent processes create it exclusively and converge on the
//! one that was published first. The caller does the file work; this module
//! checks key material and decides each step of loading or creating a key.

use vstd::prelude::*;

verus! {

/// Bytes of entropy in the installation provenance key.
pub const PROVENANCE_KEY_BYTES: usize = 32;

/// The state directory below a home directory.
pub const STATE_DIR: &'static str = ".umadev";

/// The key file inside the state directory.
pub const KEY_FILE: &'static str = "provenance.key";

/// How many times a process that lost the race to publish reads the
/// winner's key before it gives up.
pub const WINNER_READS: u32 = 20;

/// `getrandom::getrandom`: fills the buffer from the system's random source
/// and reports whether that succeeded. Nothing is claimed of the bytes, on
/// success or failure.
#[verifier::external_body]
pub(crate) fn fill_random<const N: usize>(buf: &mut [u8; N]) -> (filled: bool) {
    getrandom::getrandom(buf).is_ok()
}

/// Every byte is zero.
pub open spec fn all_zero(b: Seq<u8>) -> bool {
    forall|i: int| 0 <= i < b.len() ==> b[i] == 0
}

/// Key material that may be used: the key length, not all zero.
pub open spec fn usable_key(b: Seq<u8>) -> bool {
    b.len() == PROVENANCE_KEY_BYTES && !all_zero(b)
}

fn is_all_zero(bytes: &[u8]) -> (z: bool)
    ensures
        z == all_zero(bytes@),
{
    let mut i: usize = 0;
    while i < bytes.len()
        invariant
            i <= bytes.len(),
            forall|j: int| 0 <= j < i ==> bytes@[j] == 0,
        decreases bytes.len() - i,
    {
        if bytes[i] != 0 {
            return false;
        }
        i += 1;
    }
    true
}

/// The key stored in `bytes`: only the exact key length, and never all zero.
pub fn key_from_bytes(bytes: &[u8]) -> (r: Option<[u8; 32]>)
    ensures
        r is Some <==> usable_key(bytes@),
        r matches Some(k) ==> k@ == bytes@,
{
    if bytes.len() != PROVENANCE_KEY_BYTES {
        return None;
    }
    let mut key = [0u8; 32];
    let mut i: usize = 0;
    while i < 32
        invariant
            i <= 32,
            bytes@.len() == 32,
            key@.len() == 32,
            forall|j: int| 0 <= j < i ==> key@[j] == bytes@[j],
        decreases 32 - i,
    {
        key[i] = bytes[i];
        i += 1;
    }
    assert(key@ == bytes@);
    if is_all_zero(&key) {
        None
    } else {
        Some(key)
    }
}

/// A fresh random key for a non-persistent fallback, or `None` when the
/// random source fails or yields all zero bytes. Two calls are not meant to
/// agree.
pub fn ephemeral_key() -> (r: Option<[u8; 32]>)
    ensures
        r matches Some(k) ==> usable_key(k@),
{
    let mut key = [0u8; 32];
    if !fill_random(&mut key) {
        return None;
    }
    key_from_bytes(&key)
}

/// Which environment variable names the state directory.
#[derive(Debug, Clone, Copy, PartialEq, Eq, Structural)]
pub enum StateSource {
    /// `UMADEV_HOME` is the state directory itself.
    UmadevHome,
    /// `HOME`, with [`STATE_DIR`] appended.
    Home,
    /// `USERPROFILE`, with [`STATE_DIR`] appended.
    UserProfile,
}

/// Choose the state directory's source from which variables are set to a
/// non-empty value: `UMADEV_HOME` first, then `HOME`, then `USERPROFILE`;
/// none of them means no state directory.
pub fn state_source(umadev_home: bool, home: bool, userprofile: bool) -> (r: Option<StateSource>)
    ensures
        r == (if umadev_home {
            Some(StateSource::UmadevHome)
        } else if home {
            Some(StateSource::Home)
        } else if userprofile {
            Some(StateSource::UserProfile)
        } else {
            None
        }),
{
    if umadev_home {
        Some(StateSource::UmadevHome)
    } else if home {
        Some(StateSource::Home)
    } else if userprofile {
        Some(StateSource::UserProfile)
    } else {
        None
    }
}

/// Where loading or creating the installation key stands.
#[derive(Debug, Clone, Copy, PartialEq, Eq)]
pub enum KeyState {
    /// Reading an existing key.
    ReadExisting,
    /// No usable key; checking that the key path is absent or a regular file.
    CheckSlot,
    /// Generating a fresh key.
    Generate,
    /// Publishing the fresh key with exclusive creation.
    Publish { key: [u8; 32] },
    /// Another process published first; its key has been read this many
    /// times, the last read included.
    AwaitWinner { reads: u32 },
    /// Publishing failed otherwise; reading once more.
    ReadAfterError,
    /// Finished: the key, or none.
    Done(Option<[u8; 32]>),
}

/// What the caller observed after the last action.
#[derive(Debug, Clone, Copy, PartialEq, Eq)]
pub enum KeyEvent {
    /// The key file was read and checked with [`key_from_bytes`]; `None`
    /// when it is missing, unreadable or unusable.
    KeyRead(Option<[u8; 32]>),
    /// Whether the key path could be examined safely.
    SlotChecked(bool),
    /// The fresh key from [`ephemeral_key`].
    Generated(Option<[u8; 32]>),
    Published,
    /// Another process created the key file first.
    PublishExists,
    PublishError,
}

/// What the caller does next.
#[derive(Debug, Clone, Copy, PartialEq, Eq)]
pub enum KeyAction {
    ReadKey,
    CheckSlot,
    GenerateKey,
    /// Create the key file exclusively, privately, with these bytes.
    PublishKey([u8; 32]),
    /// Sleep briefly, then read the key.
    WaitThenReadKey,
    /// Sleep briefly; the result is then final.
    Wait,
    Stop,
}

/// A key event's key, when it carries a usable one.
pub open spec fn usable(k: Option<[u8; 32]>) -> bool {
    k matches Some(key) && !all_zero(key@)
}

/// The transition table. An event that the state does not await, or key
/// material that is not usable, ends without a key.
pub open spec fn key_next_spec(s: KeyState, e: KeyEvent) -> (KeyState, KeyAction) {
    let none = (KeyState::Done(None), KeyAction::Stop);
    match s {
        KeyState::ReadExisting => match e {
            KeyEvent::KeyRead(k) => if usable(k) {
                (KeyState::Done(k), KeyAction::Stop)
            } else {
                (KeyState::CheckSlot, KeyAction::CheckSlot)
            },
            _ => none,
        },
        KeyState::CheckSlot => match e {
            KeyEvent::SlotChecked(safe) => if safe {
                (KeyState::Generate, KeyAction::GenerateKey)
            } else {
                none
            },
            _ => none,
        },
        KeyState::Generate => match e {
            KeyEvent::Generated(k) => match k {
                Some(key) => if usable(k) {
                    (KeyState::Publish { key }, KeyAction::PublishKey(key))
                } else {
                    none
                },
                None => none,
            },
            _ => none,
        },
        KeyState::Publish { key } => match e {
            KeyEvent::Published => (KeyState::Done(Some(key)), KeyAction::Stop),
            KeyEvent::PublishExists => (KeyState::AwaitWinner { reads: 0 }, KeyAction::ReadKey),
            KeyEvent::PublishError => (KeyState::ReadAfterError, KeyAction::ReadKey),
            _ => none,
        },
        KeyState::AwaitWinner { reads } => match e {
            KeyEvent::KeyRead(k) => if usable(k) {
                (KeyState::Done(k), KeyAction::Stop)
            } else if reads + 1 < WINNER_READS {
                (KeyState::AwaitWinner { reads: (reads + 1) as u32 }, KeyAction::WaitThenReadKey)
            } else {
                (KeyState::Done(None), KeyAction::Wait)
            },
            _ => none,
        },
        KeyState::ReadAfterError => match e {
            KeyEvent::KeyRead(k) => if usable(k) {
                (KeyState::Done(k), KeyAction::Stop)
            } else {
                none
            },
            _ => none,
        },
        KeyState::Done(k) => (KeyState::Done(k), KeyAction::Stop),
    }
}

fn usable_event_key(k: Option<[u8; 32]>) -> (b: bool)
    ensures
        b == usable(k),
{
    match k {
        Some(key) => !is_all_zero(&key),
        None => false,
    }
}

/// Begin loading the installation key: read the existing one first.
pub fn key_start() -> (r: (KeyState, KeyAction))
    ensures
        r == (KeyState::ReadExisting, KeyAction::ReadKey),
{
    (KeyState::ReadExisting, KeyAction::ReadKey)
}

/// Decide the next step of loading or creating the installation key.
pub fn key_step(state: KeyState, event: KeyEvent) -> (r: (KeyState, KeyAction))
    ensures
        r == key_next_spec(state, event),
{
    let none = (KeyState::Done(None), KeyAction::Stop);
    match state {
        KeyState::ReadExisting => match event {
            KeyEvent::KeyRead(k) => if usable_event_key(k) {
                (KeyState::Done(k), KeyAction::Stop)
            } else {
                (KeyState::CheckSlot, KeyAction::CheckSlot)
            },
            _ => none,
        },
        KeyState::CheckSlot => match event {
            KeyEvent::SlotChecked(safe) => if safe {
                (KeyState::Generate, KeyAction::GenerateKey)
            } else {
                none
            },
            _ => none,
        },
        KeyState::Generate => match event {
            KeyEvent::Generated(k) => match k {
                Some(key) => if usable_event_key(k) {
                    (KeyState::Publish { key }, KeyAction::PublishKey(key))
                } else {
                    none
                },
                None => none,
            },
            _ => none,
        },
        KeyState::Publish { key } => match event {
            KeyEvent::Published => (KeyState::Done(Some(key)), KeyAction::Stop),
            KeyEvent::PublishExists => (KeyState::AwaitWinner { reads: 0 }, KeyAction::ReadKey),
            KeyEvent::PublishError => (KeyState::ReadAfterError, KeyAction::ReadKey),
            _ => none,
        },
        KeyState::AwaitWinner { reads } => match event {
            KeyEvent::KeyRead(k) => if usable_event_key(k) {
                (KeyState::Done(k), KeyAction::Stop)
            } else if reads < WINNER_READS && WINNER_READS - reads > 1 {
                (KeyState::AwaitWinner { reads: reads + 1 }, KeyAction::WaitThenReadKey)
            } else {
                (KeyState::Done(None), KeyAction::Wait)
            },
            _ => none,
        },
        KeyState::ReadAfterError => match event {
            KeyEvent::KeyRead(k) => if usable_event_key(k) {
                (KeyState::Done(k), KeyAction::Stop)
            } else {
                none
            },
            _ => none,
        },
        KeyState::Done(k) => (KeyState::Done(k), KeyAction::Stop),
    }
}

/// The key state after a sequence of observed events.
pub open spec fn key_run_spec(evs: Seq<KeyEvent>) -> KeyState
    decreases evs.len(),
{
    if evs.len() == 0 {
        KeyState::ReadExisting
    } else {
        key_next_spec(key_run_spec(evs.drop_last()), evs.last()).0
    }
}

/// Key `k` was read from the key file or generated, by some event of `evs`.
pub open spec fn key_came_from(evs: Seq<KeyEvent>, k: [u8; 32]) -> bool {
    exists|i: int| 0 <= i < evs.len()
        && (#[trigger] evs[i] == KeyEvent::KeyRead(Some(k)) || evs[i] == KeyEvent::Generated(Some(k)))
}

/// Key `k` was generated by some event of `evs`.
pub open spec fn key_generated(evs: Seq<KeyEvent>, k: [u8; 32]) -> bool {
    exists|i: int| 0 <= i < evs.len() && #[trigger] evs[i] == KeyEvent::Generated(Some(k))
}

spec fn key_inv(s: KeyState, evs: Seq<KeyEvent>) -> bool {
    &&& (s matches KeyState::Publish { key } ==> !all_zero(key@) && key_generated(evs, key))
    &&& (s matches KeyState::Done(Some(k)) ==> !all_zero(k@) && key_came_from(evs, k))
    &&& (s matches KeyState::AwaitWinner { reads } ==> reads < WINNER_READS)
}

proof fn lemma_key_inv(evs: Seq<KeyEvent>)
    ensures
        key_inv(key_run_spec(evs), evs),
    decreases evs.len(),
{
    if evs.len() > 0 {
        let prev = evs.drop_last();
        lemma_key_inv(prev);
        let s = key_run_spec(prev);
        let e = evs.last();
        let last = evs.len() - 1;
        assert(evs[last] == e);
        assert forall|i: int| 0 <= i < prev.len() implies #[trigger] evs[i] == prev[i] by {}
        if let KeyState::Publish { key } = s {
            let i = choose|i: int| 0 <= i < prev.len() && #[trigger] prev[i] == KeyEvent::Generated(Some(key));
            assert(evs[i] == prev[i]);
        }
        if let KeyState::Done(Some(k)) = s {
            let i = choose|i: int| 0 <= i < prev.len()
                && (#[trigger] prev[i] == KeyEvent::KeyRead(Some(k)) || prev[i] == KeyEvent::Generated(Some(k)));
            assert(evs[i] == prev[i]);
        }
    }
}

/// Loading never yields, and never publishes, key material that is all
/// zero; a key it yields was read from the key file or freshly generated,
/// and a key it publishes was freshly generated.
pub proof fn law_keys_fail_closed(evs: Seq<KeyEvent>)
    ensures
        key_run_spec(evs) matches KeyState::Done(Some(k)) ==> usable_key(k@) && key_came_from(evs, k),
        key_run_spec(evs) matches KeyState::Publish { key } ==> usable_key(key@) && key_generated(evs, key),
{
    lemma_key_inv(evs);
}

/// A process that lost the race to publish reads the winner's key at most
/// [`WINNER_READS`] times.
pub proof fn law_winner_wait_is_bounded(evs: Seq<KeyEvent>)
    ensures
        key_run_spec(evs) matches KeyState::AwaitWinner { reads } ==> reads < WINNER_READS,
{
    lemma_key_inv(evs);
}

/// An existing usable key is returned as read, without generating or
/// publishing anything; an unsafe key path ends without a key.
pub proof fn law_existing_key_wins(k: [u8; 32])
    ensures
        !all_zero(k@) ==> key_next_spec(KeyState::ReadExisting, KeyEvent::KeyRead(Some(k)))
            == (KeyState::Done(Some(k)), KeyAction::Stop),
        key_next_spec(KeyState::CheckSlot, KeyEvent::SlotChecked(false))
            == (KeyState::Done(None), KeyAction::Stop),
{
}

/// A key is stable across loads: when one load ends with key `k` (read or
/// freshly published) and a later load reads back a key file holding `k`,
/// the later load ends with that same `k` at once, generating and
/// publishing nothing. (That the file still holds `k` is the caller's file
/// work.)
pub proof fn law_key_is_stable_across_loads(first: Seq<KeyEvent>, k: [u8; 32])
    requires
        key_run_spec(first) == KeyState::Done(Some(k)),
    ensures
        key_run_spec(seq![KeyEvent::KeyRead(Some(k))]) == KeyState::Done(Some(k)),
        key_next_spec(KeyState::ReadExisting, KeyEvent::KeyRead(Some(k))).1 == KeyAction::Stop,
{
    law_keys_fail_closed(first);
    let evs = seq![KeyEvent::KeyRead(Some(k))];
    assert(evs.drop_last() =~= Seq::<KeyEvent>::empty());
    assert(key_run_spec(evs.drop_last()) == KeyState::ReadExisting);
    assert(evs.last() == KeyEvent::KeyRead(Some(k)));
}

} // verus!
