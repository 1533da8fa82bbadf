//! Content-free lifecycle records for memory that was forgotten or aged out:
//! the tombstone marker, the deletion audit and the follow-up action record,
//! with the checks a record must pass before it is trusted.
//!
//! Records carry only opaque identifiers, logical store ids and counts, never
//! memory content or source paths.

use vstd::prelude::*;
use vstd::utf8::encode_utf8;

use crate::memory::{is_canonical_key, lemma_parse_store_id, parse_store, store_id, MemoryStore};
use crate::numerals::{append_chars, hex, hex_chars, lemma_hex_digits, lemma_hex_len, pow16};
use crate::text::{
    chars_of, insert_sorted, insert_sorted_chars, lemma_insert_sorted_shape, lex_less, lex_lt,
    strictly_ascending, string_of, views,
};

verus! {

/// The record schema this build reads and writes.
pub const RECORD_VERSION: u32 = 1;

/// Explicit ownership boundary recorded for a lifecycle operation.
#[derive(Debug, Clone, Copy, PartialEq, Eq, Structural)]
pub enum LifecycleScope {
    /// One canonical project root.
    Project,
    /// The current user's canonical home directory.
    Global,
}

/// Why active memory was moved out of a store.
#[derive(Debug, Clone, Copy, PartialEq, Eq, Structural)]
pub enum LifecycleOperation {
    /// An explicit user forget request.
    Forget,
    /// Enforcement of an explicitly configured age policy.
    Retention,
}

/// Follow-up action applied to one committed, recoverable tombstone.
#[derive(Debug, Clone, Copy, PartialEq, Eq, Structural)]
pub enum TombstoneAction {
    /// Return the payload to its original active namespace.
    Restore,
    /// Unlink the payload from the filesystem namespace (not a claim that
    /// storage media was erased).
    LogicalPurge,
}

/// Commit state of one audit record.
#[derive(Debug, Clone, Copy, PartialEq, Eq, Structural)]
pub enum AuditState {
    /// Staged, not yet published.
    Prepared,
    /// Atomically published.
    Committed,
}

/// Content-free marker for memory that remains recoverable.
#[derive(Debug, Clone)]
pub struct TombstoneRecord {
    pub version: u32,
    pub id: String,
    pub scope: LifecycleScope,
    pub stores: Vec<String>,
    pub operation: LifecycleOperation,
    pub created_at_ms: u64,
    pub files: usize,
    pub bytes: u64,
    pub physically_deleted: bool,
}

/// Content-free audit event for a lifecycle transaction.
#[derive(Debug, Clone)]
pub struct DeletionAuditRecord {
    pub version: u32,
    pub id: String,
    pub tombstone_id: String,
    pub scope: LifecycleScope,
    pub stores: Vec<String>,
    pub operation: LifecycleOperation,
    pub state: AuditState,
    pub created_at_ms: u64,
    pub files: usize,
    pub bytes: u64,
    pub physically_deleted: bool,
}

/// Content-free disposition and audit record for a tombstone follow-up.
#[derive(Debug, Clone)]
pub struct TombstoneActionRecord {
    pub version: u32,
    pub id: String,
    pub tombstone_id: String,
    pub scope: LifecycleScope,
    pub stores: Vec<String>,
    pub action: TombstoneAction,
    pub state: AuditState,
    pub created_at_ms: u64,
    pub files: usize,
    pub bytes: u64,
    /// `true` only for a committed logical purge.
    pub logically_unlinked: bool,
    /// Always `false`: an unlink cannot prove that media was erased.
    pub physically_deleted: bool,
}

/// Why a lifecycle record or request is refused.
#[derive(Debug, Clone, Copy, PartialEq, Eq, Structural)]
pub enum RecordError {
    /// Another schema version, or a record that claims physical deletion or
    /// contradicts itself.
    Unsupported,
    /// An identifier that is not an opaque lifecycle identifier.
    InvalidOperationId,
    /// A store id that names no store.
    UnknownStore,
    /// Store ids that are non-canonical, repeated or unsorted.
    NonCanonicalStores,
    /// A record with no store.
    EmptyStores,
    /// A request that selects no store.
    NoStoresSelected,
    /// A marker whose identifier or scope is not the one requested.
    IdentityMismatch,
}

// ---------------------------------------------------------------------------
// Identifiers and store sets
// ---------------------------------------------------------------------------

/// ASCII letter, digit or `-`.
pub open spec fn is_id_byte(b: u8) -> bool {
    (0x30 <= b && b <= 0x39) || (0x41 <= b && b <= 0x5A) || (0x61 <= b && b <= 0x7A) || b == 0x2D
}

/// An opaque lifecycle identifier: 8 to 128 bytes, `mlc-` first, and only
/// ASCII letters, digits and `-`.
pub open spec fn valid_operation_id(b: Seq<u8>) -> bool {
    &&& 8 <= b.len() <= 128
    &&& b.take(4) == seq![0x6Du8, 0x6Cu8, 0x63u8, 0x2Du8]
    &&& forall|i: int| 0 <= i < b.len() ==> is_id_byte(#[trigger] b[i])
}

/// Check an opaque lifecycle identifier.
pub fn validate_operation_id(id: &str) -> (r: Result<(), RecordError>)
    ensures
        r is Ok <==> valid_operation_id(encode_utf8(id@)),
        r is Err ==> r == Err::<(), RecordError>(RecordError::InvalidOperationId),
{
    let b: &[u8] = id.as_bytes();
    if b.len() < 8 || b.len() > 128 || b[0] != 0x6D || b[1] != 0x6C || b[2] != 0x63 || b[3]
        != 0x2D {
        proof {
            if 8 <= b@.len() {
                if b@.take(4) == seq![0x6Du8, 0x6Cu8, 0x63u8, 0x2Du8] {
                    assert(b@.take(4)[0] == b@[0]);
                    assert(b@.take(4)[1] == b@[1]);
                    assert(b@.take(4)[2] == b@[2]);
                    assert(b@.take(4)[3] == b@[3]);
                }
            }
        }
        return Err(RecordError::InvalidOperationId);
    }
    proof {
        assert(b@.take(4) =~= seq![0x6Du8, 0x6Cu8, 0x63u8, 0x2Du8]);
    }
    let mut i: usize = 0;
    while i < b.len()
        invariant
            i <= b@.len(),
            b@ == encode_utf8(id@),
            forall|k: int| 0 <= k < i ==> is_id_byte(#[trigger] b@[k]),
        decreases b.len() - i,
    {
        let c = b[i];
        if !((0x30 <= c && c <= 0x39) || (0x41 <= c && c <= 0x5A) || (0x61 <= c && c <= 0x7A)
            || c == 0x2D) {
            proof {
                assert(!is_id_byte(b@[i as int]));
            }
            return Err(RecordError::InvalidOperationId);
        }
        i += 1;
    }
    Ok(())
}

/// The verdict on a recorded store set from index `i` on: each id must name
/// a store canonically and be strictly greater than the one before; an empty
/// set is refused.
pub open spec fn store_ids_from(ids: Seq<Seq<char>>, i: int) -> Result<(), RecordError>
    decreases ids.len() - i,
{
    if i < 0 || i >= ids.len() {
        if ids.len() == 0 {
            Err(RecordError::EmptyStores)
        } else {
            Ok(())
        }
    } else {
        match parse_store(ids[i]) {
            None => Err(RecordError::UnknownStore),
            Some(s) => if store_id(s) != ids[i] || (i > 0 && !lex_lt(ids[i - 1], ids[i])) {
                Err(RecordError::NonCanonicalStores)
            } else {
                store_ids_from(ids, i + 1)
            },
        }
    }
}

/// The verdict on a recorded store set.
pub open spec fn store_ids_check(ids: Seq<Seq<char>>) -> Result<(), RecordError> {
    store_ids_from(ids, 0)
}

/// The character views of a list of strings.
pub open spec fn string_views(v: Seq<String>) -> Seq<Seq<char>> {
    v.map_values(|s: String| s@)
}

/// Check a recorded store set: canonical ids, strictly ascending, not empty.
pub fn validate_store_ids(stores: &[String]) -> (r: Result<(), RecordError>)
    ensures
        r == store_ids_check(string_views(stores@)),
{
    let ghost ids = string_views(stores@);
    let mut previous: Option<Vec<char>> = None;
    let mut i: usize = 0;
    while i < stores.len()
        invariant
            i <= stores@.len(),
            ids == string_views(stores@),
            store_ids_check(ids) == store_ids_from(ids, i as int),
            i > 0 ==> (previous matches Some(p) && p@ == ids[i - 1]),
            i == 0 ==> previous is None,
        decreases stores.len() - i,
    {
        let id = stores[i].as_str();
        proof {
            assert(ids[i as int] == id@);
        }
        let store = match MemoryStore::parse(id) {
            None => {
                return Err(RecordError::UnknownStore);
            },
            Some(s) => s,
        };
        let cs = chars_of(id);
        let canonical = crate::text::chars_eq_str(cs.as_slice(), store.id());
        let ordered = match &previous {
            None => true,
            Some(p) => lex_less(p.as_slice(), cs.as_slice()),
        };
        if !canonical || !ordered {
            return Err(RecordError::NonCanonicalStores);
        }
        previous = Some(cs);
        i += 1;
    }
    if stores.len() == 0 {
        return Err(RecordError::EmptyStores);
    }
    Ok(())
}

/// The ids of `stores`, ordered and without repeats.
pub open spec fn sorted_store_ids(stores: Seq<MemoryStore>) -> Seq<Seq<char>>
    decreases stores.len(),
{
    if stores.len() == 0 {
        seq![]
    } else {
        insert_sorted(sorted_store_ids(stores.drop_last()), store_id(stores.last()))
    }
}

/// The store set a lifecycle operation records: the stores' ids, ordered and
/// without repeats. Selecting no store is refused.
pub fn validate_stores(stores: &[MemoryStore]) -> (r: Result<Vec<String>, RecordError>)
    ensures
        stores@.len() == 0 ==> r == Err::<Vec<String>, RecordError>(RecordError::NoStoresSelected),
        stores@.len() > 0 ==> (r matches Ok(ids) && string_views(ids@) == sorted_store_ids(stores@)),
{
    let mut ids: Vec<Vec<char>> = Vec::new();
    let mut i: usize = 0;
    proof {
        assert(views(ids@) =~= sorted_store_ids(stores@.take(0)));
    }
    while i < stores.len()
        invariant
            i <= stores@.len(),
            views(ids@) == sorted_store_ids(stores@.take(i as int)),
        decreases stores.len() - i,
    {
        let id = chars_of(stores[i].id());
        let ghost before = views(ids@);
        insert_sorted_chars(&mut ids, id);
        proof {
            assert(stores@.take(i + 1).drop_last() =~= stores@.take(i as int));
            assert(views(ids@) == ids@.map_values(|v: Vec<char>| v@));
        }
        i += 1;
    }
    proof {
        assert(stores@.take(stores@.len() as int) =~= stores@);
    }
    if ids.len() == 0 {
        proof {
            if stores@.len() > 0 {
                lemma_insert_sorted_nonempty(sorted_store_ids(stores@.drop_last()), store_id(stores@.last()));
            }
        }
        return Err(RecordError::NoStoresSelected);
    }
    let mut out: Vec<String> = Vec::new();
    let mut k: usize = 0;
    while k < ids.len()
        invariant
            k <= ids@.len(),
            string_views(out@) == views(ids@).take(k as int),
        decreases ids.len() - k,
    {
        let s = string_of(ids[k].as_slice());
        let ghost prev = string_views(out@);
        out.push(s);
        proof {
            assert(string_views(out@) =~= prev.push(ids@[k as int]@));
            assert(views(ids@).take(k + 1) =~= views(ids@).take(k as int).push(ids@[k as int]@));
        }
        k += 1;
    }
    proof {
        assert(views(ids@).take(ids@.len() as int) =~= views(ids@));
    }
    Ok(out)
}

proof fn lemma_insert_sorted_nonempty(ds: Seq<Seq<char>>, d: Seq<char>)
    ensures
        insert_sorted(ds, d).len() > 0,
    decreases ds.len(),
{
    if ds.len() > 0 && ds[0] != d && !lex_lt(d, ds[0]) {
        lemma_insert_sorted_nonempty(ds.drop_first(), d);
    }
}

// ---------------------------------------------------------------------------
// Records
// ---------------------------------------------------------------------------

/// The verdict on a tombstone marker.
pub open spec fn tombstone_check(r: TombstoneRecord) -> Result<(), RecordError> {
    if r.version != RECORD_VERSION || r.physically_deleted {
        Err(RecordError::Unsupported)
    } else if !valid_operation_id(encode_utf8(r.id@)) {
        Err(RecordError::InvalidOperationId)
    } else {
        store_ids_check(string_views(r.stores@))
    }
}

/// The verdict on a deletion audit.
pub open spec fn deletion_audit_check(r: DeletionAuditRecord) -> Result<(), RecordError> {
    if r.version != RECORD_VERSION || r.physically_deleted || r.id@ != r.tombstone_id@ {
        Err(RecordError::Unsupported)
    } else if !valid_operation_id(encode_utf8(r.id@)) {
        Err(RecordError::InvalidOperationId)
    } else {
        store_ids_check(string_views(r.stores@))
    }
}

/// Whether a follow-up action record claims an unlink exactly when it is a
/// committed logical purge.
pub open spec fn unlink_claim_consistent(r: TombstoneActionRecord) -> bool {
    r.logically_unlinked == (r.state == AuditState::Committed && r.action
        == TombstoneAction::LogicalPurge)
}

/// The verdict on a follow-up action record.
pub open spec fn tombstone_action_check(r: TombstoneActionRecord) -> Result<(), RecordError> {
    if r.version != RECORD_VERSION || r.physically_deleted || !unlink_claim_consistent(r) {
        Err(RecordError::Unsupported)
    } else if !valid_operation_id(encode_utf8(r.id@)) || !valid_operation_id(
        encode_utf8(r.tombstone_id@),
    ) {
        Err(RecordError::InvalidOperationId)
    } else {
        store_ids_check(string_views(r.stores@))
    }
}

/// Check a tombstone marker read back from disk.
pub fn check_tombstone(r: &TombstoneRecord) -> (v: Result<(), RecordError>)
    ensures
        v == tombstone_check(*r),
{
    if r.version != RECORD_VERSION || r.physically_deleted {
        return Err(RecordError::Unsupported);
    }
    validate_operation_id(r.id.as_str())?;
    validate_store_ids(r.stores.as_slice())
}

/// Check a deletion audit read back from disk.
pub fn check_deletion_audit(r: &DeletionAuditRecord) -> (v: Result<(), RecordError>)
    ensures
        v == deletion_audit_check(*r),
{
    if r.version != RECORD_VERSION || r.physically_deleted || r.id != r.tombstone_id {
        return Err(RecordError::Unsupported);
    }
    validate_operation_id(r.id.as_str())?;
    validate_store_ids(r.stores.as_slice())
}

/// Check a follow-up action record read back from disk.
pub fn check_tombstone_action(r: &TombstoneActionRecord) -> (v: Result<(), RecordError>)
    ensures
        v == tombstone_action_check(*r),
{
    let expected_unlinked = r.state == AuditState::Committed && r.action
        == TombstoneAction::LogicalPurge;
    if r.version != RECORD_VERSION || r.physically_deleted || r.logically_unlinked
        != expected_unlinked {
        return Err(RecordError::Unsupported);
    }
    validate_operation_id(r.id.as_str())?;
    validate_operation_id(r.tombstone_id.as_str())?;
    validate_store_ids(r.stores.as_slice())
}

/// The marker a committed soft deletion publishes.
pub fn tombstone_record(
    id: &String,
    scope: LifecycleScope,
    stores: &Vec<String>,
    operation: LifecycleOperation,
    created_at_ms: u64,
    files: usize,
    bytes: u64,
) -> (r: TombstoneRecord)
    ensures
        r.version == RECORD_VERSION,
        r.id@ == id@,
        r.scope == scope,
        string_views(r.stores@) == string_views(stores@),
        r.operation == operation,
        r.created_at_ms == created_at_ms,
        r.files == files,
        r.bytes == bytes,
        !r.physically_deleted,
{
    TombstoneRecord {
        version: RECORD_VERSION,
        id: id.clone(),
        scope,
        stores: clone_strings(stores),
        operation,
        created_at_ms,
        files,
        bytes,
        physically_deleted: false,
    }
}

/// The audit a soft deletion writes, `prepared` until publication succeeds.
pub fn deletion_audit_record(
    id: &String,
    scope: LifecycleScope,
    stores: &Vec<String>,
    operation: LifecycleOperation,
    state: AuditState,
    created_at_ms: u64,
    files: usize,
    bytes: u64,
) -> (r: DeletionAuditRecord)
    ensures
        r.version == RECORD_VERSION,
        r.id@ == id@,
        r.tombstone_id@ == id@,
        r.scope == scope,
        string_views(r.stores@) == string_views(stores@),
        r.operation == operation,
        r.state == state,
        r.created_at_ms == created_at_ms,
        r.files == files,
        r.bytes == bytes,
        !r.physically_deleted,
{
    DeletionAuditRecord {
        version: RECORD_VERSION,
        id: id.clone(),
        tombstone_id: id.clone(),
        scope,
        stores: clone_strings(stores),
        operation,
        state,
        created_at_ms,
        files,
        bytes,
        physically_deleted: false,
    }
}

/// The record of a follow-up action on a tombstone: an unlink is claimed
/// only by a committed logical purge, and physical deletion never.
pub fn tombstone_action_record(
    action_id: &String,
    tombstone: &TombstoneRecord,
    action: TombstoneAction,
    state: AuditState,
    created_at_ms: u64,
    files: usize,
    bytes: u64,
) -> (r: TombstoneActionRecord)
    ensures
        r.version == RECORD_VERSION,
        r.id@ == action_id@,
        r.tombstone_id@ == tombstone.id@,
        r.scope == tombstone.scope,
        string_views(r.stores@) == string_views(tombstone.stores@),
        r.action == action,
        r.state == state,
        r.created_at_ms == created_at_ms,
        r.files == files,
        r.bytes == bytes,
        r.logically_unlinked == (state == AuditState::Committed && action
            == TombstoneAction::LogicalPurge),
        !r.physically_deleted,
{
    TombstoneActionRecord {
        version: RECORD_VERSION,
        id: action_id.clone(),
        tombstone_id: tombstone.id.clone(),
        scope: tombstone.scope,
        stores: clone_strings(&tombstone.stores),
        action,
        state,
        created_at_ms,
        files,
        bytes,
        logically_unlinked: state == AuditState::Committed && action
            == TombstoneAction::LogicalPurge,
        physically_deleted: false,
    }
}

fn clone_strings(v: &Vec<String>) -> (r: Vec<String>)
    ensures
        string_views(r@) == string_views(v@),
{
    let mut r: Vec<String> = Vec::new();
    let mut i: usize = 0;
    while i < v.len()
        invariant
            i <= v@.len(),
            string_views(r@) == string_views(v@).take(i as int),
        decreases v.len() - i,
    {
        let c = v[i].clone();
        let ghost prev = string_views(r@);
        r.push(c);
        proof {
            assert(string_views(r@) =~= prev.push(v@[i as int]@));
            assert(string_views(v@).take(i + 1) =~= string_views(v@).take(i as int).push(v@[i as int]@));
        }
        i += 1;
    }
    proof {
        assert(string_views(v@).take(v@.len() as int) =~= string_views(v@));
    }
    r
}

// ---------------------------------------------------------------------------
// Laws
// ---------------------------------------------------------------------------

proof fn lemma_sorted_store_ids_shape(stores: Seq<MemoryStore>)
    ensures
        strictly_ascending(sorted_store_ids(stores)),
        forall|i: int|
            0 <= i < sorted_store_ids(stores).len() ==> exists|s: MemoryStore|
                store_id(s) == #[trigger] sorted_store_ids(stores)[i],
        stores.len() > 0 ==> sorted_store_ids(stores).len() > 0,
    decreases stores.len(),
{
    if stores.len() > 0 {
        let prev = sorted_store_ids(stores.drop_last());
        lemma_sorted_store_ids_shape(stores.drop_last());
        let d = store_id(stores.last());
        lemma_insert_sorted_shape(prev, d);
        let r = sorted_store_ids(stores);
        assert forall|i: int| 0 <= i < r.len() implies exists|s: MemoryStore|
            store_id(s) == #[trigger] r[i] by {
            if r[i] == d {
                assert(store_id(stores.last()) == r[i]);
            } else {
                let q = choose|q: int| 0 <= q < prev.len() && prev[q] == r[i];
                assert(exists|s: MemoryStore| store_id(s) == prev[q]);
            }
        }
    }
}

proof fn lemma_ascending_ids_accepted(ids: Seq<Seq<char>>, i: int)
    requires
        0 <= i <= ids.len(),
        ids.len() > 0,
        strictly_ascending(ids),
        forall|j: int| 0 <= j < ids.len() ==> exists|s: MemoryStore| store_id(s) == #[trigger] ids[j],
    ensures
        store_ids_from(ids, i) == Ok::<(), RecordError>(()),
    decreases ids.len() - i,
{
    if i < ids.len() {
        lemma_ascending_ids_accepted(ids, i + 1);
        let s = choose|s: MemoryStore| store_id(s) == ids[i];
        lemma_parse_store_id(s);
        if i > 0 {
            assert(lex_lt(ids[i - 1], ids[(i - 1) + 1]));
        }
    }
}

/// Every store set a lifecycle operation records (see [`validate_stores`])
/// passes the check applied when a record is read back.
pub proof fn law_recorded_store_set_is_accepted(stores: Seq<MemoryStore>)
    requires
        stores.len() > 0,
    ensures
        store_ids_check(sorted_store_ids(stores)) == Ok::<(), RecordError>(()),
        strictly_ascending(sorted_store_ids(stores)),
{
    lemma_sorted_store_ids_shape(stores);
    lemma_ascending_ids_accepted(sorted_store_ids(stores), 0);
}

/// What a committed soft deletion writes is what a read accepts: a marker
/// and an audit built for an opaque identifier and a recorded store set pass
/// their checks.
pub proof fn law_written_records_are_accepted(
    t: TombstoneRecord,
    a: DeletionAuditRecord,
    selected: Seq<MemoryStore>,
)
    requires
        selected.len() > 0,
        valid_operation_id(encode_utf8(t.id@)),
        t.version == RECORD_VERSION,
        !t.physically_deleted,
        string_views(t.stores@) == sorted_store_ids(selected),
        a.version == RECORD_VERSION,
        !a.physically_deleted,
        a.id@ == t.id@,
        a.tombstone_id@ == t.id@,
        string_views(a.stores@) == sorted_store_ids(selected),
    ensures
        tombstone_check(t) == Ok::<(), RecordError>(()),
        deletion_audit_check(a) == Ok::<(), RecordError>(()),
{
    law_recorded_store_set_is_accepted(selected);
}

/// A follow-up record built for an accepted tombstone and an opaque action
/// identifier is accepted when read back, in either state and for either
/// action.
pub proof fn law_action_record_is_accepted(t: TombstoneRecord, r: TombstoneActionRecord)
    requires
        tombstone_check(t) == Ok::<(), RecordError>(()),
        valid_operation_id(encode_utf8(r.id@)),
        r.version == RECORD_VERSION,
        r.tombstone_id@ == t.id@,
        string_views(r.stores@) == string_views(t.stores@),
        r.logically_unlinked == (r.state == AuditState::Committed && r.action
            == TombstoneAction::LogicalPurge),
        !r.physically_deleted,
    ensures
        tombstone_action_check(r) == Ok::<(), RecordError>(()),
{
}

// ---------------------------------------------------------------------------
// Follow-up actions
// ---------------------------------------------------------------------------

/// The verdict on the marker found for a requested follow-up action: the
/// requested identifier must be opaque, the marker must pass its checks, and
/// it must carry the requested identifier and scope.
pub open spec fn requested_tombstone_check(
    r: TombstoneRecord,
    tombstone_id: Seq<char>,
    scope: LifecycleScope,
) -> Result<(), RecordError> {
    if !valid_operation_id(encode_utf8(tombstone_id)) {
        Err(RecordError::InvalidOperationId)
    } else {
        match tombstone_check(r) {
            Err(e) => Err(e),
            Ok(()) => if r.id@ != tombstone_id || r.scope != scope {
                Err(RecordError::IdentityMismatch)
            } else {
                Ok(())
            },
        }
    }
}

/// Check the marker found for a requested follow-up action.
pub fn check_requested_tombstone(r: &TombstoneRecord, tombstone_id: &str, scope: LifecycleScope) -> (v:
    Result<(), RecordError>)
    ensures
        v == requested_tombstone_check(*r, tombstone_id@, scope),
{
    validate_operation_id(tombstone_id)?;
    check_tombstone(r)?;
    if !crate::text::chars_eq_str(chars_of(r.id.as_str()).as_slice(), tombstone_id) || r.scope
        != scope {
        return Err(RecordError::IdentityMismatch);
    }
    Ok(())
}

/// Why a step of a follow-up action is refused.
#[derive(Debug, Clone, Copy, PartialEq, Eq, Structural)]
pub enum ActionStepError {
    /// The action was already prepared (or committed).
    AlreadyPrepared,
    /// The payload no longer matches the marker's counts.
    PayloadChanged,
    /// Commit without exactly one earlier prepare.
    NotPrepared,
}

/// Where a follow-up action stands: it is prepared exactly once, then
/// committed exactly once.
#[derive(Debug, Clone, Copy, PartialEq, Eq, Structural)]
pub struct ActionProgress {
    pub prepared: bool,
    pub committed: bool,
}

impl ActionProgress {
    /// Nothing done yet.
    pub fn new() -> (p: Self)
        ensures
            !p.prepared,
            !p.committed,
    {
        ActionProgress { prepared: false, committed: false }
    }

    /// May the action be prepared with these payload counts? Only once, and
    /// only while the payload still matches the marker.
    pub fn check_prepare(&self, files: usize, bytes: u64, marker_files: usize, marker_bytes: u64) -> (r:
        Result<(), ActionStepError>)
        ensures
            r == if self.check_prepare_spec() is Err {
                self.check_prepare_spec()
            } else if files != marker_files || bytes != marker_bytes {
                Err(ActionStepError::PayloadChanged)
            } else {
                Ok(())
            },
    {
        if self.prepared || self.committed {
            Err(ActionStepError::AlreadyPrepared)
        } else if files != marker_files || bytes != marker_bytes {
            Err(ActionStepError::PayloadChanged)
        } else {
            Ok(())
        }
    }

    /// Record that the prepared audit was written.
    pub fn mark_prepared(&mut self)
        ensures
            final(self).prepared,
            final(self).committed == old(self).committed,
    {
        self.prepared = true;
    }

    /// May the action be committed? Only after a prepare, and only once.
    pub fn check_commit(&self) -> (r: Result<(), ActionStepError>)
        ensures
            r == self.check_commit_spec(),
    {
        if !self.prepared || self.committed {
            Err(ActionStepError::NotPrepared)
        } else {
            Ok(())
        }
    }

    /// Record that the terminal disposition was published.
    pub fn mark_committed(&mut self)
        ensures
            final(self).committed,
            final(self).prepared == old(self).prepared,
    {
        self.committed = true;
    }
}

/// A follow-up action commits only after exactly one prepare: a fresh action
/// cannot commit, a prepared one cannot prepare again, and a committed one
/// can do neither.
pub proof fn law_prepare_once_then_commit_once(p: ActionProgress)
    ensures
        !p.prepared && !p.committed ==> p.check_commit_spec() is Err,
        p.prepared ==> p.check_prepare_spec() is Err,
        p.committed ==> p.check_prepare_spec() is Err && p.check_commit_spec() is Err,
{
}

impl ActionProgress {
    /// What [`ActionProgress::check_prepare`] answers before it looks at the
    /// payload counts.
    pub open spec fn check_prepare_spec(self) -> Result<(), ActionStepError> {
        if self.prepared || self.committed {
            Err(ActionStepError::AlreadyPrepared)
        } else {
            Ok(())
        }
    }

    /// What [`ActionProgress::check_commit`] answers.
    pub open spec fn check_commit_spec(self) -> Result<(), ActionStepError> {
        if !self.prepared || self.committed {
            Err(ActionStepError::NotPrepared)
        } else {
            Ok(())
        }
    }
}

/// Why a soft-deletion transaction refuses a step.
#[derive(Debug, Clone, Copy, PartialEq, Eq, Structural)]
pub enum TransactionStepError {
    /// The transaction was committed already (an `AlreadyExists` error).
    AlreadyCommitted,
    /// A committed transaction cannot be aborted (an `InvalidInput` error).
    CommittedCannotAbort,
}

/// Where a soft-deletion transaction stands: it publishes its tombstone at
/// most once, and once published it can no longer be aborted.
#[derive(Debug, Clone, Copy, PartialEq, Eq, Structural)]
pub struct TransactionProgress {
    pub committed: bool,
}

impl TransactionProgress {
    /// A transaction that has published nothing yet.
    pub fn new() -> (p: Self)
        ensures
            !p.committed,
    {
        TransactionProgress { committed: false }
    }

    /// What [`TransactionProgress::check_commit`] answers.
    pub open spec fn check_commit_spec(self) -> Result<(), TransactionStepError> {
        if self.committed {
            Err(TransactionStepError::AlreadyCommitted)
        } else {
            Ok(())
        }
    }

    /// What [`TransactionProgress::check_abort`] answers.
    pub open spec fn check_abort_spec(self) -> Result<(), TransactionStepError> {
        if self.committed {
            Err(TransactionStepError::CommittedCannotAbort)
        } else {
            Ok(())
        }
    }

    /// May the tombstone be published? Only once.
    pub fn check_commit(&self) -> (r: Result<(), TransactionStepError>)
        ensures
            r == self.check_commit_spec(),
    {
        if self.committed {
            Err(TransactionStepError::AlreadyCommitted)
        } else {
            Ok(())
        }
    }

    /// Record that the tombstone was published (the pending directory was
    /// renamed into place).
    pub fn mark_committed(&mut self)
        ensures
            final(self).committed,
    {
        self.committed = true;
    }

    /// May the transaction's metadata be removed? Only while nothing was
    /// published.
    pub fn check_abort(&self) -> (r: Result<(), TransactionStepError>)
        ensures
            r == self.check_abort_spec(),
    {
        if self.committed {
            Err(TransactionStepError::CommittedCannotAbort)
        } else {
            Ok(())
        }
    }
}

/// A transaction commits at most once: a fresh one may commit or abort, and
/// after its commit a second commit and any abort are refused.
pub proof fn law_commit_once_then_never_abort(p: TransactionProgress)
    ensures
        !p.committed ==> p.check_commit_spec() is Ok && p.check_abort_spec() is Ok,
        ({
            let done = TransactionProgress { committed: true };
            &&& done.check_commit_spec() == Err::<(), TransactionStepError>(TransactionStepError::AlreadyCommitted)
            &&& done.check_abort_spec() == Err::<(), TransactionStepError>(TransactionStepError::CommittedCannotAbort)
        }),
{
}

/// A tombstone marker as read back, once it has passed its checks.
pub fn read_tombstone(parsed: TombstoneRecord) -> (r: Result<TombstoneRecord, RecordError>)
    ensures
        match tombstone_check(parsed) {
            Ok(()) => r matches Ok(t) && t == parsed,
            Err(e) => r matches Err(x) && x == e,
        },
{
    match check_tombstone(&parsed) {
        Ok(()) => Ok(parsed),
        Err(e) => Err(e),
    }
}

/// A deletion audit as read back, once it has passed its checks.
pub fn read_deletion_audit(parsed: DeletionAuditRecord) -> (r: Result<DeletionAuditRecord, RecordError>)
    ensures
        match deletion_audit_check(parsed) {
            Ok(()) => r matches Ok(t) && t == parsed,
            Err(e) => r matches Err(x) && x == e,
        },
{
    match check_deletion_audit(&parsed) {
        Ok(()) => Ok(parsed),
        Err(e) => Err(e),
    }
}

/// A follow-up action record as read back, once it has passed its checks.
pub fn read_tombstone_action(parsed: TombstoneActionRecord) -> (r: Result<
    TombstoneActionRecord,
    RecordError,
>)
    ensures
        match tombstone_action_check(parsed) {
            Ok(()) => r matches Ok(t) && t == parsed,
            Err(e) => r matches Err(x) && x == e,
        },
{
    match check_tombstone_action(&parsed) {
        Ok(()) => Ok(parsed),
        Err(e) => Err(e),
    }
}

/// The identifier of a lifecycle operation: `mlc-`, then the time in
/// nanoseconds, the process id and a per-process sequence number, each in
/// lower-case hexadecimal, joined by `-`.
pub open spec fn operation_id_spec(nanos: u128, pid: u32, seq_no: u64) -> Seq<char> {
    seq!['m', 'l', 'c', '-'] + hex(nanos as nat) + seq!['-'] + hex(pid as nat) + seq!['-'] + hex(
        seq_no as nat,
    )
}

/// Make a lifecycle operation identifier.
pub fn operation_id(nanos: u128, pid: u32, seq_no: u64) -> (r: String)
    ensures
        r@ == operation_id_spec(nanos, pid, seq_no),
{
    let mut out: Vec<char> = Vec::new();
    out.push('m');
    out.push('l');
    out.push('c');
    out.push('-');
    append_chars(&mut out, hex_chars(nanos).as_slice());
    out.push('-');
    append_chars(&mut out, hex_chars(pid as u128).as_slice());
    out.push('-');
    append_chars(&mut out, hex_chars(seq_no as u128).as_slice());
    proof {
        assert(out@ =~= operation_id_spec(nanos, pid, seq_no));
    }
    string_of(out.as_slice())
}

/// Every identifier this library makes is one its own validator accepts,
/// so a transaction never starts under a name it would later refuse.
pub proof fn law_generated_ids_are_valid(nanos: u128, pid: u32, seq_no: u64)
    ensures
        valid_operation_id(encode_utf8(operation_id_spec(nanos, pid, seq_no))),
{
    let a = hex(nanos as nat);
    let b = hex(pid as nat);
    let c = hex(seq_no as nat);
    lemma_hex_digits(nanos as nat);
    lemma_hex_digits(pid as nat);
    lemma_hex_digits(seq_no as nat);
    assert(pow16(8) == 0x1_0000_0000) by {
        reveal_with_fuel(pow16, 9);
    }
    assert(pow16(16) == 0x1_0000_0000_0000_0000) by {
        reveal_with_fuel(pow16, 17);
    }
    assert(pow16(32) == 0x1_0000_0000_0000_0000_0000_0000_0000_0000) by {
        reveal_with_fuel(pow16, 33);
    }
    lemma_hex_len(nanos as nat, 32);
    lemma_hex_len(pid as nat, 8);
    lemma_hex_len(seq_no as nat, 16);
    let id = operation_id_spec(nanos, pid, seq_no);
    let pre = seq!['m', 'l', 'c', '-'];
    assert forall|i: int| 0 <= i < id.len() implies {
        let u = #[trigger] id[i] as u32;
        (48 <= u <= 57) || (97 <= u <= 122) || u == 45
    } by {
        if i < 4 {
            assert(id[i] == pre[i]);
        } else if i < 4 + a.len() {
            assert(id[i] == a[i - 4]);
        } else if i == 4 + a.len() {
            assert(id[i] == '-');
        } else if i < 5 + a.len() + b.len() {
            assert(id[i] == b[i - 5 - a.len()]);
        } else if i == 5 + a.len() + b.len() {
            assert(id[i] == '-');
        } else {
            assert(id[i] == c[i - 6 - a.len() - b.len()]);
        }
    }
    assert forall|i: int| 0 <= i < id.len() implies (#[trigger] id[i] as u32) <= 0x7F by {
        let u = id[i] as u32;
        assert((48 <= u <= 57) || (97 <= u <= 122) || u == 45);
    }
    lemma_ascii_encode(id);
    let e = encode_utf8(id);
    assert forall|i: int| 0 <= i < e.len() implies is_id_byte(#[trigger] e[i]) by {
        assert(e[i] == (id[i] as u32) as u8);
        let u = id[i] as u32;
        assert((48 <= u <= 57) || (97 <= u <= 122) || u == 45);
    }
    assert(e.take(4) =~= seq![0x6Du8, 0x6Cu8, 0x63u8, 0x2Du8]) by {
        assert(id[0] == 'm' && id[1] == 'l' && id[2] == 'c' && id[3] == '-');
        assert(e[0] == (id[0] as u32) as u8);
        assert(e[1] == (id[1] as u32) as u8);
        assert(e[2] == (id[2] as u32) as u8);
        assert(e[3] == (id[3] as u32) as u8);
    }
}

/// The UTF-8 encoding of ASCII characters is their codes, one byte each.
proof fn lemma_ascii_encode(chars: Seq<char>)
    requires
        forall|i: int| 0 <= i < chars.len() ==> (#[trigger] chars[i] as u32) <= 0x7F,
    ensures
        encode_utf8(chars).len() == chars.len(),
        forall|i: int| 0 <= i < chars.len() ==> #[trigger] encode_utf8(chars)[i] == (chars[i] as u32) as u8,
    decreases chars.len(),
{
    if chars.len() > 0 {
        let t = chars.drop_first();
        assert forall|i: int| 0 <= i < t.len() implies (#[trigger] t[i] as u32) <= 0x7F by {
            assert(t[i] == chars[i + 1]);
        }
        lemma_ascii_encode(t);
        let c0 = chars[0] as u32;
        assert(c0 <= 0x7F);
        assert((c0 & 0x7F) as u8 == c0 as u8) by (bit_vector)
            requires
                c0 <= 0x7F,
        ;
        let e = encode_utf8(chars);
        assert(vstd::utf8::encode_scalar(c0) == seq![(c0 & 0x7F) as u8]);
        assert(e == seq![(c0 & 0x7F) as u8] + encode_utf8(t));
        assert forall|i: int| 0 <= i < chars.len() implies #[trigger] e[i] == (chars[i] as u32) as u8 by {
            if i > 0 {
                assert(e[i] == encode_utf8(t)[i - 1]);
                assert(t[i - 1] == chars[i]);
            }
        }
    }
}

} // verus!
