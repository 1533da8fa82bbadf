use umadev::lifecycle::{TransactionProgress, TransactionStepError};
use umadev::lifecycle::{
    check_deletion_audit, check_requested_tombstone, check_tombstone, check_tombstone_action,
    deletion_audit_record, tombstone_action_record, tombstone_record, validate_operation_id,
    validate_store_ids, validate_stores, ActionProgress, ActionStepError, AuditState,
    DeletionAuditRecord, LifecycleOperation, LifecycleScope, RecordError, TombstoneAction,
};
use umadev::memory::MemoryStore;

fn ids(values: &[&str]) -> Vec<String> {
    values.iter().map(|value| value.to_string()).collect()
}

#[test]
fn tombstone_identity_tampering_is_rejected() {
    let stores = validate_stores(&[MemoryStore::Facts]).unwrap();
    let id = "mlc-18f2a-3e8-0".to_string();
    let mut marker = tombstone_record(
        &id,
        LifecycleScope::Project,
        &stores,
        LifecycleOperation::Forget,
        1,
        1,
        1,
    );
    assert_eq!(
        check_requested_tombstone(&marker, &id, LifecycleScope::Project),
        Ok(())
    );
    marker.id = "mlc-tampered".to_string();
    assert_eq!(
        check_requested_tombstone(&marker, &id, LifecycleScope::Project),
        Err(RecordError::IdentityMismatch)
    );
    marker.id = id.clone();
    assert_eq!(
        check_requested_tombstone(&marker, &id, LifecycleScope::Global),
        Err(RecordError::IdentityMismatch)
    );
}

#[test]
fn tampered_lifecycle_audit_identity_and_store_sets_are_rejected() {
    let valid = DeletionAuditRecord {
        version: 1,
        id: "mlc-audit01".to_string(),
        tombstone_id: "mlc-audit01".to_string(),
        scope: LifecycleScope::Project,
        stores: vec![MemoryStore::Facts.id().to_string()],
        operation: LifecycleOperation::Forget,
        state: AuditState::Committed,
        created_at_ms: 1,
        files: 1,
        bytes: 1,
        physically_deleted: false,
    };
    assert_eq!(check_deletion_audit(&valid), Ok(()));

    let mut mismatched = valid.clone();
    mismatched.tombstone_id = "mlc-other01".to_string();
    assert_eq!(
        check_deletion_audit(&mismatched),
        Err(RecordError::Unsupported)
    );

    let mut aliased = valid;
    aliased.stores = vec!["FACTS".to_string()];
    assert_eq!(
        check_deletion_audit(&aliased),
        Err(RecordError::NonCanonicalStores)
    );
}

#[test]
fn operation_ids_are_opaque_and_bounded() {
    assert_eq!(validate_operation_id("mlc-0123"), Ok(()));
    assert_eq!(validate_operation_id("mlc-abc"), Err(RecordError::InvalidOperationId));
    assert_eq!(validate_operation_id("xlc-01234"), Err(RecordError::InvalidOperationId));
    assert_eq!(validate_operation_id("mlc-01/34"), Err(RecordError::InvalidOperationId));
    assert_eq!(validate_operation_id("mlc-é1234"), Err(RecordError::InvalidOperationId));
    let long = format!("mlc-{}", "a".repeat(125));
    assert_eq!(validate_operation_id(&long), Err(RecordError::InvalidOperationId));
    let longest = format!("mlc-{}", "a".repeat(124));
    assert_eq!(validate_operation_id(&longest), Ok(()));
}

#[test]
fn store_sets_must_be_canonical_sorted_and_unique() {
    assert_eq!(validate_store_ids(&ids(&["beliefs", "facts"])), Ok(()));
    assert_eq!(
        validate_store_ids(&ids(&["facts", "beliefs"])),
        Err(RecordError::NonCanonicalStores)
    );
    assert_eq!(
        validate_store_ids(&ids(&["facts", "facts"])),
        Err(RecordError::NonCanonicalStores)
    );
    assert_eq!(
        validate_store_ids(&ids(&["facts", "nope"])),
        Err(RecordError::UnknownStore)
    );
    assert_eq!(validate_store_ids(&[]), Err(RecordError::EmptyStores));
}

#[test]
fn selected_stores_are_recorded_sorted_without_repeats() {
    let recorded = validate_stores(&[
        MemoryStore::RunNotes,
        MemoryStore::Facts,
        MemoryStore::RunNotes,
        MemoryStore::Beliefs,
    ])
    .unwrap();
    assert_eq!(recorded, ["beliefs", "facts", "run-notes"]);
    assert_eq!(validate_store_ids(&recorded), Ok(()));
    assert_eq!(validate_stores(&[]), Err(RecordError::NoStoresSelected));
}

#[test]
fn written_records_are_accepted_when_read_back() {
    let stores = validate_stores(&[MemoryStore::Pitfalls, MemoryStore::Facts]).unwrap();
    let id = "mlc-1-2-3abc".to_string();
    let marker = tombstone_record(
        &id,
        LifecycleScope::Global,
        &stores,
        LifecycleOperation::Retention,
        7,
        2,
        10,
    );
    assert_eq!(check_tombstone(&marker), Ok(()));
    let audit = deletion_audit_record(
        &id,
        LifecycleScope::Global,
        &stores,
        LifecycleOperation::Retention,
        AuditState::Prepared,
        7,
        2,
        10,
    );
    assert_eq!(check_deletion_audit(&audit), Ok(()));
    let action_id = "mlc-9-9-9".to_string();
    for state in [AuditState::Prepared, AuditState::Committed] {
        for action in [TombstoneAction::Restore, TombstoneAction::LogicalPurge] {
            let record = tombstone_action_record(&action_id, &marker, action, state, 8, 2, 10);
            assert_eq!(
                record.logically_unlinked,
                state == AuditState::Committed && action == TombstoneAction::LogicalPurge
            );
            assert!(!record.physically_deleted);
            assert_eq!(check_tombstone_action(&record), Ok(()));
        }
    }
    let mut deleted = marker.clone();
    deleted.physically_deleted = true;
    assert_eq!(check_tombstone(&deleted), Err(RecordError::Unsupported));
}

#[test]
fn follow_up_actions_prepare_once_then_commit_once() {
    let mut progress = ActionProgress::new();
    assert_eq!(progress.check_commit(), Err(ActionStepError::NotPrepared));
    assert_eq!(
        progress.check_prepare(2, 10, 2, 11),
        Err(ActionStepError::PayloadChanged)
    );
    assert_eq!(progress.check_prepare(2, 10, 2, 10), Ok(()));
    progress.mark_prepared();
    assert_eq!(
        progress.check_prepare(2, 10, 2, 10),
        Err(ActionStepError::AlreadyPrepared)
    );
    assert_eq!(progress.check_commit(), Ok(()));
    progress.mark_committed();
    assert_eq!(progress.check_commit(), Err(ActionStepError::NotPrepared));
}

use umadev::lifecycle::read_tombstone;

#[test]
fn read_markers_are_returned_only_when_they_pass() {
    let stores = validate_stores(&[MemoryStore::Facts]).unwrap();
    let id = "mlc-1-2-3".to_string();
    let marker = tombstone_record(&id, LifecycleScope::Project, &stores, LifecycleOperation::Forget, 1, 1, 1);
    assert_eq!(read_tombstone(marker.clone()).unwrap().id, id);
    let mut newer = marker;
    newer.version = 2;
    assert_eq!(read_tombstone(newer).unwrap_err(), RecordError::Unsupported);
}

#[test]
fn transaction_commits_once_and_then_cannot_abort() {
    let mut p = TransactionProgress::new();
    assert_eq!(p.check_commit(), Ok(()));
    assert_eq!(p.check_abort(), Ok(()));
    p.mark_committed();
    assert_eq!(p.check_commit(), Err(TransactionStepError::AlreadyCommitted));
    assert_eq!(p.check_abort(), Err(TransactionStepError::CommittedCannotAbort));
}
