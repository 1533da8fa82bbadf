use umadev::lock::lock_age_ms;
use umadev::lock_acquire::{
    reclaim_start, reclaim_step, start, step, AcquireState, LockAction, LockEvent, LockOutcome,
    LockPlan, Patience, ReclaimAction, ReclaimEvent, ReclaimState, LIFECYCLE_LOCK_ROUNDS,
    POLICY_LOCK_ROUNDS, STORE_LOCK_TIMEOUT_MS,
};

const STALE_AFTER_MS: u64 = 5 * 60 * 1_000;
const FUTURE_SKEW_MS: u64 = 60 * 1_000;

fn drive(plan: &LockPlan, events: &[(LockEvent, u64)]) -> (AcquireState, Vec<LockAction>) {
    let (mut state, first) = start(plan);
    let mut actions = vec![first];
    for (event, elapsed) in events {
        let (next, action) = step(plan, state, *event, *elapsed);
        state = next;
        actions.push(action);
    }
    (state, actions)
}

fn reclaim(stale_after_ms: u64, events: &[ReclaimEvent]) -> (ReclaimState, Vec<ReclaimAction>) {
    let (mut state, first) = reclaim_start();
    let mut actions = vec![first];
    for event in events {
        let (next, action) = reclaim_step(stale_after_ms, state, *event);
        state = next;
        actions.push(action);
    }
    (state, actions)
}

fn uncontended(plan: &LockPlan) -> Vec<(LockEvent, u64)> {
    let mut events = vec![
        (LockEvent::GuardHeld, 0),
        (LockEvent::DirCreated, 0),
        (LockEvent::OwnerWritten, 0),
    ];
    if plan.confirm_owner {
        events.push((LockEvent::OwnerIsOurs(true), 0));
    }
    events.push((LockEvent::LeaseHeld, 0));
    events.push((LockEvent::OwnerIsOurs(true), 0));
    events
}

#[test]
fn plans_match_each_lock() {
    assert_eq!(
        LockPlan::store(STORE_LOCK_TIMEOUT_MS),
        LockPlan {
            patience: Patience::Deadline(2000),
            confirm_owner: true,
            scrub_partial_owner: true
        }
    );
    assert_eq!(LockPlan::policy().patience, Patience::Rounds(POLICY_LOCK_ROUNDS));
    assert_eq!(LockPlan::lifecycle().patience, Patience::Rounds(LIFECYCLE_LOCK_ROUNDS));
    assert!(!LockPlan::policy().confirm_owner);
}

#[test]
fn uncontended_acquisition_follows_the_protocol() {
    let plan = LockPlan::store(STORE_LOCK_TIMEOUT_MS);
    let (state, actions) = drive(&plan, &uncontended(&plan));
    assert_eq!(state, AcquireState::Done(LockOutcome::Acquired));
    assert_eq!(
        actions,
        vec![
            LockAction::TryGuard,
            LockAction::CreateDir,
            LockAction::WriteOwner,
            LockAction::ReadOwner,
            LockAction::TakeLease,
            LockAction::ReadOwner,
            LockAction::Stop
        ]
    );

    let plan = LockPlan::policy();
    let (state, actions) = drive(&plan, &uncontended(&plan));
    assert_eq!(state, AcquireState::Done(LockOutcome::Acquired));
    assert_eq!(actions[3], LockAction::TakeLease);
}

#[test]
fn different_store_locks_do_not_block_each_other() {
    let plan = LockPlan::store(STORE_LOCK_TIMEOUT_MS);
    let (pitfalls, _) = drive(&plan, &uncontended(&plan));
    let (beliefs, _) = drive(&plan, &uncontended(&plan));
    assert_eq!(pitfalls, AcquireState::Done(LockOutcome::Acquired));
    assert_eq!(beliefs, AcquireState::Done(LockOutcome::Acquired));
}

#[test]
fn store_contender_gives_up_at_its_deadline() {
    let plan = LockPlan::store(STORE_LOCK_TIMEOUT_MS);
    let (state, actions) = drive(
        &plan,
        &[(LockEvent::GuardBusy, 10), (LockEvent::GuardBusy, 1999)],
    );
    assert_eq!(state, AcquireState::Guard { round: 0 });
    assert_eq!(actions[2], LockAction::WaitThenTryGuard);
    let (state, action) = step(&plan, state, LockEvent::GuardBusy, 2000);
    assert_eq!(state, AcquireState::Done(LockOutcome::Busy));
    assert_eq!(action, LockAction::Stop);

    let (state, actions) = drive(
        &plan,
        &[
            (LockEvent::GuardHeld, 0),
            (LockEvent::DirExists, 0),
            (LockEvent::ReclaimFinished, 2500),
        ],
    );
    assert_eq!(actions[2], LockAction::ReclaimThenReleaseGuard);
    assert_eq!(state, AcquireState::Done(LockOutcome::Busy));
}

#[test]
fn policy_contender_tries_a_fixed_number_of_rounds() {
    let plan = LockPlan::policy();
    let busy: Vec<(LockEvent, u64)> = (0..499).map(|_| (LockEvent::GuardBusy, 0)).collect();
    let (state, actions) = drive(&plan, &busy);
    assert_eq!(state, AcquireState::Guard { round: 499 });
    assert!(actions[1..].iter().all(|a| *a == LockAction::WaitThenTryGuard));
    let (state, action) = step(&plan, state, LockEvent::GuardBusy, 0);
    assert_eq!(state, AcquireState::Done(LockOutcome::Busy));
    assert_eq!(action, LockAction::Wait);

    let none = LockPlan {
        patience: Patience::Rounds(0),
        confirm_owner: false,
        scrub_partial_owner: false,
    };
    assert_eq!(
        start(&none),
        (AcquireState::Done(LockOutcome::Busy), LockAction::Stop)
    );
}

#[test]
fn failed_owner_write_removes_only_the_new_directory() {
    let plan = LockPlan::policy();
    let (state, actions) = drive(
        &plan,
        &[
            (LockEvent::GuardHeld, 0),
            (LockEvent::DirCreated, 0),
            (LockEvent::OwnerWriteError, 0),
        ],
    );
    assert_eq!(state, AcquireState::Done(LockOutcome::Failed));
    assert_eq!(actions[3], LockAction::RemoveDir);

    let plan = LockPlan::store(STORE_LOCK_TIMEOUT_MS);
    let (_, actions) = drive(
        &plan,
        &[
            (LockEvent::GuardHeld, 0),
            (LockEvent::DirCreated, 0),
            (LockEvent::OwnerWriteError, 0),
        ],
    );
    assert_eq!(actions[3], LockAction::RemoveOwnerAndDir);
}

#[test]
fn failed_lease_cleans_up_only_while_the_owner_is_ours() {
    let plan = LockPlan::policy();
    let prefix = [
        (LockEvent::GuardHeld, 0),
        (LockEvent::DirCreated, 0),
        (LockEvent::OwnerWritten, 0),
        (LockEvent::LeaseError, 0),
    ];
    let mut ours = prefix.to_vec();
    ours.push((LockEvent::OwnerIsOurs(true), 0));
    let (state, actions) = drive(&plan, &ours);
    assert_eq!(state, AcquireState::Done(LockOutcome::Failed));
    assert_eq!(actions[5], LockAction::RemoveOwnerLeaseAndDir);

    let mut theirs = prefix.to_vec();
    theirs.push((LockEvent::OwnerIsOurs(false), 0));
    let (state, actions) = drive(&plan, &theirs);
    assert_eq!(state, AcquireState::Done(LockOutcome::Failed));
    assert_eq!(actions[5], LockAction::Stop);
}

#[test]
fn changed_owner_is_never_reported_as_held() {
    let plan = LockPlan::store(STORE_LOCK_TIMEOUT_MS);
    let (state, _) = drive(
        &plan,
        &[
            (LockEvent::GuardHeld, 0),
            (LockEvent::DirCreated, 0),
            (LockEvent::OwnerWritten, 0),
            (LockEvent::OwnerIsOurs(false), 0),
        ],
    );
    assert_eq!(state, AcquireState::Done(LockOutcome::OwnershipChanged));

    let mut events = uncontended(&plan);
    events.pop();
    events.push((LockEvent::OwnerIsOurs(false), 0));
    let (state, actions) = drive(&plan, &events);
    assert_eq!(state, AcquireState::Done(LockOutcome::NamespaceChanged));
    assert_eq!(*actions.last().unwrap(), LockAction::ReleaseLease);
}

#[test]
fn unexpected_event_fails_closed() {
    let plan = LockPlan::policy();
    let (state, action) = step(&plan, AcquireState::Guard { round: 0 }, LockEvent::LeaseHeld, 0);
    assert_eq!(state, AcquireState::Done(LockOutcome::Failed));
    assert_eq!(action, LockAction::Stop);
    let (state, action) = step(
        &plan,
        AcquireState::Done(LockOutcome::Acquired),
        LockEvent::GuardBusy,
        0,
    );
    assert_eq!(state, AcquireState::Done(LockOutcome::Acquired));
    assert_eq!(action, LockAction::Stop);
}

fn held_then_reclaimed(stale_after_ms: u64, age: Option<u64>, lease: ReclaimEvent) -> (ReclaimState, Vec<ReclaimAction>) {
    reclaim(
        stale_after_ms,
        &[
            ReclaimEvent::IsRealDir(true),
            ReclaimEvent::Age(age),
            lease,
            ReclaimEvent::HasParent(true),
            ReclaimEvent::Renamed(true),
        ],
    )
}

#[test]
fn live_lease_prevents_timestamp_based_stale_reclamation() {
    let now = 1_700_000_000_000;
    let age = lock_age_ms(Some(0), None, now, FUTURE_SKEW_MS);
    assert_eq!(age, Some(now));
    let (state, actions) = held_then_reclaimed(0, age, ReclaimEvent::LeaseBusy);
    assert_eq!(state, ReclaimState::Done(false));
    assert!(!actions.contains(&ReclaimAction::ReleaseLeaseThenRename));
}

#[test]
fn active_lifecycle_lease_cannot_be_reclaimed_by_age() {
    let now = 1_700_000_000_000;
    let age = lock_age_ms(Some(0), Some(now), now, FUTURE_SKEW_MS);
    let (state, actions) = held_then_reclaimed(0, age, ReclaimEvent::LeaseBusy);
    assert_eq!(state, ReclaimState::Done(false));
    assert_eq!(actions[3], ReclaimAction::Stop);
}

#[test]
fn active_policy_lease_cannot_be_reclaimed_by_age() {
    let now = 1_700_000_000_000;
    let age = lock_age_ms(Some(0), Some(now), now, FUTURE_SKEW_MS);
    let (state, _) = held_then_reclaimed(0, age, ReclaimEvent::LeaseBusy);
    assert_eq!(state, ReclaimState::Done(false));
}

#[test]
fn released_stale_lifecycle_lease_is_reclaimed_with_parent_arbitration() {
    let now = 1_700_000_000_000;
    let age = lock_age_ms(Some(0), Some(now), now, FUTURE_SKEW_MS);
    let (state, actions) = held_then_reclaimed(0, age, ReclaimEvent::LeaseHeld);
    assert_eq!(state, ReclaimState::Done(true));
    assert_eq!(
        actions,
        vec![
            ReclaimAction::CheckDir,
            ReclaimAction::MeasureAge,
            ReclaimAction::OpenLease,
            ReclaimAction::FindParent,
            ReclaimAction::ReleaseLeaseThenRename,
            ReclaimAction::RemoveLeftovers
        ]
    );
}

#[test]
fn released_stale_policy_lease_is_reclaimed_with_parent_arbitration() {
    let now = 1_700_000_000_000;
    let age = lock_age_ms(Some(0), None, now, FUTURE_SKEW_MS);
    let (state, _) = held_then_reclaimed(0, age, ReclaimEvent::LeaseHeld);
    assert_eq!(state, ReclaimState::Done(true));
}

#[test]
fn ownerless_crash_lifecycle_lock_is_reclaimable() {
    let now = 1_700_000_000_002;
    let age = lock_age_ms(None, Some(now - 2), now, FUTURE_SKEW_MS);
    assert_eq!(age, Some(2));
    let (state, _) = held_then_reclaimed(0, age, ReclaimEvent::LeaseMissing);
    assert_eq!(state, ReclaimState::Done(true));
}

#[test]
fn ownerless_crash_policy_lock_is_reclaimable() {
    let now = 1_700_000_000_002;
    let age = lock_age_ms(None, Some(now - 2), now, FUTURE_SKEW_MS);
    let (state, _) = held_then_reclaimed(0, age, ReclaimEvent::LeaseMissing);
    assert_eq!(state, ReclaimState::Done(true));
}

#[test]
fn ownerless_crash_lock_is_recovered_after_its_deadline() {
    let now = 1_700_000_000_002;
    let age = lock_age_ms(None, Some(now - 2), now, FUTURE_SKEW_MS);
    let (state, _) = held_then_reclaimed(0, age, ReclaimEvent::LeaseMissing);
    assert_eq!(state, ReclaimState::Done(true));
    let plan = LockPlan::store(STORE_LOCK_TIMEOUT_MS);
    let (state, _) = drive(&plan, &uncontended(&plan));
    assert_eq!(state, AcquireState::Done(LockOutcome::Acquired));
}

#[test]
fn stale_policy_lock_is_reclaimed_without_recursive_deletion() {
    let now = 1_700_000_000_000;
    let age = lock_age_ms(Some(now - STALE_AFTER_MS - 1), Some(now), now, FUTURE_SKEW_MS);
    assert_eq!(age, Some(STALE_AFTER_MS + 1));
    let (state, actions) = held_then_reclaimed(STALE_AFTER_MS, age, ReclaimEvent::LeaseMissing);
    assert_eq!(state, ReclaimState::Done(true));
    assert_eq!(*actions.last().unwrap(), ReclaimAction::RemoveLeftovers);
}

#[test]
fn fresh_or_ageless_lock_is_left_in_place() {
    let (state, actions) = reclaim(
        STALE_AFTER_MS,
        &[ReclaimEvent::IsRealDir(true), ReclaimEvent::Age(Some(STALE_AFTER_MS))],
    );
    assert_eq!(state, ReclaimState::Done(false));
    assert_eq!(actions[2], ReclaimAction::Stop);
    let (state, _) = reclaim(STALE_AFTER_MS, &[ReclaimEvent::IsRealDir(true), ReclaimEvent::Age(None)]);
    assert_eq!(state, ReclaimState::Done(false));
    let (state, _) = reclaim(STALE_AFTER_MS, &[ReclaimEvent::IsRealDir(false)]);
    assert_eq!(state, ReclaimState::Done(false));
    let now = 1_000;
    let future = lock_age_ms(Some(now + FUTURE_SKEW_MS + 1), None, now, FUTURE_SKEW_MS);
    assert_eq!(future, None);
}
