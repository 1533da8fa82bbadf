//! The acquisition protocol of the cross-process lock directories that guard
//! a memory store, the memory policy and the lifecycle journal.
//!
//! A contender takes an exclusive namespace guard, creates the lock
//! directory, writes its owner record, takes the lease file and then checks
//! that the owner record is still its own. A lock directory that already
//! exists may be reclaimed when stale; the contender then waits and tries
//! again while its patience lasts. The caller does the work on files and
//! hands back what it observed; [`step`] decides what comes next.

use vstd::prelude::*;

use crate::lock::lock_is_stale;

verus! {

/// Rounds a policy-lock contender tries before reporting the policy busy.
pub const POLICY_LOCK_ROUNDS: u32 = 500;

/// Rounds a lifecycle-lock contender tries before reporting it busy.
pub const LIFECYCLE_LOCK_ROUNDS: u32 = 500;

/// How long a store-lock contender keeps trying, in milliseconds.
pub const STORE_LOCK_TIMEOUT_MS: u64 = 2000;

/// How long a contender keeps trying.
#[derive(Debug, Clone, Copy, PartialEq, Eq, Structural)]
pub enum Patience {
    /// A fixed number of rounds, each ending in a short wait.
    Rounds(u32),
    /// Until this many milliseconds have elapsed since the first round.
    Deadline(u64),
}

/// The variant of the protocol a lock follows.
#[derive(Debug, Clone, Copy, PartialEq, Eq, Structural)]
pub struct LockPlan {
    pub patience: Patience,
    /// Read the written owner record back before taking the lease.
    pub confirm_owner: bool,
    /// After a failed owner write, remove the possibly partial owner file
    /// before the directory.
    pub scrub_partial_owner: bool,
}

impl LockPlan {
    /// A memory-store lock: bounded by a deadline, with the owner record
    /// confirmed before the lease is taken.
    pub fn store(timeout_ms: u64) -> (p: LockPlan)
        ensures
            p == (LockPlan {
                patience: Patience::Deadline(timeout_ms),
                confirm_owner: true,
                scrub_partial_owner: true,
            }),
    {
        LockPlan { patience: Patience::Deadline(timeout_ms), confirm_owner: true, scrub_partial_owner: true }
    }

    /// The memory-policy lock: a fixed number of rounds.
    pub fn policy() -> (p: LockPlan)
        ensures
            p == (LockPlan {
                patience: Patience::Rounds(POLICY_LOCK_ROUNDS),
                confirm_owner: false,
                scrub_partial_owner: false,
            }),
    {
        LockPlan { patience: Patience::Rounds(POLICY_LOCK_ROUNDS), confirm_owner: false, scrub_partial_owner: false }
    }

    /// The lifecycle-journal lock: a fixed number of rounds.
    pub fn lifecycle() -> (p: LockPlan)
        ensures
            p == (LockPlan {
                patience: Patience::Rounds(LIFECYCLE_LOCK_ROUNDS),
                confirm_owner: false,
                scrub_partial_owner: false,
            }),
    {
        LockPlan { patience: Patience::Rounds(LIFECYCLE_LOCK_ROUNDS), confirm_owner: false, scrub_partial_owner: false }
    }
}

/// How an acquisition ended.
#[derive(Debug, Clone, Copy, PartialEq, Eq, Structural)]
pub enum LockOutcome {
    /// The lock is held: the guard and the lease stay with the caller.
    Acquired,
    /// The patience ran out while another process held the lock.
    Busy,
    /// A step failed; the caller reports that step's error.
    Failed,
    /// The owner record read back was not the one just written.
    OwnershipChanged,
    /// The owner record changed while the lease was being taken.
    NamespaceChanged,
}

/// Where an acquisition stands.
#[derive(Debug, Clone, Copy, PartialEq, Eq, Structural)]
pub enum AcquireState {
    /// Waiting for the namespace guard, in the given round.
    Guard { round: u32 },
    /// The guard is held; the lock directory is being created.
    Create { round: u32 },
    /// The directory was created; the owner record is being written.
    WriteOwner,
    /// The owner record was written and is being read back.
    ConfirmOwner,
    /// The owner record is ours; the lease is being taken.
    TakeLease,
    /// The lease failed; the owner record decides whether to clean up.
    LeaseFailed,
    /// The lease is held; the owner record is read once more.
    Recheck,
    /// The lock existed; a stale one is being reclaimed.
    Reclaim { round: u32 },
    /// Finished.
    Done(LockOutcome),
}

/// What the caller observed after the last action.
#[derive(Debug, Clone, Copy, PartialEq, Eq, Structural)]
pub enum LockEvent {
    GuardHeld,
    /// Another process holds the namespace guard.
    GuardBusy,
    GuardError,
    DirCreated,
    /// The lock directory already exists.
    DirExists,
    DirError,
    OwnerWritten,
    OwnerWriteError,
    /// The owner record was read; whether it is the one this contender wrote
    /// (a failed read is `false`).
    OwnerIsOurs(bool),
    LeaseHeld,
    LeaseError,
    /// Stale reclaim was attempted and the namespace guard released.
    ReclaimFinished,
}

/// What the caller does next.
#[derive(Debug, Clone, Copy, PartialEq, Eq, Structural)]
pub enum LockAction {
    /// Open the namespace guard and try its exclusive lock.
    TryGuard,
    /// Sleep the poll interval, then try the guard.
    WaitThenTryGuard,
    /// Sleep the poll interval; the outcome is then final.
    Wait,
    CreateDir,
    WriteOwner,
    ReadOwner,
    /// Open the lease file and take its exclusive lock.
    TakeLease,
    /// Reclaim the existing lock if it is stale, then release the guard.
    ReclaimThenReleaseGuard,
    /// Remove the just-created empty directory.
    RemoveDir,
    /// Remove the partial owner file, then the directory.
    RemoveOwnerAndDir,
    /// Remove the owner file, the lease file and the directory.
    RemoveOwnerLeaseAndDir,
    /// Release the lease just taken.
    ReleaseLease,
    /// Nothing more to do.
    Stop,
}

/// The first state and action of an acquisition. No patience at all means
/// busy at once.
pub open spec fn start_spec(p: LockPlan) -> (AcquireState, LockAction) {
    match p.patience {
        Patience::Rounds(n) => if n == 0 {
            (AcquireState::Done(LockOutcome::Busy), LockAction::Stop)
        } else {
            (AcquireState::Guard { round: 0 }, LockAction::TryGuard)
        },
        Patience::Deadline(_) => (AcquireState::Guard { round: 0 }, LockAction::TryGuard),
    }
}

/// After a busy guard or an existing lock in round `round`: another round
/// while the patience lasts, else busy. Rounds end in a wait even after the
/// last one; a passed deadline stops at once.
pub open spec fn retry_spec(p: LockPlan, round: u32, elapsed_ms: u64) -> (AcquireState, LockAction) {
    match p.patience {
        Patience::Rounds(n) => if round + 1 < n {
            (AcquireState::Guard { round: (round + 1) as u32 }, LockAction::WaitThenTryGuard)
        } else {
            (AcquireState::Done(LockOutcome::Busy), LockAction::Wait)
        },
        Patience::Deadline(ms) => if elapsed_ms >= ms {
            (AcquireState::Done(LockOutcome::Busy), LockAction::Stop)
        } else {
            (AcquireState::Guard { round }, LockAction::WaitThenTryGuard)
        },
    }
}

/// The transition table. An event that the state does not await ends the
/// acquisition as failed; a finished acquisition stays finished.
pub open spec fn next_spec(p: LockPlan, s: AcquireState, e: LockEvent, elapsed_ms: u64) -> (AcquireState, LockAction) {
    let fail = (AcquireState::Done(LockOutcome::Failed), LockAction::Stop);
    match s {
        AcquireState::Guard { round } => match e {
            LockEvent::GuardHeld => (AcquireState::Create { round }, LockAction::CreateDir),
            LockEvent::GuardBusy => retry_spec(p, round, elapsed_ms),
            _ => fail,
        },
        AcquireState::Create { round } => match e {
            LockEvent::DirCreated => (AcquireState::WriteOwner, LockAction::WriteOwner),
            LockEvent::DirExists => (AcquireState::Reclaim { round }, LockAction::ReclaimThenReleaseGuard),
            _ => fail,
        },
        AcquireState::WriteOwner => match e {
            LockEvent::OwnerWritten => if p.confirm_owner {
                (AcquireState::ConfirmOwner, LockAction::ReadOwner)
            } else {
                (AcquireState::TakeLease, LockAction::TakeLease)
            },
            LockEvent::OwnerWriteError => (
                AcquireState::Done(LockOutcome::Failed),
                if p.scrub_partial_owner {
                    LockAction::RemoveOwnerAndDir
                } else {
                    LockAction::RemoveDir
                },
            ),
            _ => fail,
        },
        AcquireState::ConfirmOwner => match e {
            LockEvent::OwnerIsOurs(ours) => if ours {
                (AcquireState::TakeLease, LockAction::TakeLease)
            } else {
                (AcquireState::Done(LockOutcome::OwnershipChanged), LockAction::Stop)
            },
            _ => fail,
        },
        AcquireState::TakeLease => match e {
            LockEvent::LeaseHeld => (AcquireState::Recheck, LockAction::ReadOwner),
            LockEvent::LeaseError => (AcquireState::LeaseFailed, LockAction::ReadOwner),
            _ => fail,
        },
        AcquireState::LeaseFailed => match e {
            LockEvent::OwnerIsOurs(ours) => if ours {
                (AcquireState::Done(LockOutcome::Failed), LockAction::RemoveOwnerLeaseAndDir)
            } else {
                fail
            },
            _ => fail,
        },
        AcquireState::Recheck => match e {
            LockEvent::OwnerIsOurs(ours) => if ours {
                (AcquireState::Done(LockOutcome::Acquired), LockAction::Stop)
            } else {
                (AcquireState::Done(LockOutcome::NamespaceChanged), LockAction::ReleaseLease)
            },
            _ => fail,
        },
        AcquireState::Reclaim { round } => match e {
            LockEvent::ReclaimFinished => retry_spec(p, round, elapsed_ms),
            _ => fail,
        },
        AcquireState::Done(o) => (AcquireState::Done(o), LockAction::Stop),
    }
}

/// Begin an acquisition.
pub fn start(plan: &LockPlan) -> (r: (AcquireState, LockAction))
    ensures
        r == start_spec(*plan),
{
    match plan.patience {
        Patience::Rounds(n) => if n == 0 {
            (AcquireState::Done(LockOutcome::Busy), LockAction::Stop)
        } else {
            (AcquireState::Guard { round: 0 }, LockAction::TryGuard)
        },
        Patience::Deadline(_) => (AcquireState::Guard { round: 0 }, LockAction::TryGuard),
    }
}

fn retry(plan: &LockPlan, round: u32, elapsed_ms: u64) -> (r: (AcquireState, LockAction))
    ensures
        r == retry_spec(*plan, round, elapsed_ms),
{
    match plan.patience {
        Patience::Rounds(n) => if round < n && n - round > 1 {
            (AcquireState::Guard { round: round + 1 }, LockAction::WaitThenTryGuard)
        } else {
            (AcquireState::Done(LockOutcome::Busy), LockAction::Wait)
        },
        Patience::Deadline(ms) => if elapsed_ms >= ms {
            (AcquireState::Done(LockOutcome::Busy), LockAction::Stop)
        } else {
            (AcquireState::Guard { round }, LockAction::WaitThenTryGuard)
        },
    }
}

/// Decide the next state and action from what the caller observed;
/// `elapsed_ms` is the time since the acquisition began.
pub fn step(plan: &LockPlan, state: AcquireState, event: LockEvent, elapsed_ms: u64) -> (r: (AcquireState, LockAction))
    ensures
        r == next_spec(*plan, state, event, elapsed_ms),
{
    let fail = (AcquireState::Done(LockOutcome::Failed), LockAction::Stop);
    match state {
        AcquireState::Guard { round } => match event {
            LockEvent::GuardHeld => (AcquireState::Create { round }, LockAction::CreateDir),
            LockEvent::GuardBusy => retry(plan, round, elapsed_ms),
            _ => fail,
        },
        AcquireState::Create { round } => match event {
            LockEvent::DirCreated => (AcquireState::WriteOwner, LockAction::WriteOwner),
            LockEvent::DirExists => (AcquireState::Reclaim { round }, LockAction::ReclaimThenReleaseGuard),
            _ => fail,
        },
        AcquireState::WriteOwner => match event {
            LockEvent::OwnerWritten => if plan.confirm_owner {
                (AcquireState::ConfirmOwner, LockAction::ReadOwner)
            } else {
                (AcquireState::TakeLease, LockAction::TakeLease)
            },
            LockEvent::OwnerWriteError => {
                let cleanup = if plan.scrub_partial_owner {
                    LockAction::RemoveOwnerAndDir
                } else {
                    LockAction::RemoveDir
                };
                (AcquireState::Done(LockOutcome::Failed), cleanup)
            },
            _ => fail,
        },
        AcquireState::ConfirmOwner => match event {
            LockEvent::OwnerIsOurs(ours) => if ours {
                (AcquireState::TakeLease, LockAction::TakeLease)
            } else {
                (AcquireState::Done(LockOutcome::OwnershipChanged), LockAction::Stop)
            },
            _ => fail,
        },
        AcquireState::TakeLease => match event {
            LockEvent::LeaseHeld => (AcquireState::Recheck, LockAction::ReadOwner),
            LockEvent::LeaseError => (AcquireState::LeaseFailed, LockAction::ReadOwner),
            _ => fail,
        },
        AcquireState::LeaseFailed => match event {
            LockEvent::OwnerIsOurs(ours) => if ours {
                (AcquireState::Done(LockOutcome::Failed), LockAction::RemoveOwnerLeaseAndDir)
            } else {
                fail
            },
            _ => fail,
        },
        AcquireState::Recheck => match event {
            LockEvent::OwnerIsOurs(ours) => if ours {
                (AcquireState::Done(LockOutcome::Acquired), LockAction::Stop)
            } else {
                (AcquireState::Done(LockOutcome::NamespaceChanged), LockAction::ReleaseLease)
            },
            _ => fail,
        },
        AcquireState::Reclaim { round } => match event {
            LockEvent::ReclaimFinished => retry(plan, round, elapsed_ms),
            _ => fail,
        },
        AcquireState::Done(o) => (AcquireState::Done(o), LockAction::Stop),
    }
}

/// The state after a sequence of observed events, each with the time elapsed
/// when it was observed.
pub open spec fn run_spec(p: LockPlan, evs: Seq<(LockEvent, u64)>) -> AcquireState
    decreases evs.len(),
{
    if evs.len() == 0 {
        start_spec(p).0
    } else {
        next_spec(p, run_spec(p, evs.drop_last()), evs.last().0, evs.last().1).0
    }
}

/// The event `e` occurs in `evs`.
pub open spec fn observed(evs: Seq<(LockEvent, u64)>, e: LockEvent) -> bool {
    exists|i: int| 0 <= i < evs.len() && #[trigger] evs[i].0 == e
}

/// The round a waiting state is in.
pub open spec fn round_of(s: AcquireState) -> Option<u32> {
    match s {
        AcquireState::Guard { round } => Some(round),
        AcquireState::Create { round } => Some(round),
        AcquireState::Reclaim { round } => Some(round),
        _ => None,
    }
}

/// What every reachable state owes to the events before it.
spec fn acquire_inv(p: LockPlan, s: AcquireState, evs: Seq<(LockEvent, u64)>) -> bool {
    let owned = s is WriteOwner || s is ConfirmOwner || s is TakeLease || s is LeaseFailed
        || s is Recheck || s == AcquireState::Done(LockOutcome::Acquired);
    let written = s is ConfirmOwner || s is TakeLease || s is LeaseFailed || s is Recheck
        || s == AcquireState::Done(LockOutcome::Acquired);
    let leased = s is Recheck || s == AcquireState::Done(LockOutcome::Acquired);
    &&& owned ==> observed(evs, LockEvent::DirCreated)
    &&& written ==> observed(evs, LockEvent::OwnerWritten)
    &&& leased ==> observed(evs, LockEvent::LeaseHeld)
    &&& s == AcquireState::Done(LockOutcome::Acquired) ==> observed(evs, LockEvent::OwnerIsOurs(true))
    &&& (p.patience matches Patience::Rounds(n) ==> (round_of(s) matches Some(r) ==> r < n))
}

proof fn lemma_observed_extends(evs: Seq<(LockEvent, u64)>, e: LockEvent)
    requires
        evs.len() > 0,
        observed(evs.drop_last(), e) || evs.last().0 == e,
    ensures
        observed(evs, e),
{
    if observed(evs.drop_last(), e) {
        let i = choose|i: int| 0 <= i < evs.drop_last().len() && #[trigger] evs.drop_last()[i].0 == e;
        assert(evs[i].0 == e);
    } else {
        assert(evs[evs.len() - 1].0 == e);
    }
}

proof fn lemma_acquire_inv(p: LockPlan, evs: Seq<(LockEvent, u64)>)
    ensures
        acquire_inv(p, run_spec(p, evs), evs),
    decreases evs.len(),
{
    if evs.len() > 0 {
        let prev = evs.drop_last();
        lemma_acquire_inv(p, prev);
        let s = run_spec(p, prev);
        let e = evs.last().0;
        let t = run_spec(p, evs);
        assert(t == next_spec(p, s, e, evs.last().1).0);
        if observed(prev, LockEvent::DirCreated) || e == LockEvent::DirCreated {
            lemma_observed_extends(evs, LockEvent::DirCreated);
        }
        if observed(prev, LockEvent::OwnerWritten) || e == LockEvent::OwnerWritten {
            lemma_observed_extends(evs, LockEvent::OwnerWritten);
        }
        if observed(prev, LockEvent::LeaseHeld) || e == LockEvent::LeaseHeld {
            lemma_observed_extends(evs, LockEvent::LeaseHeld);
        }
        if observed(prev, LockEvent::OwnerIsOurs(true)) || e == LockEvent::OwnerIsOurs(true) {
            lemma_observed_extends(evs, LockEvent::OwnerIsOurs(true));
        }
    }
}

/// A lock is reported held only after this contender created the lock
/// directory, wrote its owner record, took the lease and found the owner
/// record still its own.
pub proof fn law_acquired_only_when_owned(p: LockPlan, evs: Seq<(LockEvent, u64)>)
    requires
        run_spec(p, evs) == AcquireState::Done(LockOutcome::Acquired),
    ensures
        observed(evs, LockEvent::DirCreated),
        observed(evs, LockEvent::OwnerWritten),
        observed(evs, LockEvent::LeaseHeld),
        observed(evs, LockEvent::OwnerIsOurs(true)),
{
    lemma_acquire_inv(p, evs);
}

/// Cleanup touches only a directory this contender created, and after a
/// failed lease only while the owner record is still its own: a successor's
/// lock is never removed.
pub proof fn law_cleanup_only_of_own_lock(p: LockPlan, evs: Seq<(LockEvent, u64)>, e: LockEvent, t: u64)
    requires
        ({
            let a = next_spec(p, run_spec(p, evs), e, t).1;
            a == LockAction::RemoveDir || a == LockAction::RemoveOwnerAndDir
                || a == LockAction::RemoveOwnerLeaseAndDir
        }),
    ensures
        observed(evs, LockEvent::DirCreated),
        next_spec(p, run_spec(p, evs), e, t).1 == LockAction::RemoveOwnerLeaseAndDir
            ==> e == LockEvent::OwnerIsOurs(true) && observed(evs, LockEvent::OwnerWritten),
{
    lemma_acquire_inv(p, evs);
}

/// With a number of rounds as patience, no contender ever waits in a round
/// beyond the last, and each retry moves to the next round.
pub proof fn law_rounds_are_bounded(p: LockPlan, n: u32, evs: Seq<(LockEvent, u64)>, e: LockEvent, t: u64)
    requires
        p.patience == Patience::Rounds(n),
    ensures
        round_of(run_spec(p, evs)) matches Some(r) ==> r < n,
        next_spec(p, run_spec(p, evs), e, t).1 == LockAction::WaitThenTryGuard ==> (
            round_of(run_spec(p, evs)) matches Some(r)
                && next_spec(p, run_spec(p, evs), e, t).0 == AcquireState::Guard { round: (r + 1) as u32 }),
{
    lemma_acquire_inv(p, evs);
}

/// Busy is reported only once the patience is spent: with rounds, from the
/// last round; with a deadline, once it has passed. A deadline contender
/// waits only while the deadline has not passed.
pub proof fn law_busy_only_when_patience_spent(p: LockPlan, s: AcquireState, e: LockEvent, t: u64)
    requires
        !(s is Done),
        next_spec(p, s, e, t).0 == AcquireState::Done(LockOutcome::Busy)
            || next_spec(p, s, e, t).1 == LockAction::WaitThenTryGuard,
    ensures
        next_spec(p, s, e, t).0 == AcquireState::Done(LockOutcome::Busy) ==> (match p.patience {
            Patience::Rounds(n) => round_of(s) matches Some(r) && r + 1 >= n,
            Patience::Deadline(ms) => t >= ms,
        }),
        next_spec(p, s, e, t).1 == LockAction::WaitThenTryGuard ==> (p.patience matches Patience::Deadline(ms) ==> t < ms),
{
}

/// A finished acquisition stays finished and asks for nothing more.
pub proof fn law_finished_is_final(p: LockPlan, o: LockOutcome, e: LockEvent, t: u64)
    ensures
        next_spec(p, AcquireState::Done(o), e, t) == (AcquireState::Done(o), LockAction::Stop),
{
}

/// Where reclaiming an existing lock stands.
#[derive(Debug, Clone, Copy, PartialEq, Eq, Structural)]
pub enum ReclaimState {
    /// Checking that the lock is a real directory.
    CheckDir,
    /// Measuring its age.
    MeasureAge,
    /// Taking its lease, which a live owner holds.
    TakeLease,
    /// Finding the directory the lock lives in.
    FindParent,
    /// Renaming the lock aside under a unique name.
    Isolate,
    /// Finished; whether the lock was moved aside.
    Done(bool),
}

/// What the caller observed while reclaiming.
#[derive(Debug, Clone, Copy, PartialEq, Eq, Structural)]
pub enum ReclaimEvent {
    /// Whether the lock is a real directory (an error counts as not).
    IsRealDir(bool),
    /// The lock's age in milliseconds, when it can be established.
    Age(Option<u64>),
    LeaseHeld,
    /// The lock has no lease file.
    LeaseMissing,
    /// A live owner holds the lease.
    LeaseBusy,
    LeaseError,
    HasParent(bool),
    Renamed(bool),
}

/// What the caller does next while reclaiming.
#[derive(Debug, Clone, Copy, PartialEq, Eq, Structural)]
pub enum ReclaimAction {
    CheckDir,
    MeasureAge,
    OpenLease,
    FindParent,
    /// Release the lease (if held), then rename the lock aside.
    ReleaseLeaseThenRename,
    /// Remove the owner file, the lease file and the empty directory that
    /// were moved aside.
    RemoveLeftovers,
    Stop,
}

/// The transition table of reclaiming. An event that the state does not
/// await leaves the lock alone.
pub open spec fn reclaim_next_spec(stale_after_ms: u64, s: ReclaimState, e: ReclaimEvent) -> (ReclaimState, ReclaimAction) {
    let keep = (ReclaimState::Done(false), ReclaimAction::Stop);
    match s {
        ReclaimState::CheckDir => match e {
            ReclaimEvent::IsRealDir(is_dir) => if is_dir {
                (ReclaimState::MeasureAge, ReclaimAction::MeasureAge)
            } else {
                keep
            },
            _ => keep,
        },
        ReclaimState::MeasureAge => match e {
            ReclaimEvent::Age(age) => if age matches Some(a) && a > stale_after_ms {
                (ReclaimState::TakeLease, ReclaimAction::OpenLease)
            } else {
                keep
            },
            _ => keep,
        },
        ReclaimState::TakeLease => match e {
            ReclaimEvent::LeaseHeld => (ReclaimState::FindParent, ReclaimAction::FindParent),
            ReclaimEvent::LeaseMissing => (ReclaimState::FindParent, ReclaimAction::FindParent),
            _ => keep,
        },
        ReclaimState::FindParent => match e {
            ReclaimEvent::HasParent(found) => if found {
                (ReclaimState::Isolate, ReclaimAction::ReleaseLeaseThenRename)
            } else {
                keep
            },
            _ => keep,
        },
        ReclaimState::Isolate => match e {
            ReclaimEvent::Renamed(moved) => if moved {
                (ReclaimState::Done(true), ReclaimAction::RemoveLeftovers)
            } else {
                keep
            },
            _ => keep,
        },
        ReclaimState::Done(moved) => (ReclaimState::Done(moved), ReclaimAction::Stop),
    }
}

/// Begin reclaiming an existing lock.
pub fn reclaim_start() -> (r: (ReclaimState, ReclaimAction))
    ensures
        r == (ReclaimState::CheckDir, ReclaimAction::CheckDir),
{
    (ReclaimState::CheckDir, ReclaimAction::CheckDir)
}

/// Decide the next reclaim state and action. Only a real directory whose
/// age is known and above `stale_after_ms`, and whose lease no live owner
/// holds, is moved aside.
pub fn reclaim_step(stale_after_ms: u64, state: ReclaimState, event: ReclaimEvent) -> (r: (ReclaimState, ReclaimAction))
    ensures
        r == reclaim_next_spec(stale_after_ms, state, event),
{
    let keep = (ReclaimState::Done(false), ReclaimAction::Stop);
    match state {
        ReclaimState::CheckDir => match event {
            ReclaimEvent::IsRealDir(is_dir) => if is_dir {
                (ReclaimState::MeasureAge, ReclaimAction::MeasureAge)
            } else {
                keep
            },
            _ => keep,
        },
        ReclaimState::MeasureAge => match event {
            ReclaimEvent::Age(age) => if lock_is_stale(age, stale_after_ms) {
                (ReclaimState::TakeLease, ReclaimAction::OpenLease)
            } else {
                keep
            },
            _ => keep,
        },
        ReclaimState::TakeLease => match event {
            ReclaimEvent::LeaseHeld => (ReclaimState::FindParent, ReclaimAction::FindParent),
            ReclaimEvent::LeaseMissing => (ReclaimState::FindParent, ReclaimAction::FindParent),
            _ => keep,
        },
        ReclaimState::FindParent => match event {
            ReclaimEvent::HasParent(found) => if found {
                (ReclaimState::Isolate, ReclaimAction::ReleaseLeaseThenRename)
            } else {
                keep
            },
            _ => keep,
        },
        ReclaimState::Isolate => match event {
            ReclaimEvent::Renamed(moved) => if moved {
                (ReclaimState::Done(true), ReclaimAction::RemoveLeftovers)
            } else {
                keep
            },
            _ => keep,
        },
        ReclaimState::Done(moved) => (ReclaimState::Done(moved), ReclaimAction::Stop),
    }
}

/// The reclaim state after a sequence of observed events.
pub open spec fn reclaim_run_spec(stale_after_ms: u64, evs: Seq<ReclaimEvent>) -> ReclaimState
    decreases evs.len(),
{
    if evs.len() == 0 {
        ReclaimState::CheckDir
    } else {
        reclaim_next_spec(stale_after_ms, reclaim_run_spec(stale_after_ms, evs.drop_last()), evs.last()).0
    }
}

/// Some event of `evs` reported an age above `stale_after_ms`.
pub open spec fn saw_stale_age(evs: Seq<ReclaimEvent>, stale_after_ms: u64) -> bool {
    exists|i: int| 0 <= i < evs.len() && (#[trigger] evs[i] matches ReclaimEvent::Age(Some(a)) && a > stale_after_ms)
}

/// Some event of `evs` is `e`.
pub open spec fn saw(evs: Seq<ReclaimEvent>, e: ReclaimEvent) -> bool {
    exists|i: int| 0 <= i < evs.len() && #[trigger] evs[i] == e
}

spec fn reclaim_inv(stale_after_ms: u64, s: ReclaimState, evs: Seq<ReclaimEvent>) -> bool {
    let measured = s is TakeLease || s is FindParent || s is Isolate || s == ReclaimState::Done(true);
    let unleased = s is FindParent || s is Isolate || s == ReclaimState::Done(true);
    &&& measured ==> saw(evs, ReclaimEvent::IsRealDir(true)) && saw_stale_age(evs, stale_after_ms)
    &&& unleased ==> saw(evs, ReclaimEvent::LeaseHeld) || saw(evs, ReclaimEvent::LeaseMissing)
    &&& s == ReclaimState::Done(true) ==> saw(evs, ReclaimEvent::Renamed(true))
}

proof fn lemma_saw_extends(evs: Seq<ReclaimEvent>, e: ReclaimEvent)
    requires
        evs.len() > 0,
        saw(evs.drop_last(), e) || evs.last() == e,
    ensures
        saw(evs, e),
{
    if saw(evs.drop_last(), e) {
        let i = choose|i: int| 0 <= i < evs.drop_last().len() && #[trigger] evs.drop_last()[i] == e;
        assert(evs[i] == e);
    } else {
        assert(evs[evs.len() - 1] == e);
    }
}

proof fn lemma_reclaim_inv(stale_after_ms: u64, evs: Seq<ReclaimEvent>)
    ensures
        reclaim_inv(stale_after_ms, reclaim_run_spec(stale_after_ms, evs), evs),
    decreases evs.len(),
{
    if evs.len() > 0 {
        let prev = evs.drop_last();
        lemma_reclaim_inv(stale_after_ms, prev);
        let e = evs.last();
        if saw(prev, ReclaimEvent::IsRealDir(true)) || e == ReclaimEvent::IsRealDir(true) {
            lemma_saw_extends(evs, ReclaimEvent::IsRealDir(true));
        }
        if saw(prev, ReclaimEvent::LeaseHeld) || e == ReclaimEvent::LeaseHeld {
            lemma_saw_extends(evs, ReclaimEvent::LeaseHeld);
        }
        if saw(prev, ReclaimEvent::LeaseMissing) || e == ReclaimEvent::LeaseMissing {
            lemma_saw_extends(evs, ReclaimEvent::LeaseMissing);
        }
        if saw(prev, ReclaimEvent::Renamed(true)) || e == ReclaimEvent::Renamed(true) {
            lemma_saw_extends(evs, ReclaimEvent::Renamed(true));
        }
        if saw_stale_age(prev, stale_after_ms) {
            let i = choose|i: int| 0 <= i < prev.len()
                && (#[trigger] prev[i] matches ReclaimEvent::Age(Some(a)) && a > stale_after_ms);
            assert(evs[i] == prev[i]);
        } else if e matches ReclaimEvent::Age(Some(a)) && a > stale_after_ms {
            assert(evs[evs.len() - 1] == e);
        }
    }
}

/// A lock is moved aside only after it was found to be a real directory of
/// known age above the limit, with its lease taken or absent, and after the
/// rename succeeded. A lock whose age cannot be established, or whose lease a
/// live owner holds, is left alone.
pub proof fn law_reclaim_only_stale_unleased(stale_after_ms: u64, evs: Seq<ReclaimEvent>)
    requires
        reclaim_run_spec(stale_after_ms, evs) == ReclaimState::Done(true),
    ensures
        saw(evs, ReclaimEvent::IsRealDir(true)),
        saw_stale_age(evs, stale_after_ms),
        saw(evs, ReclaimEvent::LeaseHeld) || saw(evs, ReclaimEvent::LeaseMissing),
        saw(evs, ReclaimEvent::Renamed(true)),
{
    lemma_reclaim_inv(stale_after_ms, evs);
}

/// A busy lease, or an age that is unknown or within the limit, ends
/// reclaiming with the lock left in place.
pub proof fn law_live_or_fresh_lock_is_kept(stale_after_ms: u64, age: Option<u64>)
    requires
        !(age matches Some(a) && a > stale_after_ms),
    ensures
        reclaim_next_spec(stale_after_ms, ReclaimState::TakeLease, ReclaimEvent::LeaseBusy)
            == (ReclaimState::Done(false), ReclaimAction::Stop),
        reclaim_next_spec(stale_after_ms, ReclaimState::MeasureAge, ReclaimEvent::Age(age))
            == (ReclaimState::Done(false), ReclaimAction::Stop),
{
}

} // verus!
