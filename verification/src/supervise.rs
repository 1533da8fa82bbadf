//! Supervision of a bounded child process: the limits it runs under and the
//! decisions of its polling loop.
//!
//! The caller spawns the child into its own process tree, drains both pipes
//! into bounded tails, and polls. Each poll first checks the stdout cap (when
//! the caller asked to stop on it) and the hard deadline, then observes the
//! tree's leader. Every way out of the loop tears the whole tree down first,
//! and a wait never reaches past the deadline.

use vstd::prelude::*;

use crate::process::{flatten_chunks, keep_newest, law_tail_is_the_newest_bytes, tail_after};

verus! {

/// How long the supervisor sleeps between polls, at most, in milliseconds.
pub const POLL_INTERVAL_MS: u64 = 5;

/// Resource limits of a bounded command. Times are in milliseconds.
#[derive(Debug, Clone, Copy, PartialEq, Eq, Structural)]
pub struct BoundedCommandOptions {
    /// Hard wall-clock deadline for the command.
    pub timeout_ms: u64,
    /// Maximum retained stdout bytes; the newest bytes are kept.
    pub stdout_bytes: usize,
    /// Maximum retained stderr bytes; the newest bytes are kept.
    pub stderr_bytes: usize,
    /// Maximum time spent reaping pipe readers after the tree is terminated.
    pub reader_grace_ms: u64,
}

impl Default for BoundedCommandOptions {
    /// Thirty seconds, 256 KiB of each stream, one second of reader grace.
    fn default() -> (o: Self)
        ensures
            o == (BoundedCommandOptions {
                timeout_ms: 30_000,
                stdout_bytes: 262_144,
                stderr_bytes: 262_144,
                reader_grace_ms: 1_000,
            }),
    {
        BoundedCommandOptions {
            timeout_ms: 30_000,
            stdout_bytes: 262_144,
            stderr_bytes: 262_144,
            reader_grace_ms: 1_000,
        }
    }
}

/// How a supervised run ended.
#[derive(Debug, Clone, Copy, PartialEq, Eq, Structural)]
pub enum RunEnd {
    /// The leader exited; its status is reported.
    Exited,
    /// The hard deadline elapsed; there is no status.
    TimedOut,
    /// The stdout cap was reached and the caller asked to stop on it.
    StdoutCapped,
    /// Observing the leader failed; the caller reports that error.
    Failed,
}

/// Where the polling loop stands.
#[derive(Debug, Clone, Copy, PartialEq, Eq, Structural)]
pub enum SuperviseState {
    /// About to check the caps and the deadline.
    Check,
    /// Caps and deadline passed at `elapsed_ms`; observing the leader.
    Observe { elapsed_ms: u64 },
    Finished(RunEnd),
}

/// What observing the tree's leader found.
#[derive(Debug, Clone, Copy, PartialEq, Eq, Structural)]
pub enum LeaderObservation {
    Running,
    /// The leader exited and its status was collected.
    Exited,
    /// The leader's state could not be established.
    Error,
}

/// What the caller observed.
#[derive(Debug, Clone, Copy, PartialEq, Eq, Structural)]
pub enum SuperviseEvent {
    /// The stdout tail's state and the time since the child started.
    Tick { stdout_truncated: bool, elapsed_ms: u64 },
    Observed(LeaderObservation),
}

/// What the caller does next.
#[derive(Debug, Clone, Copy, PartialEq, Eq, Structural)]
pub enum SuperviseAction {
    /// Observe the tree's leader.
    ObserveLeader,
    /// Sleep this long, then tick again.
    Sleep { ms: u64 },
    /// Terminate the whole process tree; the run is then over.
    TerminateTree,
    /// Nothing more to do.
    Stop,
}

/// The transition table of the polling loop. An event the state does not
/// await ends the run as failed, with the tree torn down.
pub open spec fn supervise_next_spec(
    stop_on_stdout_truncation: bool,
    timeout_ms: u64,
    s: SuperviseState,
    e: SuperviseEvent,
) -> (SuperviseState, SuperviseAction) {
    let fail = (SuperviseState::Finished(RunEnd::Failed), SuperviseAction::TerminateTree);
    match s {
        SuperviseState::Check => match e {
            SuperviseEvent::Tick { stdout_truncated, elapsed_ms } => if stop_on_stdout_truncation
                && stdout_truncated {
                (SuperviseState::Finished(RunEnd::StdoutCapped), SuperviseAction::TerminateTree)
            } else if elapsed_ms >= timeout_ms {
                (SuperviseState::Finished(RunEnd::TimedOut), SuperviseAction::TerminateTree)
            } else {
                (SuperviseState::Observe { elapsed_ms }, SuperviseAction::ObserveLeader)
            },
            _ => fail,
        },
        SuperviseState::Observe { elapsed_ms } => match e {
            SuperviseEvent::Observed(o) => match o {
                LeaderObservation::Exited => (
                    SuperviseState::Finished(RunEnd::Exited),
                    SuperviseAction::TerminateTree,
                ),
                LeaderObservation::Error => fail,
                LeaderObservation::Running => {
                    let remaining = if elapsed_ms < timeout_ms {
                        (timeout_ms - elapsed_ms) as u64
                    } else {
                        0
                    };
                    (
                        SuperviseState::Check,
                        SuperviseAction::Sleep {
                            ms: if remaining < POLL_INTERVAL_MS {
                                remaining
                            } else {
                                POLL_INTERVAL_MS
                            },
                        },
                    )
                },
            },
            _ => fail,
        },
        SuperviseState::Finished(end) => (SuperviseState::Finished(end), SuperviseAction::Stop),
    }
}

/// Decide the next step of the polling loop.
pub fn supervise_step(
    stop_on_stdout_truncation: bool,
    timeout_ms: u64,
    state: SuperviseState,
    event: SuperviseEvent,
) -> (r: (SuperviseState, SuperviseAction))
    ensures
        r == supervise_next_spec(stop_on_stdout_truncation, timeout_ms, state, event),
{
    let fail = (SuperviseState::Finished(RunEnd::Failed), SuperviseAction::TerminateTree);
    match state {
        SuperviseState::Check => match event {
            SuperviseEvent::Tick { stdout_truncated, elapsed_ms } => if stop_on_stdout_truncation
                && stdout_truncated {
                (SuperviseState::Finished(RunEnd::StdoutCapped), SuperviseAction::TerminateTree)
            } else if elapsed_ms >= timeout_ms {
                (SuperviseState::Finished(RunEnd::TimedOut), SuperviseAction::TerminateTree)
            } else {
                (SuperviseState::Observe { elapsed_ms }, SuperviseAction::ObserveLeader)
            },
            _ => fail,
        },
        SuperviseState::Observe { elapsed_ms } => match event {
            SuperviseEvent::Observed(o) => match o {
                LeaderObservation::Exited => (
                    SuperviseState::Finished(RunEnd::Exited),
                    SuperviseAction::TerminateTree,
                ),
                LeaderObservation::Error => fail,
                LeaderObservation::Running => {
                    let remaining = timeout_ms.saturating_sub(elapsed_ms);
                    let ms = if remaining < POLL_INTERVAL_MS {
                        remaining
                    } else {
                        POLL_INTERVAL_MS
                    };
                    (SuperviseState::Check, SuperviseAction::Sleep { ms })
                },
            },
            _ => fail,
        },
        SuperviseState::Finished(end) => (SuperviseState::Finished(end), SuperviseAction::Stop),
    }
}

/// The state the polling loop can be in: an observation is pending only for
/// a tick before the deadline.
pub open spec fn supervise_state_ok(timeout_ms: u64, s: SuperviseState) -> bool {
    s matches SuperviseState::Observe { elapsed_ms } ==> elapsed_ms < timeout_ms
}

/// Every step keeps the loop's state well formed: an observation is pending
/// only for a tick taken before the deadline.
pub proof fn law_supervision_state_stays_ok(
    stop_on_stdout_truncation: bool,
    timeout_ms: u64,
    s: SuperviseState,
    e: SuperviseEvent,
)
    requires
        supervise_state_ok(timeout_ms, s),
    ensures
        supervise_state_ok(timeout_ms, supervise_next_spec(stop_on_stdout_truncation, timeout_ms, s, e).0),
{
}

/// Every way out of the polling loop tears the whole tree down first, and
/// a finished run stays finished.
pub proof fn law_tree_is_torn_down_on_every_exit(
    stop_on_stdout_truncation: bool,
    timeout_ms: u64,
    s: SuperviseState,
    e: SuperviseEvent,
)
    requires
        !(s is Finished),
        supervise_next_spec(stop_on_stdout_truncation, timeout_ms, s, e).0 is Finished,
    ensures
        supervise_next_spec(stop_on_stdout_truncation, timeout_ms, s, e).1 == SuperviseAction::TerminateTree,
{
}

/// The supervisor never sleeps past the deadline, nor longer than one poll
/// interval; a timeout is reported only once the deadline has elapsed, and
/// a stop on the stdout cap only when the caller asked for it.
pub proof fn law_deadline_is_hard(
    stop_on_stdout_truncation: bool,
    timeout_ms: u64,
    s: SuperviseState,
    e: SuperviseEvent,
)
    requires
        supervise_state_ok(timeout_ms, s),
        !(s is Finished),
    ensures
        ({
            let (t, a) = supervise_next_spec(stop_on_stdout_truncation, timeout_ms, s, e);
            &&& (a matches SuperviseAction::Sleep { ms } ==> (s matches SuperviseState::Observe { elapsed_ms }
                && elapsed_ms + ms <= timeout_ms && ms <= POLL_INTERVAL_MS))
            &&& (t == SuperviseState::Finished(RunEnd::TimedOut) ==> (e matches SuperviseEvent::Tick {
                elapsed_ms, .. } && elapsed_ms >= timeout_ms))
            &&& (t == SuperviseState::Finished(RunEnd::StdoutCapped) ==> stop_on_stdout_truncation)
        }),
{
}

/// What a finished run reports besides its output tails: whether the
/// leader's exit status is present, and whether the deadline elapsed. A
/// failed run reports its error instead.
pub open spec fn report_of(end: RunEnd) -> Option<(bool, bool)> {
    match end {
        RunEnd::Exited => Some((true, false)),
        RunEnd::TimedOut => Some((false, true)),
        RunEnd::StdoutCapped => Some((false, false)),
        RunEnd::Failed => None,
    }
}

/// The report of a finished run (see [`report_of`]).
pub fn run_report(end: RunEnd) -> (r: Option<(bool, bool)>)
    ensures
        r == report_of(end),
{
    match end {
        RunEnd::Exited => Some((true, false)),
        RunEnd::TimedOut => Some((false, true)),
        RunEnd::StdoutCapped => Some((false, false)),
        RunEnd::Failed => None,
    }
}

/// A byte count as a saturating `usize` counter holds it.
pub open spec fn min_count(n: nat) -> nat {
    if n > usize::MAX {
        usize::MAX as nat
    } else {
        n
    }
}

/// The output of a bounded command as a whole. Each stream, drained into a
/// tail of its capacity in whatever chunks the pipe delivered, keeps the
/// newest `capacity` bytes of all it produced and is marked truncated
/// exactly when it produced more (for every capacity, when more than the
/// capacity was counted, the count saturating at `usize::MAX`); a run that
/// timed out reports no exit status, and only a run whose leader exited
/// reports one.
pub proof fn law_bounded_output(
    stdout_chunks: Seq<Seq<u8>>,
    stderr_chunks: Seq<Seq<u8>>,
    options: BoundedCommandOptions,
    end: RunEnd,
)
    ensures
        tail_after(stdout_chunks, options.stdout_bytes as nat).0 == keep_newest(
            flatten_chunks(stdout_chunks),
            options.stdout_bytes as nat,
        ),
        options.stdout_bytes < usize::MAX ==> ((tail_after(stdout_chunks, options.stdout_bytes as nat).1
            > options.stdout_bytes) == (flatten_chunks(stdout_chunks).len() > options.stdout_bytes)),
        tail_after(stderr_chunks, options.stderr_bytes as nat).0 == keep_newest(
            flatten_chunks(stderr_chunks),
            options.stderr_bytes as nat,
        ),
        options.stderr_bytes < usize::MAX ==> ((tail_after(stderr_chunks, options.stderr_bytes as nat).1
            > options.stderr_bytes) == (flatten_chunks(stderr_chunks).len() > options.stderr_bytes)),
        (tail_after(stdout_chunks, options.stdout_bytes as nat).1 > options.stdout_bytes) == (min_count(
            flatten_chunks(stdout_chunks).len(),
        ) > options.stdout_bytes),
        (tail_after(stderr_chunks, options.stderr_bytes as nat).1 > options.stderr_bytes) == (min_count(
            flatten_chunks(stderr_chunks).len(),
        ) > options.stderr_bytes),
        report_of(end) matches Some((has_status, timed_out)) ==> (timed_out ==> !has_status) && (
        has_status <==> end == RunEnd::Exited),
{
    law_tail_is_the_newest_bytes(stdout_chunks, options.stdout_bytes as nat);
    law_tail_is_the_newest_bytes(stderr_chunks, options.stderr_bytes as nat);
}

} // verus!
