use umadev::supervise::{
    run_report, supervise_step, BoundedCommandOptions, LeaderObservation, RunEnd,
    SuperviseAction, SuperviseEvent, SuperviseState, POLL_INTERVAL_MS,
};

fn tick(truncated: bool, elapsed_ms: u64) -> SuperviseEvent {
    SuperviseEvent::Tick {
        stdout_truncated: truncated,
        elapsed_ms,
    }
}

#[test]
fn default_limits_match_the_documented_budget() {
    let options = BoundedCommandOptions::default();
    assert_eq!(options.timeout_ms, 30_000);
    assert_eq!(options.stdout_bytes, 256 * 1024);
    assert_eq!(options.stderr_bytes, 256 * 1024);
    assert_eq!(options.reader_grace_ms, 1_000);
}

#[test]
fn a_running_leader_is_polled_without_passing_the_deadline() {
    let (state, action) = supervise_step(false, 100, SuperviseState::Check, tick(false, 10));
    assert_eq!(state, SuperviseState::Observe { elapsed_ms: 10 });
    assert_eq!(action, SuperviseAction::ObserveLeader);
    let (state, action) = supervise_step(
        false,
        100,
        state,
        SuperviseEvent::Observed(LeaderObservation::Running),
    );
    assert_eq!(state, SuperviseState::Check);
    assert_eq!(action, SuperviseAction::Sleep { ms: POLL_INTERVAL_MS });
    // Close to the deadline the sleep shrinks to what is left.
    let (state, _) = supervise_step(false, 100, SuperviseState::Check, tick(false, 98));
    let (_, action) = supervise_step(
        false,
        100,
        state,
        SuperviseEvent::Observed(LeaderObservation::Running),
    );
    assert_eq!(action, SuperviseAction::Sleep { ms: 2 });
}

#[test]
fn bounded_command_timeout_returns_no_status_and_kills_the_tree() {
    let (state, action) = supervise_step(false, 100, SuperviseState::Check, tick(false, 100));
    assert_eq!(state, SuperviseState::Finished(RunEnd::TimedOut));
    assert_eq!(action, SuperviseAction::TerminateTree);
    assert_eq!(run_report(RunEnd::TimedOut), Some((false, true)));
}

#[test]
fn strict_stdout_cap_stops_a_flood_only_when_requested() {
    let (state, action) = supervise_step(true, 100, SuperviseState::Check, tick(true, 1));
    assert_eq!(state, SuperviseState::Finished(RunEnd::StdoutCapped));
    assert_eq!(action, SuperviseAction::TerminateTree);
    assert_eq!(run_report(RunEnd::StdoutCapped), Some((false, false)));
    let (state, _) = supervise_step(false, 100, SuperviseState::Check, tick(true, 1));
    assert_eq!(state, SuperviseState::Observe { elapsed_ms: 1 });
    // The cap wins over an elapsed deadline when both hold.
    let (state, _) = supervise_step(true, 100, SuperviseState::Check, tick(true, 500));
    assert_eq!(state, SuperviseState::Finished(RunEnd::StdoutCapped));
}

#[test]
fn exit_and_observation_failure_both_tear_down_the_tree() {
    let observe = SuperviseState::Observe { elapsed_ms: 3 };
    let (state, action) = supervise_step(
        false,
        100,
        observe,
        SuperviseEvent::Observed(LeaderObservation::Exited),
    );
    assert_eq!(state, SuperviseState::Finished(RunEnd::Exited));
    assert_eq!(action, SuperviseAction::TerminateTree);
    assert_eq!(run_report(RunEnd::Exited), Some((true, false)));
    let (state, action) = supervise_step(
        false,
        100,
        observe,
        SuperviseEvent::Observed(LeaderObservation::Error),
    );
    assert_eq!(state, SuperviseState::Finished(RunEnd::Failed));
    assert_eq!(action, SuperviseAction::TerminateTree);
    assert_eq!(run_report(RunEnd::Failed), None);
    let (state, action) = supervise_step(false, 100, state, tick(false, 4));
    assert_eq!(state, SuperviseState::Finished(RunEnd::Failed));
    assert_eq!(action, SuperviseAction::Stop);
}
