use umadev::process_tree::{LeaderCheck, PollStep, StdCommandTree, TerminateStep};

#[test]
fn fresh_tree_verifies_before_signalling() {
    let mut tree = StdCommandTree::attach(4242);
    assert_eq!(tree.pid(), 4242);
    assert!(tree.can_verify_leader());
    assert_eq!(tree.terminate_begin(), TerminateStep::VerifyLeader);
    assert!(tree.terminate_signal(true));
    assert!(!tree.can_verify_leader());
}

#[test]
fn failed_verification_never_signals() {
    let mut tree = StdCommandTree::attach(4242);
    assert_eq!(tree.terminate_begin(), TerminateStep::VerifyLeader);
    assert!(!tree.terminate_signal(false));
}

#[test]
fn termination_is_idempotent() {
    let mut tree = StdCommandTree::attach(7);
    assert_eq!(tree.terminate_begin(), TerminateStep::VerifyLeader);
    assert!(tree.terminate_signal(true));
    assert_eq!(tree.terminate_begin(), TerminateStep::AlreadyTerminated);
    assert!(!tree.terminate_signal(true));
    assert!(!tree.drop_checks());
    assert!(!tree.drop_signals(true));
}

#[test]
fn lost_identity_is_permanent() {
    let mut tree = StdCommandTree::attach(7);
    assert_eq!(tree.poll(LeaderCheck::Failed), PollStep::PollDirectChild);
    assert!(!tree.can_verify_leader());
    assert!(!tree.drop_signals(true));
    assert_eq!(tree.terminate_begin(), TerminateStep::SkipGroup);
    assert!(!tree.terminate_signal(true));
}

#[test]
fn poll_outcomes() {
    let mut tree = StdCommandTree::attach(7);
    assert_eq!(tree.poll(LeaderCheck::Running), PollStep::StillRunning);
    assert!(tree.can_verify_leader());
    assert_eq!(tree.poll(LeaderCheck::Exited), PollStep::TerminateThenWait);
    assert!(tree.can_verify_leader());
}

#[test]
fn retained_tree_is_left_alone() {
    let mut tree = StdCommandTree::attach(7);
    tree.retain_descendants();
    assert!(!tree.drop_checks());
    assert!(!tree.drop_signals(true));
    assert_eq!(tree.terminate_begin(), TerminateStep::AlreadyTerminated);
}

#[test]
fn unterminated_tree_is_signalled_on_drop_only_after_proof() {
    let tree = StdCommandTree::attach(7);
    assert!(tree.drop_checks());
    assert!(tree.drop_signals(true));
    assert!(!tree.drop_signals(false));
}

#[test]
fn pid_beyond_pid_t_is_never_signalled() {
    let mut tree = StdCommandTree::attach(u32::MAX);
    assert_eq!(tree.terminate_begin(), TerminateStep::VerifyLeader);
    assert!(!tree.terminate_signal(true));
    let tree = StdCommandTree::attach(0x8000_0000);
    assert!(!tree.drop_signals(true));
    let tree = StdCommandTree::attach(0x7fff_ffff);
    assert!(tree.drop_signals(true));
}
