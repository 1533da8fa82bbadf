use umadev::clipboard_helper::{
    after_poll, after_write, evicts_oldest_owner, helper_deadline, helper_may_start, may_dispatch,
    FeedbackBoard, FeedbackKind, HelperAction, HelperLifetime, HelperPoll, HelperProgress,
    WriterSignal, HELPER_DEADLINE_MS, HELPER_POLL_MS, SELECTION_OWNER_SETTLE_MS,
};

fn fresh() -> HelperProgress {
    HelperProgress { wrote: None, wrote_at_ms: None }
}

#[test]
fn complete_write_is_recorded_with_its_time() {
    let (p, alive) = after_write(fresh(), WriterSignal::Done(true), 120);
    assert!(alive);
    assert_eq!(p, HelperProgress { wrote: Some(true), wrote_at_ms: Some(120) });
    let (q, alive) = after_write(p, WriterSignal::Gone, 130);
    assert!(alive);
    assert_eq!(q, p);
}

#[test]
fn failed_or_vanished_writer_fails_the_copy() {
    assert!(!after_write(fresh(), WriterSignal::Done(false), 5).1);
    assert!(!after_write(fresh(), WriterSignal::Gone, 5).1);
    let (p, alive) = after_write(fresh(), WriterSignal::Pending, 5);
    assert!(alive);
    assert_eq!(p, fresh());
}

#[test]
fn exit_helper_succeeds_only_after_a_complete_write_and_clean_exit() {
    let written = HelperProgress { wrote: Some(true), wrote_at_ms: Some(10) };
    assert_eq!(after_poll(written, HelperLifetime::Exit, HelperPoll::Exited(true), 20, 500), HelperAction::Succeed);
    assert_eq!(after_poll(written, HelperLifetime::Exit, HelperPoll::Exited(false), 20, 500), HelperAction::Fail);
    assert_eq!(
        after_poll(fresh(), HelperLifetime::Exit, HelperPoll::Exited(true), 20, 500),
        HelperAction::Sleep(HELPER_POLL_MS)
    );
    assert_eq!(
        after_poll(written, HelperLifetime::Exit, HelperPoll::Running, 200, 500),
        HelperAction::Sleep(HELPER_POLL_MS)
    );
}

#[test]
fn selection_owner_succeeds_after_settling() {
    let written = HelperProgress { wrote: Some(true), wrote_at_ms: Some(100) };
    let settled = 100 + SELECTION_OWNER_SETTLE_MS;
    assert_eq!(
        after_poll(written, HelperLifetime::SelectionOwner, HelperPoll::Running, settled - 1, 500),
        HelperAction::Sleep(HELPER_POLL_MS)
    );
    assert_eq!(
        after_poll(written, HelperLifetime::SelectionOwner, HelperPoll::Running, settled, 500),
        HelperAction::Succeed
    );
}

#[test]
fn poll_failure_fails_the_copy() {
    assert_eq!(after_poll(fresh(), HelperLifetime::SelectionOwner, HelperPoll::Failed, 0, 500), HelperAction::Fail);
}

#[test]
fn shared_deadline_is_hard() {
    assert_eq!(after_poll(fresh(), HelperLifetime::Exit, HelperPoll::Running, 500, 500), HelperAction::Fail);
    assert_eq!(after_poll(fresh(), HelperLifetime::Exit, HelperPoll::Running, 498, 500), HelperAction::Sleep(2));
    assert!(helper_may_start(499, 500));
    assert!(!helper_may_start(500, 500));
    assert_eq!(helper_deadline(1_000), 1_000 + HELPER_DEADLINE_MS);
    assert_eq!(helper_deadline(u64::MAX), u64::MAX);
}

#[test]
fn worker_and_owner_limits() {
    assert!(may_dispatch(15));
    assert!(!may_dispatch(16));
    assert!(!evicts_oldest_owner(7));
    assert!(evicts_oldest_owner(8));
}

#[test]
fn older_copy_never_overwrites_a_newer_result() {
    let mut board = FeedbackBoard::new();
    let older = board.begin_operation();
    let newer = board.begin_operation();
    assert_ne!(older, newer);
    board.publish(older, FeedbackKind::Failed, 0, 1_000);
    assert_eq!(board.shown(10), None);
    board.publish(newer, FeedbackKind::Copied(3), 0, 1_000);
    assert_eq!(board.shown(10), Some(FeedbackKind::Copied(3)));
}

#[test]
fn feedback_redraws_once_and_expires() {
    let mut board = FeedbackBoard::new();
    let generation = board.begin_operation();
    assert_eq!(generation, 1);
    board.publish(generation, FeedbackKind::TooLarge, 100, 50);
    assert!(board.take_redraw(110));
    assert!(!board.take_redraw(120));
    assert_eq!(board.shown(149), Some(FeedbackKind::TooLarge));
    assert!(board.take_redraw(150));
    assert_eq!(board.shown(150), None);
    assert!(!board.take_redraw(160));
}

#[test]
fn beginning_a_copy_clears_the_shown_result() {
    let mut board = FeedbackBoard::new();
    let generation = board.begin_operation();
    board.publish(generation, FeedbackKind::Copied(1), 0, 1_000);
    board.begin_operation();
    assert_eq!(board.shown(1), None);
}
