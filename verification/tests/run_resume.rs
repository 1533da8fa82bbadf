use umadev::run_resume::{
    continue_decision, continue_start, ContinueAction, ContinueHint, ContinueInputs, ContinueRefusal,
    ContinueStart, RearmOutcome,
};

fn idle() -> ContinueInputs {
    ContinueInputs {
        rearm: RearmOutcome::NothingToRearm,
        terminal_reason: false,
        active_gate: false,
        paused_or_aborted: false,
        has_resumable_run: false,
        plan_blocks_director: false,
        busy: false,
        run_started: false,
        finished: false,
        has_resume_target: false,
        chat_session_resumable: false,
    }
}

#[test]
fn refusals_come_before_rearming() {
    assert_eq!(
        continue_start(true, true, true),
        ContinueStart::Refused(ContinueRefusal::ReplayedHostGitOperation)
    );
    assert_eq!(continue_start(false, true, true), ContinueStart::Refused(ContinueRefusal::PlanMode));
    assert_eq!(continue_start(false, false, true), ContinueStart::RearmReview);
    assert_eq!(continue_start(false, true, false), ContinueStart::RearmReview);
}

#[test]
fn cancelled_run_stays_terminal() {
    let i = ContinueInputs { terminal_reason: true, rearm: RearmOutcome::Rearmed, active_gate: true, ..idle() };
    assert_eq!(continue_decision(i), ContinueAction::Terminal);
    let i = ContinueInputs { rearm: RearmOutcome::Failed, terminal_reason: true, ..idle() };
    assert_eq!(continue_decision(i), ContinueAction::RearmFailed);
}

#[test]
fn rearmed_review_resumes_before_any_gate() {
    let i = ContinueInputs { rearm: RearmOutcome::Rearmed, active_gate: true, ..idle() };
    assert_eq!(continue_decision(i), ContinueAction::ResumeRearmed);
    let i = ContinueInputs { active_gate: true, busy: true, ..idle() };
    assert_eq!(continue_decision(i), ContinueAction::ApproveGate);
}

#[test]
fn parked_run_resumes_unless_plan_mode_refuses() {
    let i = ContinueInputs { paused_or_aborted: true, has_resumable_run: true, ..idle() };
    assert_eq!(continue_decision(i), ContinueAction::ResumeRun);
    let i = ContinueInputs { plan_blocks_director: true, ..i };
    assert_eq!(continue_decision(i), ContinueAction::RefuseInPlan);
    let i = ContinueInputs { has_resume_target: true, ..idle() };
    assert_eq!(continue_decision(i), ContinueAction::ResumeRun);
}

#[test]
fn busy_chat_and_hints() {
    assert_eq!(continue_decision(ContinueInputs { busy: true, ..idle() }), ContinueAction::StillRunning);
    assert_eq!(
        continue_decision(ContinueInputs { chat_session_resumable: true, ..idle() }),
        ContinueAction::ResumeChat
    );
    assert_eq!(
        continue_decision(ContinueInputs { run_started: true, ..idle() }),
        ContinueAction::Hint(ContinueHint::Running)
    );
    assert_eq!(
        continue_decision(ContinueInputs { finished: true, ..idle() }),
        ContinueAction::Hint(ContinueHint::Finished)
    );
    assert_eq!(continue_decision(idle()), ContinueAction::Hint(ContinueHint::NotStarted));
}
