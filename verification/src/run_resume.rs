//! What `/continue` does with a parked, gated or finished run.
//!
//! It is decided in two steps. [`continue_start`] runs before anything
//! durable changes and may refuse outright. Otherwise the caller re-arms the
//! operational review, gathers the facts of [`ContinueInputs`], and
//! [`continue_decision`] picks the action.

use vstd::prelude::*;

verus! {

/// Why `/continue` stops before touching any state.
#[derive(Debug, Clone, Copy, PartialEq, Eq, Structural)]
pub enum ContinueRefusal {
    /// The resume would replay a host Git operation that must not repeat.
    ReplayedHostGitOperation,
    /// Plan mode does not re-arm a durable resume cursor.
    PlanMode,
}

/// The first step of `/continue`.
#[derive(Debug, Clone, Copy, PartialEq, Eq, Structural)]
pub enum ContinueStart {
    /// Stop; nothing was changed.
    Refused(ContinueRefusal),
    /// Re-arm the operational review for this explicit retry, then decide.
    RearmReview,
}

/// The first step of `/continue`, from whether the replay guard refused,
/// whether a run can be resumed from a saved cursor, and whether the
/// effective trust mode is plan mode.
pub open spec fn continue_start_spec(replay_rejected: bool, has_resume_target: bool, plan_mode: bool) -> ContinueStart {
    if replay_rejected {
        ContinueStart::Refused(ContinueRefusal::ReplayedHostGitOperation)
    } else if has_resume_target && plan_mode {
        ContinueStart::Refused(ContinueRefusal::PlanMode)
    } else {
        ContinueStart::RearmReview
    }
}

/// Decide the first step (see [`continue_start_spec`]).
pub fn continue_start(replay_rejected: bool, has_resume_target: bool, plan_mode: bool) -> (s: ContinueStart)
    ensures
        s == continue_start_spec(replay_rejected, has_resume_target, plan_mode),
{
    if replay_rejected {
        ContinueStart::Refused(ContinueRefusal::ReplayedHostGitOperation)
    } else if has_resume_target && plan_mode {
        ContinueStart::Refused(ContinueRefusal::PlanMode)
    } else {
        ContinueStart::RearmReview
    }
}

/// What re-arming the operational review gave.
#[derive(Debug, Clone, Copy, PartialEq, Eq, Structural)]
pub enum RearmOutcome {
    /// A review circuit was re-armed: the durable cursor is resumed.
    Rearmed,
    /// There was nothing to re-arm.
    NothingToRearm,
    /// Re-arming failed; its reason is shown.
    Failed,
}

/// The facts `/continue` decides from, read after re-arming.
#[derive(Debug, Clone, Copy, PartialEq, Eq, Structural)]
pub struct ContinueInputs {
    pub rearm: RearmOutcome,
    /// An explicit cancellation left a terminal reason: it stays terminal.
    pub terminal_reason: bool,
    /// A run gate waits for approval.
    pub active_gate: bool,
    /// The run parked at its budget, or was aborted.
    pub paused_or_aborted: bool,
    /// A resumable run is on disk.
    pub has_resumable_run: bool,
    /// The plan-mode guard refuses director execution.
    pub plan_blocks_director: bool,
    /// Work that can be interrupted is running, or the base is thinking.
    pub busy: bool,
    pub run_started: bool,
    pub finished: bool,
    /// A run can be resumed from a saved cursor.
    pub has_resume_target: bool,
    /// A host chat session is active and has an id.
    pub chat_session_resumable: bool,
}

/// The hint shown when nothing is resumed.
#[derive(Debug, Clone, Copy, PartialEq, Eq, Structural)]
pub enum ContinueHint {
    Running,
    Finished,
    NotStarted,
}

/// What `/continue` does.
#[derive(Debug, Clone, Copy, PartialEq, Eq, Structural)]
pub enum ContinueAction {
    /// Show why re-arming failed; nothing else.
    RearmFailed,
    /// Show the terminal reason; a cancelled cursor is never resurrected.
    Terminal,
    /// Drop any stale presentation gate and resume the re-armed run.
    ResumeRearmed,
    /// Approve the waiting gate and continue past it.
    ApproveGate,
    /// Refuse: plan mode does not resume director execution.
    RefuseInPlan,
    /// Resume the parked run.
    ResumeRun,
    /// Say that work is still running.
    StillRunning,
    /// Route the chat-continue directive to the live chat session.
    ResumeChat,
    /// Nothing to resume: show where things stand.
    Hint(ContinueHint),
}

/// The decision of `/continue`, rule by rule in priority order.
pub open spec fn continue_spec(i: ContinueInputs) -> ContinueAction {
    if i.rearm == RearmOutcome::Failed {
        ContinueAction::RearmFailed
    } else if i.terminal_reason {
        ContinueAction::Terminal
    } else if i.rearm == RearmOutcome::Rearmed {
        ContinueAction::ResumeRearmed
    } else if i.active_gate {
        ContinueAction::ApproveGate
    } else if i.paused_or_aborted && i.has_resumable_run {
        if i.plan_blocks_director {
            ContinueAction::RefuseInPlan
        } else {
            ContinueAction::ResumeRun
        }
    } else if i.busy {
        ContinueAction::StillRunning
    } else if !i.run_started && i.has_resume_target {
        if i.plan_blocks_director {
            ContinueAction::RefuseInPlan
        } else {
            ContinueAction::ResumeRun
        }
    } else if !i.run_started && !i.finished && i.chat_session_resumable {
        ContinueAction::ResumeChat
    } else if i.run_started && !i.finished {
        ContinueAction::Hint(ContinueHint::Running)
    } else if i.finished {
        ContinueAction::Hint(ContinueHint::Finished)
    } else {
        ContinueAction::Hint(ContinueHint::NotStarted)
    }
}

/// Decide `/continue` (see [`continue_spec`]).
pub fn continue_decision(i: ContinueInputs) -> (a: ContinueAction)
    ensures
        a == continue_spec(i),
{
    if i.rearm == RearmOutcome::Failed {
        ContinueAction::RearmFailed
    } else if i.terminal_reason {
        ContinueAction::Terminal
    } else if i.rearm == RearmOutcome::Rearmed {
        ContinueAction::ResumeRearmed
    } else if i.active_gate {
        ContinueAction::ApproveGate
    } else if i.paused_or_aborted && i.has_resumable_run {
        if i.plan_blocks_director {
            ContinueAction::RefuseInPlan
        } else {
            ContinueAction::ResumeRun
        }
    } else if i.busy {
        ContinueAction::StillRunning
    } else if !i.run_started && i.has_resume_target {
        if i.plan_blocks_director {
            ContinueAction::RefuseInPlan
        } else {
            ContinueAction::ResumeRun
        }
    } else if !i.run_started && !i.finished && i.chat_session_resumable {
        ContinueAction::ResumeChat
    } else if i.run_started && !i.finished {
        ContinueAction::Hint(ContinueHint::Running)
    } else if i.finished {
        ContinueAction::Hint(ContinueHint::Finished)
    } else {
        ContinueAction::Hint(ContinueHint::NotStarted)
    }
}

/// `/continue` never resurrects a cancelled run, never resumes a parked run
/// while plan mode refuses director execution, approves only a gate that
/// waits, and resumes a parked run only when one is on disk or a saved
/// cursor exists.
pub proof fn law_continue_is_guarded(i: ContinueInputs)
    ensures
        i.terminal_reason ==> continue_spec(i) == ContinueAction::RearmFailed || continue_spec(i)
            == ContinueAction::Terminal,
        continue_spec(i) == ContinueAction::ResumeRun ==> !i.plan_blocks_director && ((
        i.paused_or_aborted && i.has_resumable_run) || (!i.run_started && i.has_resume_target)),
        continue_spec(i) == ContinueAction::ApproveGate ==> i.active_gate,
        continue_spec(i) == ContinueAction::ResumeRearmed ==> i.rearm == RearmOutcome::Rearmed,
{
}

/// Nothing durable is re-armed when the replay guard refuses, or when plan
/// mode meets a resumable cursor.
pub proof fn law_refusal_precedes_rearming(replay_rejected: bool, has_resume_target: bool, plan_mode: bool)
    ensures
        replay_rejected ==> continue_start_spec(replay_rejected, has_resume_target, plan_mode) is Refused,
        has_resume_target && plan_mode ==> continue_start_spec(replay_rejected, has_resume_target, plan_mode)
            is Refused,
{
}

/// A session that is still working is told so: with no failed or
/// successful re-arm, no terminal reason and no waiting gate, busy work
/// that is not a parked run with a resumable run on disk answers
/// `StillRunning`, whatever else holds; in particular a resumable run on
/// disk is not resumed under a run that is neither paused nor aborted.
pub proof fn law_busy_session_is_not_resumed(i: ContinueInputs)
    ensures
        i.rearm == RearmOutcome::NothingToRearm && !i.terminal_reason && !i.active_gate && i.busy && !(
        i.paused_or_aborted && i.has_resumable_run) ==> continue_spec(i) == ContinueAction::StillRunning,
        i.rearm == RearmOutcome::NothingToRearm && !i.terminal_reason && !i.active_gate && i.busy
            && !i.paused_or_aborted ==> continue_spec(i) != ContinueAction::ResumeRun,
{
}

} // verus!
