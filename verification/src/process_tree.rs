//! Whole-tree ownership of a short synchronous helper on Unix: when its
//! numeric process group may be signalled.
//!
//! A process group is named by its leader's PID. Once the leader has been
//! reaped, that number can be reused by an unrelated group, so the group may
//! be signalled only right after a non-consuming wait (`waitid` with
//! `WNOWAIT`) proved that the leader is still our child, live or an unreaped
//! zombie. Once that proof fails, group signalling is disabled for good. The
//! caller makes the OS calls; this guard decides.

use vstd::prelude::*;

verus! {

/// The guard of one helper's process tree.
#[derive(Debug)]
pub struct StdCommandTree {
    pid: u32,
    group_signal_safe: bool,
    terminated: bool,
}

/// A guard as a plain value.
#[derive(Clone, Copy, Debug, PartialEq, Eq, Structural)]
pub struct TreeGuard {
    /// The leader's PID, which also names its process group.
    pub pid: u32,
    /// The group's identity is still provable.
    pub group_signal_safe: bool,
    /// The tree was terminated, or deliberately left running.
    pub terminated: bool,
}

impl View for StdCommandTree {
    type V = TreeGuard;

    closed spec fn view(&self) -> TreeGuard {
        TreeGuard { pid: self.pid, group_signal_safe: self.group_signal_safe, terminated: self.terminated }
    }
}

/// What terminating the tree does first.
#[derive(Clone, Copy, Debug, PartialEq, Eq, Structural)]
pub enum TerminateStep {
    /// It was terminated already: nothing more to do.
    AlreadyTerminated,
    /// Check the leader without consuming it, then report the check.
    VerifyLeader,
    /// The group can no longer be named: report an unverified leader.
    SkipGroup,
}

/// What a non-consuming wait on the leader reported.
#[derive(Clone, Copy, Debug, PartialEq, Eq, Structural)]
pub enum LeaderCheck {
    /// Still running.
    Running,
    /// Exited, and still unreaped.
    Exited,
    /// The wait failed, or the identity was already lost.
    Failed,
}

/// What a poll does after checking the leader.
#[derive(Clone, Copy, Debug, PartialEq, Eq, Structural)]
pub enum PollStep {
    /// No status yet.
    StillRunning,
    /// Terminate the whole tree while the leader still anchors the group,
    /// then consume its status.
    TerminateThenWait,
    /// Identity is lost: poll the owned direct child instead.
    PollDirectChild,
}

/// A PID that names a signalable group (`pid_t` is an `i32`).
pub open spec fn pid_fits(pid: u32) -> bool {
    pid <= 0x7fff_ffff
}

/// A freshly attached tree.
pub open spec fn attached(pid: u32) -> TreeGuard {
    TreeGuard { pid, group_signal_safe: true, terminated: false }
}

/// The first step of terminating.
pub open spec fn terminate_begin_spec(g: TreeGuard) -> (TreeGuard, TerminateStep) {
    if g.terminated {
        (g, TerminateStep::AlreadyTerminated)
    } else {
        (
            TreeGuard { terminated: true, ..g },
            if g.group_signal_safe {
                TerminateStep::VerifyLeader
            } else {
                TerminateStep::SkipGroup
            },
        )
    }
}

/// The second step: the group is signalled only when its identity was still
/// provable and the check just made proved it; afterwards it never is again.
pub open spec fn terminate_signal_spec(g: TreeGuard, leader_verified: bool) -> (TreeGuard, bool) {
    (TreeGuard { group_signal_safe: false, ..g }, g.group_signal_safe && leader_verified && pid_fits(g.pid))
}

/// What a poll does with the check it made (or `Failed` when it could make
/// none because the identity was lost).
pub open spec fn poll_spec(g: TreeGuard, check: LeaderCheck) -> (TreeGuard, PollStep) {
    match check {
        LeaderCheck::Running => (g, PollStep::StillRunning),
        LeaderCheck::Exited => (g, PollStep::TerminateThenWait),
        LeaderCheck::Failed => (TreeGuard { group_signal_safe: false, ..g }, PollStep::PollDirectChild),
    }
}

/// Leave the descendants running (a desktop selection owner must outlive
/// its launcher): the guard will never signal the group.
pub open spec fn retain_spec(g: TreeGuard) -> TreeGuard {
    TreeGuard { terminated: true, group_signal_safe: false, ..g }
}

/// Whether dropping an unterminated guard checks the leader at all.
pub open spec fn drop_checks_spec(g: TreeGuard) -> bool {
    !g.terminated && g.group_signal_safe
}

/// Whether dropping the guard signals the group, given the check it made.
pub open spec fn drop_signals_spec(g: TreeGuard, leader_verified: bool) -> bool {
    drop_checks_spec(g) && leader_verified && pid_fits(g.pid)
}

impl StdCommandTree {
    /// Take ownership of the tree led by `pid`, just spawned into a group of
    /// its own.
    pub fn attach(pid: u32) -> (t: Self)
        ensures
            t@ == attached(pid),
    {
        StdCommandTree { pid, group_signal_safe: true, terminated: false }
    }

    /// The leader's PID.
    pub fn pid(&self) -> (p: u32)
        ensures
            p == self@.pid,
    {
        self.pid
    }

    /// Whether a poll may check the leader: not once the identity is lost.
    pub fn can_verify_leader(&self) -> (b: bool)
        ensures
            b == self@.group_signal_safe,
    {
        self.group_signal_safe
    }

    /// Begin terminating the tree (idempotent).
    pub fn terminate_begin(&mut self) -> (step: TerminateStep)
        ensures
            (final(self)@, step) == terminate_begin_spec(old(self)@),
    {
        if self.terminated {
            return TerminateStep::AlreadyTerminated;
        }
        self.terminated = true;
        if self.group_signal_safe {
            TerminateStep::VerifyLeader
        } else {
            TerminateStep::SkipGroup
        }
    }

    /// Finish terminating: whether to signal the group, given whether the
    /// check just made proved the leader. The caller then kills the direct
    /// child either way.
    pub fn terminate_signal(&mut self, leader_verified: bool) -> (signal: bool)
        ensures
            (final(self)@, signal) == terminate_signal_spec(old(self)@, leader_verified),
    {
        let signal = self.group_signal_safe && leader_verified && self.pid <= 0x7fff_ffff;
        self.group_signal_safe = false;
        signal
    }

    /// Decide a poll from the leader check.
    pub fn poll(&mut self, check: LeaderCheck) -> (step: PollStep)
        ensures
            (final(self)@, step) == poll_spec(old(self)@, check),
    {
        match check {
            LeaderCheck::Running => PollStep::StillRunning,
            LeaderCheck::Exited => PollStep::TerminateThenWait,
            LeaderCheck::Failed => {
                self.group_signal_safe = false;
                PollStep::PollDirectChild
            },
        }
    }

    /// Stop the drop backstop without terminating the group.
    pub fn retain_descendants(&mut self)
        ensures
            final(self)@ == retain_spec(old(self)@),
    {
        self.terminated = true;
        self.group_signal_safe = false;
    }

    /// Whether dropping this guard checks the leader.
    pub fn drop_checks(&self) -> (b: bool)
        ensures
            b == drop_checks_spec(self@),
    {
        !self.terminated && self.group_signal_safe
    }

    /// Whether dropping this guard signals the group, given the check made.
    pub fn drop_signals(&self, leader_verified: bool) -> (b: bool)
        ensures
            b == drop_signals_spec(self@, leader_verified),
    {
        !self.terminated && self.group_signal_safe && leader_verified && self.pid <= 0x7fff_ffff
    }
}

/// Once the group's identity is lost it is never regained, whatever the
/// guard does next.
pub proof fn law_identity_is_never_regained(g: TreeGuard, verified: bool, check: LeaderCheck)
    requires
        !g.group_signal_safe,
    ensures
        !terminate_begin_spec(g).0.group_signal_safe,
        !terminate_signal_spec(g, verified).0.group_signal_safe,
        !poll_spec(g, check).0.group_signal_safe,
        !retain_spec(g).group_signal_safe,
        !terminate_signal_spec(g, verified).1,
        !drop_signals_spec(g, verified),
{
}

/// The group is signalled only right after a check proved its leader, while
/// its identity was still provable, and only under a PID that names it.
pub proof fn law_group_signal_needs_fresh_proof(g: TreeGuard, verified: bool)
    ensures
        terminate_signal_spec(g, verified).1 ==> verified && g.group_signal_safe && pid_fits(g.pid),
        drop_signals_spec(g, verified) ==> verified && g.group_signal_safe && !g.terminated && pid_fits(g.pid),
{
}

/// Terminating is idempotent and final: afterwards nothing signals the group
/// again, a second termination does nothing, and a poll cannot check the
/// leader.
pub proof fn law_terminated_tree_stays_quiet(g: TreeGuard, first_verified: bool, later_verified: bool)
    ensures
        ({
            let (begun, _) = terminate_begin_spec(g);
            let (done, _) = terminate_signal_spec(begun, first_verified);
            &&& done.terminated
            &&& !done.group_signal_safe
            &&& terminate_begin_spec(done) == (done, TerminateStep::AlreadyTerminated)
            &&& !terminate_signal_spec(done, later_verified).1
            &&& !drop_signals_spec(done, later_verified)
            &&& done.pid == g.pid
        }),
{
}

/// A tree left running on purpose is never signalled by its guard.
pub proof fn law_retained_tree_is_never_signalled(g: TreeGuard, verified: bool)
    ensures
        ({
            let r = retain_spec(g);
            &&& !drop_checks_spec(r)
            &&& !drop_signals_spec(r, verified)
            &&& terminate_begin_spec(r) == (r, TerminateStep::AlreadyTerminated)
            &&& !terminate_signal_spec(r, verified).1
        }),
{
}

} // verus!
