//! The decisions of a native clipboard copy: the polling loop that supervises
//! one clipboard helper under a shared deadline, and the feedback board that
//! shows the outcome of the most recent copy.
//!
//! The caller spawns the helper, writes the payload from a separate thread
//! (a helper that never reads stdin must not block the caller), and polls.
//! A copy succeeds only once the whole payload was written and the helper
//! confirmed it: an exit-style helper by exiting successfully, a selection
//! owner (which keeps serving the selection) by staying alive a short while
//! after the write. Every helper of one copy shares one deadline.

use vstd::prelude::*;

verus! {

/// One deadline for every helper a copy tries, in milliseconds.
pub const HELPER_DEADLINE_MS: u64 = 500;

/// How long the loop sleeps between polls, at most.
pub const HELPER_POLL_MS: u64 = 5;

/// How long a selection owner must stay alive after the write.
pub const SELECTION_OWNER_SETTLE_MS: u64 = 50;

/// At most this many copies may be in flight.
pub const MAX_CLIPBOARD_WORKERS: usize = 16;

/// At most this many selection owners are kept serving; the oldest goes.
pub const MAX_SELECTION_OWNERS: usize = 8;

/// How a helper behaves once it has the payload.
#[derive(Clone, Copy, Debug, PartialEq, Eq, Structural)]
pub enum HelperLifetime {
    /// It exits when done (`pbcopy`, the WSL bridge). It may not daemonize.
    Exit,
    /// It keeps serving the selection (`wl-copy`, `xclip`, `xsel`).
    SelectionOwner,
}

/// What the writer thread said since the last poll.
#[derive(Clone, Copy, Debug, PartialEq, Eq, Structural)]
pub enum WriterSignal {
    /// Nothing yet.
    Pending,
    /// It finished: whether the whole payload was written.
    Done(bool),
    /// It vanished without saying.
    Gone,
}

/// What polling the helper reported.
#[derive(Clone, Copy, Debug, PartialEq, Eq, Structural)]
pub enum HelperPoll {
    /// It exited: whether successfully.
    Exited(bool),
    Running,
    /// The poll itself failed.
    Failed,
}

/// What the loop knows about the write.
#[derive(Clone, Copy, Debug, PartialEq, Eq, Structural)]
pub struct HelperProgress {
    /// The writer's verdict, once given.
    pub wrote: Option<bool>,
    /// When a complete write was reported, in milliseconds.
    pub wrote_at_ms: Option<u64>,
}

/// What the loop does next.
#[derive(Clone, Copy, Debug, PartialEq, Eq, Structural)]
pub enum HelperAction {
    /// Give up: tear the helper's tree down and report failure.
    Fail,
    /// The copy is committed.
    Succeed,
    /// Sleep this long, then poll again.
    Sleep(u64),
}

/// A completion time is only ever recorded for a complete write.
pub open spec fn progress_ok(p: HelperProgress) -> bool {
    p.wrote_at_ms is Some ==> p.wrote == Some(true)
}

/// Fold the writer's signal in; the second component says whether the copy
/// can still succeed.
pub open spec fn after_write_spec(p: HelperProgress, signal: WriterSignal, now_ms: u64) -> (HelperProgress, bool) {
    let q = match signal {
        WriterSignal::Pending => p,
        WriterSignal::Done(all) => HelperProgress {
            wrote: Some(all),
            wrote_at_ms: if all {
                Some(now_ms)
            } else {
                p.wrote_at_ms
            },
        },
        WriterSignal::Gone => if p.wrote is None {
            HelperProgress { wrote: Some(false), ..p }
        } else {
            p
        },
    };
    (q, q.wrote != Some(false))
}

/// Out of time, or sleep until the next poll (never past the deadline).
pub open spec fn wait_or_fail(now_ms: u64, deadline_ms: u64) -> HelperAction {
    if now_ms >= deadline_ms {
        HelperAction::Fail
    } else if deadline_ms - now_ms < HELPER_POLL_MS {
        HelperAction::Sleep((deadline_ms - now_ms) as u64)
    } else {
        HelperAction::Sleep(HELPER_POLL_MS)
    }
}

/// A selection owner that has stayed alive long enough after the write.
pub open spec fn settled(p: HelperProgress, now_ms: u64) -> bool {
    match p.wrote_at_ms {
        Some(at) => now_ms >= at && now_ms - at >= SELECTION_OWNER_SETTLE_MS,
        None => false,
    }
}

/// Decide from a poll of the helper.
pub open spec fn after_poll_spec(
    p: HelperProgress,
    lifetime: HelperLifetime,
    poll: HelperPoll,
    now_ms: u64,
    deadline_ms: u64,
) -> HelperAction {
    match poll {
        HelperPoll::Exited(false) => HelperAction::Fail,
        HelperPoll::Exited(true) => if p.wrote == Some(true) {
            HelperAction::Succeed
        } else {
            wait_or_fail(now_ms, deadline_ms)
        },
        HelperPoll::Running => if lifetime == HelperLifetime::SelectionOwner && settled(p, now_ms) {
            HelperAction::Succeed
        } else {
            wait_or_fail(now_ms, deadline_ms)
        },
        HelperPoll::Failed => HelperAction::Fail,
    }
}

/// Whether a helper may still be started before the shared deadline.
pub fn helper_may_start(now_ms: u64, deadline_ms: u64) -> (b: bool)
    ensures
        b == (now_ms < deadline_ms),
{
    now_ms < deadline_ms
}

/// The shared deadline of a copy that starts at `now_ms`.
pub fn helper_deadline(now_ms: u64) -> (d: u64)
    ensures
        d == if now_ms + HELPER_DEADLINE_MS > u64::MAX { now_ms as int } else { now_ms + HELPER_DEADLINE_MS },
{
    match now_ms.checked_add(HELPER_DEADLINE_MS) {
        Some(d) => d,
        None => now_ms,
    }
}

/// Fold the writer's signal in (see [`after_write_spec`]).
pub fn after_write(p: HelperProgress, signal: WriterSignal, now_ms: u64) -> (r: (HelperProgress, bool))
    ensures
        r == after_write_spec(p, signal, now_ms),
{
    let q = match signal {
        WriterSignal::Pending => p,
        WriterSignal::Done(all) => HelperProgress {
            wrote: Some(all),
            wrote_at_ms: if all {
                Some(now_ms)
            } else {
                p.wrote_at_ms
            },
        },
        WriterSignal::Gone => if p.wrote.is_none() {
            HelperProgress { wrote: Some(false), ..p }
        } else {
            p
        },
    };
    let alive = match q.wrote {
        Some(false) => false,
        _ => true,
    };
    (q, alive)
}

/// Decide from a poll of the helper (see [`after_poll_spec`]).
pub fn after_poll(
    p: HelperProgress,
    lifetime: HelperLifetime,
    poll: HelperPoll,
    now_ms: u64,
    deadline_ms: u64,
) -> (a: HelperAction)
    ensures
        a == after_poll_spec(p, lifetime, poll, now_ms, deadline_ms),
{
    let complete = match p.wrote {
        Some(true) => true,
        _ => false,
    };
    match poll {
        HelperPoll::Exited(false) => HelperAction::Fail,
        HelperPoll::Exited(true) => {
            if complete {
                HelperAction::Succeed
            } else {
                wait_or_fail_exec(now_ms, deadline_ms)
            }
        },
        HelperPoll::Running => {
            let settled = match p.wrote_at_ms {
                Some(at) => now_ms >= at && now_ms - at >= SELECTION_OWNER_SETTLE_MS,
                None => false,
            };
            if lifetime == HelperLifetime::SelectionOwner && settled {
                HelperAction::Succeed
            } else {
                wait_or_fail_exec(now_ms, deadline_ms)
            }
        },
        HelperPoll::Failed => HelperAction::Fail,
    }
}

fn wait_or_fail_exec(now_ms: u64, deadline_ms: u64) -> (a: HelperAction)
    ensures
        a == wait_or_fail(now_ms, deadline_ms),
{
    if now_ms >= deadline_ms {
        HelperAction::Fail
    } else if deadline_ms - now_ms < HELPER_POLL_MS {
        HelperAction::Sleep(deadline_ms - now_ms)
    } else {
        HelperAction::Sleep(HELPER_POLL_MS)
    }
}

/// A copy succeeds only after the whole payload was written: the writer's
/// signals keep every recorded completion time tied to a complete write,
/// and a poll succeeds only on a complete write.
pub proof fn law_success_needs_a_complete_write(
    p: HelperProgress,
    signal: WriterSignal,
    lifetime: HelperLifetime,
    poll: HelperPoll,
    now_ms: u64,
    deadline_ms: u64,
)
    requires
        progress_ok(p),
    ensures
        after_write_spec(p, signal, now_ms).1 ==> progress_ok(after_write_spec(p, signal, now_ms).0),
        after_poll_spec(p, lifetime, poll, now_ms, deadline_ms) == HelperAction::Succeed ==> p.wrote == Some(true),
{
}

/// A helper that exits unsuccessfully, or cannot be polled, fails the copy;
/// an exit-style helper succeeds only once it has exited successfully.
pub proof fn law_helper_must_confirm(
    p: HelperProgress,
    lifetime: HelperLifetime,
    poll: HelperPoll,
    now_ms: u64,
    deadline_ms: u64,
)
    ensures
        poll == HelperPoll::Exited(false) ==> after_poll_spec(p, lifetime, poll, now_ms, deadline_ms) == HelperAction::Fail,
        poll == HelperPoll::Failed ==> after_poll_spec(p, lifetime, poll, now_ms, deadline_ms) == HelperAction::Fail,
        lifetime == HelperLifetime::Exit && after_poll_spec(p, lifetime, poll, now_ms, deadline_ms)
            == HelperAction::Succeed ==> poll == HelperPoll::Exited(true),
{
}

/// The deadline is hard: once it has passed the loop never sleeps again,
/// and no sleep reaches past it or exceeds one poll interval.
pub proof fn law_deadline_is_shared_and_hard(
    p: HelperProgress,
    lifetime: HelperLifetime,
    poll: HelperPoll,
    now_ms: u64,
    deadline_ms: u64,
)
    ensures
        match after_poll_spec(p, lifetime, poll, now_ms, deadline_ms) {
            HelperAction::Sleep(ms) => now_ms < deadline_ms && 0 < ms <= HELPER_POLL_MS && now_ms + ms <= deadline_ms,
            _ => true,
        },
{
}

// ---------------------------------------------------------------------------
// Feedback board
// ---------------------------------------------------------------------------

/// The outcome a copy reports.
#[derive(Clone, Copy, Debug, PartialEq, Eq, Structural)]
pub enum FeedbackKind {
    /// Copied this many characters.
    Copied(usize),
    Failed,
    /// Too large for the terminal escape used on remote sessions.
    TooLarge,
}

/// One shown outcome.
#[derive(Clone, Copy, Debug, PartialEq, Eq, Structural)]
pub struct Feedback {
    pub generation: u64,
    pub kind: FeedbackKind,
    pub expires_at_ms: u64,
}

/// The latest copy's number, the outcome shown, and whether the screen must
/// be redrawn.
#[derive(Clone, Copy, Debug, PartialEq, Eq, Structural)]
pub struct FeedbackBoard {
    pub generation: u64,
    pub slot: Option<Feedback>,
    pub dirty: bool,
}

/// An empty board.
pub open spec fn empty_board() -> FeedbackBoard {
    FeedbackBoard { generation: 0, slot: None, dirty: false }
}

/// A new copy begins: it gets the next number and the old outcome goes.
pub open spec fn begin_spec(b: FeedbackBoard) -> (FeedbackBoard, u64) {
    let g = if b.generation == u64::MAX {
        0u64
    } else {
        (b.generation + 1) as u64
    };
    (FeedbackBoard { generation: g, slot: None, ..b }, g)
}

/// `now_ms + ttl_ms`, held at `u64::MAX`.
pub open spec fn expiry(now_ms: u64, ttl_ms: u64) -> u64 {
    if now_ms + ttl_ms > u64::MAX {
        u64::MAX
    } else {
        (now_ms + ttl_ms) as u64
    }
}

/// A copy reports its outcome; only the latest copy's report is shown.
pub open spec fn publish_spec(b: FeedbackBoard, generation: u64, kind: FeedbackKind, now_ms: u64, ttl_ms: u64) -> FeedbackBoard {
    if b.generation != generation {
        b
    } else {
        FeedbackBoard {
            slot: Some(Feedback { generation, kind, expires_at_ms: expiry(now_ms, ttl_ms) }),
            dirty: true,
            ..b
        }
    }
}

/// Whether to redraw: once after a report, and once when it expires.
pub open spec fn take_redraw_spec(b: FeedbackBoard, now_ms: u64) -> (FeedbackBoard, bool) {
    if b.dirty {
        (FeedbackBoard { dirty: false, ..b }, true)
    } else {
        match b.slot {
            Some(f) => if now_ms >= f.expires_at_ms {
                (FeedbackBoard { slot: None, ..b }, true)
            } else {
                (b, false)
            },
            None => (b, false),
        }
    }
}

/// The outcome to show now, if any; an expired or superseded one is cleared.
pub open spec fn shown_spec(b: FeedbackBoard, now_ms: u64) -> (FeedbackBoard, Option<FeedbackKind>) {
    match b.slot {
        None => (b, None),
        Some(f) => if now_ms >= f.expires_at_ms || b.generation != f.generation {
            (FeedbackBoard { slot: None, ..b }, None)
        } else {
            (b, Some(f.kind))
        },
    }
}

impl FeedbackBoard {
    /// An empty board.
    pub fn new() -> (b: Self)
        ensures
            b == empty_board(),
    {
        FeedbackBoard { generation: 0, slot: None, dirty: false }
    }

    /// Begin a copy and return its number (see [`begin_spec`]).
    pub fn begin_operation(&mut self) -> (g: u64)
        ensures
            (*final(self), g) == begin_spec(*old(self)),
    {
        let g = self.generation.wrapping_add(1);
        self.generation = g;
        self.slot = None;
        g
    }

    /// Report a copy's outcome (see [`publish_spec`]).
    pub fn publish(&mut self, generation: u64, kind: FeedbackKind, now_ms: u64, ttl_ms: u64)
        ensures
            *final(self) == publish_spec(*old(self), generation, kind, now_ms, ttl_ms),
    {
        if self.generation != generation {
            return;
        }
        self.slot = Some(Feedback { generation, kind, expires_at_ms: now_ms.saturating_add(ttl_ms) });
        self.dirty = true;
    }

    /// Whether the screen needs a redraw (see [`take_redraw_spec`]).
    pub fn take_redraw(&mut self, now_ms: u64) -> (r: bool)
        ensures
            (*final(self), r) == take_redraw_spec(*old(self), now_ms),
    {
        if self.dirty {
            self.dirty = false;
            return true;
        }
        match self.slot {
            Some(f) => {
                if now_ms >= f.expires_at_ms {
                    self.slot = None;
                    true
                } else {
                    false
                }
            },
            None => false,
        }
    }

    /// The outcome to show now (see [`shown_spec`]).
    pub fn shown(&mut self, now_ms: u64) -> (r: Option<FeedbackKind>)
        ensures
            (*final(self), r) == shown_spec(*old(self), now_ms),
    {
        match self.slot {
            None => None,
            Some(f) => {
                if now_ms >= f.expires_at_ms || self.generation != f.generation {
                    self.slot = None;
                    None
                } else {
                    Some(f.kind)
                }
            },
        }
    }
}

/// A slower, older copy never overwrites the outcome of a newer one: once a
/// newer copy has begun, the older copy's report changes nothing.
pub proof fn law_older_copy_never_overwrites(b: FeedbackBoard, kind: FeedbackKind, now_ms: u64, ttl_ms: u64)
    ensures
        ({
            let (b1, older) = begin_spec(b);
            let (b2, newer) = begin_spec(b1);
            &&& older != newer
            &&& publish_spec(b2, older, kind, now_ms, ttl_ms) == b2
        }),
{
}

/// The latest copy's report is shown until it expires, and beginning a copy
/// clears whatever was shown.
pub proof fn law_latest_report_is_shown_until_expiry(
    b: FeedbackBoard,
    kind: FeedbackKind,
    now_ms: u64,
    ttl_ms: u64,
    later_ms: u64,
)
    requires
        now_ms <= later_ms,
        later_ms < now_ms + ttl_ms,
        now_ms + ttl_ms <= u64::MAX,
    ensures
        ({
            let (b1, g) = begin_spec(b);
            &&& shown_spec(b1, later_ms).1 is None
            &&& shown_spec(publish_spec(b1, g, kind, now_ms, ttl_ms), later_ms).1 == Some(kind)
            &&& shown_spec(publish_spec(b1, g, kind, now_ms, ttl_ms), expiry(now_ms, ttl_ms)).1 is None
        }),
{
}

/// Whether another copy may be dispatched while `in_flight` are running.
pub fn may_dispatch(in_flight: usize) -> (b: bool)
    ensures
        b == (in_flight < MAX_CLIPBOARD_WORKERS),
{
    in_flight < MAX_CLIPBOARD_WORKERS
}

/// Whether registering one more selection owner first ends the oldest of
/// the `live` ones.
pub fn evicts_oldest_owner(live: usize) -> (b: bool)
    ensures
        b == (live >= MAX_SELECTION_OWNERS),
{
    live >= MAX_SELECTION_OWNERS
}

} // verus!
