//! Bounded retry of transient Windows filesystem denials.
//!
//! An antivirus scanner, search indexer or a just-closing handle can briefly
//! deny a managed-path operation with a sharing, lock or access-denied error.
//! Only those denials are retried, for a bounded interval; elsewhere every
//! outcome is final. A retry never changes an operation's own success or its
//! terminal error.

use vstd::prelude::*;

verus! {

/// How long transient denials are retried, in milliseconds.
pub const RETRY_FOR_MS: u64 = 2000;

/// What one attempt of a filesystem operation returned.
#[derive(Debug, Clone, Copy, PartialEq, Eq, Structural)]
pub enum Attempt {
    Succeeded,
    /// Failed, with the native error code when there is one.
    Failed(Option<i32>),
}

/// What to do after an attempt.
#[derive(Debug, Clone, Copy, PartialEq, Eq, Structural)]
pub enum RetryStep {
    /// Return the attempt's own outcome.
    Finish,
    /// Sleep briefly and attempt again.
    Retry,
}

/// The native codes of a transient denial: access denied, a sharing
/// violation, a lock violation.
pub open spec fn is_transient_denial(code: i32) -> bool {
    code == 5 || code == 32 || code == 33
}

/// Whether to retry an attempt: only on Windows, only a transient denial,
/// and only while the retry interval has not elapsed.
pub fn retry_transient(windows: bool, attempt: Attempt, elapsed_ms: u64) -> (s: RetryStep)
    ensures
        s == RetryStep::Retry <==> (windows && (attempt matches Attempt::Failed(Some(code))
            && is_transient_denial(code)) && elapsed_ms < RETRY_FOR_MS),
{
    if !windows || elapsed_ms >= RETRY_FOR_MS {
        return RetryStep::Finish;
    }
    match attempt {
        Attempt::Failed(Some(code)) => if code == 5 || code == 32 || code == 33 {
            RetryStep::Retry
        } else {
            RetryStep::Finish
        },
        _ => RetryStep::Finish,
    }
}

} // verus!
