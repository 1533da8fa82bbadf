//! The values that flow between UmaDev and a "brain" (a host CLI driven as a
//! subprocess, or the offline template backend): messages, completions,
//! token usage, capabilities, stream and session events.

use vstd::prelude::*;

use crate::text::{chars_of, push_char};

verus! {

/// A single message in a runtime conversation: plain text and a role
/// (`system`, `user` or `assistant`).
#[derive(Debug, Clone)]
pub struct Message {
    pub role: String,
    pub content: String,
}

/// Approximate token usage of one turn.
///
/// A backend that does not report usage yields the default value, which is
/// marked incomplete so that it is never mistaken for an exact zero.
#[derive(Debug, Clone, Copy, PartialEq, Eq, Structural)]
pub struct Usage {
    /// Tokens consumed from the request.
    pub input_tokens: u64,
    /// Tokens produced in the response.
    pub output_tokens: u64,
    /// Tokens the turn cost in total.
    pub total_tokens: u64,
    /// Whether the backend's report is partial or missing.
    pub usage_incomplete: bool,
    /// The reported cost in ticks of a millionth of a US dollar, if any.
    pub cost_usd_ticks: Option<i64>,
}

/// The usage of a turn whose backend reported nothing.
pub open spec fn unreported_usage() -> Usage {
    Usage {
        input_tokens: 0,
        output_tokens: 0,
        total_tokens: 0,
        usage_incomplete: true,
        cost_usd_ticks: None,
    }
}

impl Default for Usage {
    fn default() -> (u: Self)
        ensures
            u == unreported_usage(),
    {
        Usage {
            input_tokens: 0,
            output_tokens: 0,
            total_tokens: 0,
            usage_incomplete: true,
            cost_usd_ticks: None,
        }
    }
}

impl Usage {
    /// A complete report of `input` and `output` tokens, without a cost.
    pub fn exact(input: u64, output: u64) -> (u: Self)
        ensures
            u.input_tokens == input,
            u.output_tokens == output,
            u.total_tokens == input.saturating_add(output),
            !u.usage_incomplete,
            u.cost_usd_ticks is None,
    {
        Usage {
            input_tokens: input,
            output_tokens: output,
            total_tokens: input.saturating_add(output),
            usage_incomplete: false,
            cost_usd_ticks: None,
        }
    }

    /// The cost this report can be trusted for: none when the report is
    /// incomplete.
    pub open spec fn trusted_cost(self) -> Option<i64> {
        if self.usage_incomplete {
            None
        } else {
            self.cost_usd_ticks
        }
    }

    /// The cost this report can be trusted for: none when the report is
    /// incomplete.
    pub fn trusted_cost_usd_ticks(&self) -> (c: Option<i64>)
        ensures
            c == self.trusted_cost(),
    {
        if self.usage_incomplete {
            None
        } else {
            self.cost_usd_ticks
        }
    }
}

/// Response a runtime returns.
#[derive(Debug, Clone)]
pub struct CompletionResponse {
    /// Plain-text completion (the host CLI's cleaned stdout).
    pub text: String,
    /// Driver identifier (`codex-cli`, `offline`, ...).
    pub id: String,
    /// Effective model name reported by the backend.
    pub model: String,
    /// Token usage of the turn.
    pub usage: Usage,
}

/// What a borrowed brain can do. Each flag is independent.
#[derive(Debug, Clone, Copy, PartialEq, Eq, Structural)]
pub struct BrainCapabilities {
    /// Supports a persistent "keep working until the goal is complete" mode.
    pub persistent_goal: bool,
    /// Emits real-time stream events during a call.
    pub streaming: bool,
    /// Reports real token usage in its responses.
    pub reports_usage: bool,
    /// Fires a real-time pre-write governance hook.
    pub realtime_governance: bool,
}

impl Default for BrainCapabilities {
    /// A generic brain does nothing special.
    fn default() -> (c: Self)
        ensures
            !c.persistent_goal,
            !c.streaming,
            !c.reports_usage,
            !c.realtime_governance,
    {
        BrainCapabilities {
            persistent_goal: false,
            streaming: false,
            reports_usage: false,
            realtime_governance: false,
        }
    }
}

/// A single real-time event from a streaming worker.
#[derive(Debug, Clone)]
pub enum StreamEvent {
    /// A chunk of assistant text (concatenate for the full message).
    Text { delta: String },
    /// The worker invoked a tool: its id and a human-readable summary.
    ToolUse { name: String, detail: String },
    /// The worker received a tool result: success and a truncated preview.
    ToolResult { ok: bool, summary: String },
    /// Non-fatal warning from the worker.
    Warning { message: String },
    /// The worker entered extended thinking; its content is not shown.
    Thinking,
}

/// How a turn of a continuous session ended.
#[derive(Debug, Clone)]
pub enum TurnStatus {
    /// The base finished the turn cleanly.
    Completed,
    /// The base hit a turn or budget ceiling mid-work.
    Truncated,
    /// The turn was interrupted.
    Interrupted,
    /// The turn failed, with a human-readable reason.
    Failed(String),
}

/// A decision handed back to the base for an approval request.
#[derive(Debug, Clone, Copy, PartialEq, Eq, Structural)]
pub enum ApprovalDecision {
    /// Allow the action.
    Allow,
    /// Deny the action.
    Deny,
}

/// Errors a continuous session can surface.
#[derive(Debug)]
pub enum SessionError {
    /// Failed to start the base session.
    Start(String),
    /// Failed to write to the live session.
    Send(String),
    /// The session has ended and can take no more turns.
    Closed,
    /// This base cannot open a read-only fork; callers degrade, never block.
    ForkUnsupported(String),
}

/// `prefix` followed by `detail`.
fn prefixed(prefix: &str, detail: &str) -> (r: String)
    ensures
        r@ == prefix@ + detail@,
{
    let mut r = prefix.to_owned();
    let cs = chars_of(detail);
    let mut i: usize = 0;
    while i < cs.len()
        invariant
            i <= cs@.len(),
            cs@ == detail@,
            r@ == prefix@ + cs@.take(i as int),
        decreases cs.len() - i,
    {
        push_char(&mut r, cs[i]);
        proof {
            assert(cs@.take(i + 1) =~= cs@.take(i as int).push(cs@[i as int]));
            assert(prefix@ + cs@.take(i + 1) =~= (prefix@ + cs@.take(i as int)).push(cs@[i as int]));
        }
        i += 1;
    }
    proof {
        assert(cs@.take(cs@.len() as int) =~= cs@);
    }
    r
}

impl SessionError {
    /// The error's message.
    pub fn message(&self) -> (r: String)
        ensures
            r@ == match self {
                SessionError::Start(s) => "session start: "@ + s@,
                SessionError::Send(s) => "session send: "@ + s@,
                SessionError::Closed => "session closed"@,
                SessionError::ForkUnsupported(s) => "session fork unsupported: "@ + s@,
            },
    {
        match self {
            SessionError::Start(s) => prefixed("session start: ", s.as_str()),
            SessionError::Send(s) => prefixed("session send: ", s.as_str()),
            SessionError::Closed => "session closed".to_owned(),
            SessionError::ForkUnsupported(s) => prefixed(
                "session fork unsupported: ",
                s.as_str(),
            ),
        }
    }
}

} // verus!
