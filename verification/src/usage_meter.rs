//! Live token and cost accounting for one conversation.
//!
//! Real usage reported by the base and the local `chars/4` estimate are kept
//! strictly apart, and an incomplete or missing report never turns into an
//! exact total or a free turn.

use vstd::prelude::*;

use crate::runtime::Usage;

verus! {

/// `a + b`, or `None` when the sum leaves `i64` (`i64::checked_add`).
pub open spec fn cost_sum(a: i64, b: i64) -> Option<i64> {
    if a + b > i64::MAX || a + b < i64::MIN {
        None
    } else {
        Some((a + b) as i64)
    }
}

/// Quality-preserving live usage state for one conversation.
#[derive(Debug, Clone)]
pub struct SessionUsageMeter {
    tokens: u64,
    est_tokens: u64,
    seen: bool,
    incomplete: bool,
    cost_usd_ticks: Option<i64>,
    exact_context_input: Option<u64>,
}

impl SessionUsageMeter {
    /// Real tokens reported so far.
    pub closed spec fn real_tokens(&self) -> u64 {
        self.tokens
    }

    /// The `chars/4` estimate accumulated so far.
    pub closed spec fn estimate(&self) -> u64 {
        self.est_tokens
    }

    /// Whether any turn has been applied since the last reset.
    pub closed spec fn reported(&self) -> bool {
        self.seen
    }

    /// Whether some applied turn had a partial or missing report.
    pub closed spec fn partial(&self) -> bool {
        self.incomplete
    }

    /// The exact session cost, when every applied turn had a trusted one.
    pub closed spec fn cost(&self) -> Option<i64> {
        self.cost_usd_ticks
    }

    /// The exact context size of the last turn, when its report was complete.
    pub closed spec fn context(&self) -> Option<u64> {
        self.exact_context_input
    }

    /// A meter that has seen nothing.
    pub open spec fn is_fresh(&self) -> bool {
        &&& self.real_tokens() == 0
        &&& self.estimate() == 0
        &&& !self.reported()
        &&& !self.partial()
        &&& self.cost() is None
        &&& self.context() is None
    }

    /// A meter that has seen nothing.
    pub fn new() -> (m: Self)
        ensures
            m.is_fresh(),
    {
        SessionUsageMeter {
            tokens: 0,
            est_tokens: 0,
            seen: false,
            incomplete: false,
            cost_usd_ticks: None,
            exact_context_input: None,
        }
    }

    /// Fold one turn's report in: `None` when the base reported nothing.
    pub fn apply(&mut self, usage: Option<Usage>)
        ensures
            applied(*old(self), usage, *final(self)),
    {
        let had_prior_report = self.seen;
        self.seen = true;
        let usage = match usage {
            None => {
                self.incomplete = true;
                self.cost_usd_ticks = None;
                self.exact_context_input = None;
                return;
            },
            Some(u) => u,
        };
        self.tokens = self.tokens.saturating_add(usage.total_tokens);
        self.incomplete = self.incomplete || usage.usage_incomplete;
        let current_cost = usage.trusted_cost_usd_ticks();
        self.cost_usd_ticks = if had_prior_report {
            match (self.cost_usd_ticks, current_cost) {
                (Some(left), Some(right)) => left.checked_add(right),
                _ => None,
            }
        } else {
            current_cost
        };
        self.exact_context_input = if usage.usage_incomplete {
            None
        } else {
            Some(usage.input_tokens)
        };
    }

    /// Accumulate a turn's deterministic `chars/4` estimate, kept apart from
    /// the real total.
    pub fn observe_estimate(&mut self, est_tokens: u64)
        ensures
            final(self).estimate() == old(self).estimate().saturating_add(est_tokens),
            final(self).real_tokens() == old(self).real_tokens(),
            final(self).reported() == old(self).reported(),
            final(self).partial() == old(self).partial(),
            final(self).cost() == old(self).cost(),
            final(self).context() == old(self).context(),
    {
        self.est_tokens = self.est_tokens.saturating_add(est_tokens);
    }

    /// Start over, as `/clear` does.
    pub fn reset(&mut self)
        ensures
            final(self).is_fresh(),
    {
        *self = SessionUsageMeter::new();
    }

    /// Real tokens reported so far.
    pub fn tokens(&self) -> (n: u64)
        ensures
            n == self.real_tokens(),
    {
        self.tokens
    }

    /// The `chars/4` estimate: a labelled lower bound shown only while no
    /// real usage has been reported.
    pub fn est_tokens(&self) -> (n: u64)
        ensures
            n == self.estimate(),
    {
        self.est_tokens
    }

    /// Whether any turn has been applied since the last reset.
    pub fn has_report(&self) -> (b: bool)
        ensures
            b == self.reported(),
    {
        self.seen
    }

    /// Whether some applied turn had a partial or missing report.
    pub fn is_incomplete(&self) -> (b: bool)
        ensures
            b == self.partial(),
    {
        self.incomplete
    }

    /// The exact session cost, when every applied turn had a trusted one.
    pub fn exact_cost_usd_ticks(&self) -> (c: Option<i64>)
        ensures
            c == self.cost(),
    {
        self.cost_usd_ticks
    }

    /// The exact context size of the last turn, when its report was complete.
    pub fn exact_context_input(&self) -> (c: Option<u64>)
        ensures
            c == self.context(),
    {
        self.exact_context_input
    }
}

/// `next` is `m` after folding in one turn's report (`None`: nothing was
/// reported).
pub open spec fn applied(m: SessionUsageMeter, usage: Option<Usage>, next: SessionUsageMeter) -> bool {
    &&& next.reported()
    &&& next.estimate() == m.estimate()
    &&& match usage {
        None => {
            &&& next.real_tokens() == m.real_tokens()
            &&& next.partial()
            &&& next.cost() is None
            &&& next.context() is None
        },
        Some(u) => {
            &&& next.real_tokens() == m.real_tokens().saturating_add(u.total_tokens)
            &&& next.partial() == (m.partial() || u.usage_incomplete)
            &&& next.cost() == if m.reported() {
                match (m.cost(), u.trusted_cost()) {
                    (Some(a), Some(b)) => cost_sum(a, b),
                    _ => None,
                }
            } else {
                u.trusted_cost()
            }
            &&& next.context() == if u.usage_incomplete {
                None
            } else {
                Some(u.input_tokens)
            }
        },
    }
}

impl Default for SessionUsageMeter {
    fn default() -> (m: Self)
        ensures
            m.is_fresh(),
    {
        SessionUsageMeter::new()
    }
}

/// An incomplete session never shows an exact cost: this holds of a fresh
/// meter and every turn folded in keeps it, so a partial or missing report
/// never turns into an exact (or free) total.
pub proof fn law_incomplete_has_no_exact_cost(m: SessionUsageMeter, usage: Option<Usage>, next: SessionUsageMeter)
    requires
        m.partial() ==> m.cost() is None,
        !m.reported() ==> !m.partial(),
        applied(m, usage, next),
    ensures
        next.partial() ==> next.cost() is None,
        !next.reported() ==> !next.partial(),
        m.partial() ==> next.partial(),
{
}

/// Once a reported turn lacked a trusted cost, no later turn brings an exact
/// session cost back.
pub proof fn law_missing_cost_is_sticky(m: SessionUsageMeter, usage: Option<Usage>, next: SessionUsageMeter)
    requires
        m.reported(),
        m.cost() is None,
        applied(m, usage, next),
    ensures
        next.cost() is None,
{
}

/// Real usage and the estimate never mix: folding in a report leaves the
/// estimate alone, and observing an estimate leaves the real total alone.
pub proof fn law_estimate_stays_apart(m: SessionUsageMeter, usage: Option<Usage>, next: SessionUsageMeter)
    requires
        applied(m, usage, next),
    ensures
        next.estimate() == m.estimate(),
        usage is None ==> next.real_tokens() == m.real_tokens(),
{
}

} // verus!
