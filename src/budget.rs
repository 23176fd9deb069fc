//! Token budgets for model-based enrichment.
use vstd::prelude::*;

verus! {

/// Fixed cost added to every estimate, for the parts of a request besides the prompt.
pub const REQUEST_OVERHEAD_TOKENS: u32 = 500;

/// Default confidence, in thousandths, at which an inferred relationship is accepted.
pub const DEFAULT_AUTO_ACCEPT: u32 = 800;

/// How much of a budget has been used.
#[derive(Clone, Copy, Debug, PartialEq, Eq, Structural)]
pub enum BudgetWarning {
    /// Under half used.
    Healthy,
    /// From half to under three quarters used.
    Warning,
    /// From three quarters to under nine tenths used.
    Critical,
    /// Nine tenths or more used.
    Exhausted,
}

/// The warning level for `used` tokens out of `total` (an empty budget counts as unused).
pub open spec fn warning_for(used: int, total: int) -> BudgetWarning {
    if total == 0 || used * 100 < total * 50 {
        BudgetWarning::Healthy
    } else if used * 100 < total * 75 {
        BudgetWarning::Warning
    } else if used * 100 < total * 90 {
        BudgetWarning::Critical
    } else {
        BudgetWarning::Exhausted
    }
}

/// Estimated cost of a request whose prompt has `prompt_length` bytes.
pub open spec fn estimate_for(prompt_length: int) -> int {
    let e = prompt_length / 4 + REQUEST_OVERHEAD_TOKENS;
    if e > u32::MAX {
        u32::MAX as int
    } else {
        e
    }
}

/// Budget of a session: what may be spent, what has been, and the acceptance threshold.
#[derive(Clone, Debug)]
pub struct Budget {
    pub total_tokens: u32,
    pub tokens_used: u32,
    pub max_tokens_per_request: u32,
    /// In thousandths.
    pub auto_accept_threshold: u32,
    pub enable_caching: bool,
}

impl Budget {
    /// A fresh budget of `total_tokens`.
    pub fn new(total_tokens: u32) -> (r: Budget)
        ensures
            r.total_tokens == total_tokens,
            r.tokens_used == 0,
            r.max_tokens_per_request == 4000,
            r.auto_accept_threshold == DEFAULT_AUTO_ACCEPT,
            r.enable_caching,
    {
        Budget {
            total_tokens,
            tokens_used: 0,
            max_tokens_per_request: 4000,
            auto_accept_threshold: DEFAULT_AUTO_ACCEPT,
            enable_caching: true,
        }
    }

    /// Whether `estimated_tokens` more still fit in the budget.
    pub fn has_budget(&self, estimated_tokens: u32) -> (r: bool)
        ensures
            r == (self.tokens_used + estimated_tokens <= self.total_tokens),
    {
        (self.tokens_used as u64) + (estimated_tokens as u64) <= self.total_tokens as u64
    }

    /// Records `tokens` as spent.
    pub fn use_tokens(&mut self, tokens: u32)
        requires
            old(self).tokens_used + tokens <= u32::MAX,
        ensures
            final(self).tokens_used == old(self).tokens_used + tokens,
            final(self).total_tokens == old(self).total_tokens,
            final(self).max_tokens_per_request == old(self).max_tokens_per_request,
            final(self).auto_accept_threshold == old(self).auto_accept_threshold,
            final(self).enable_caching == old(self).enable_caching,
    {
        self.tokens_used = self.tokens_used + tokens;
    }

    /// Decides whether a request whose prompt has `prompt_length` bytes is sent:
    /// when its estimate still fits, the estimate is spent and the answer is
    /// yes; otherwise the request is skipped and nothing changes.
    pub fn reserve(&mut self, prompt_length: usize) -> (sent: bool)
        ensures
            sent == (old(self).tokens_used + estimate_for(prompt_length as int) <= old(self).total_tokens),
            sent ==> final(self).tokens_used == old(self).tokens_used + estimate_for(prompt_length as int),
            !sent ==> final(self).tokens_used == old(self).tokens_used,
            final(self).total_tokens == old(self).total_tokens,
            final(self).auto_accept_threshold == old(self).auto_accept_threshold,
    {
        let estimate = Budget::estimate_tokens(prompt_length);
        if self.has_budget(estimate) {
            self.use_tokens(estimate);
            true
        } else {
            false
        }
    }

    /// Tokens left, or zero when the budget is overspent.
    pub fn remaining(&self) -> (r: u32)
        ensures
            r == if self.tokens_used <= self.total_tokens {
                self.total_tokens - self.tokens_used
            } else {
                0
            },
    {
        self.total_tokens.saturating_sub(self.tokens_used)
    }

    /// Whether nothing is left to spend.
    pub fn is_exhausted(&self) -> (r: bool)
        ensures
            r == (self.tokens_used >= self.total_tokens),
    {
        self.tokens_used >= self.total_tokens
    }

    /// Whether a confidence (in thousandths) reaches the acceptance threshold.
    pub fn should_auto_accept(&self, confidence: u32) -> (r: bool)
        ensures
            r == (confidence >= self.auto_accept_threshold),
    {
        confidence >= self.auto_accept_threshold
    }

    /// About one token per four bytes of prompt, plus a fixed overhead; saturates.
    pub fn estimate_tokens(prompt_length: usize) -> (r: u32)
        ensures
            r == estimate_for(prompt_length as int),
    {
        let quarter: usize = prompt_length / 4;
        if quarter as u64 > u32::MAX as u64 {
            u32::MAX
        } else {
            (quarter as u32).saturating_add(REQUEST_OVERHEAD_TOKENS)
        }
    }

    /// The warning level for the share of the budget used so far.
    pub fn warning_level(&self) -> (r: BudgetWarning)
        ensures
            r == warning_for(self.tokens_used as int, self.total_tokens as int),
    {
        let used: u64 = self.tokens_used as u64 * 100;
        let total: u64 = self.total_tokens as u64;
        if total == 0 || used < total * 50 {
            BudgetWarning::Healthy
        } else if used < total * 75 {
            BudgetWarning::Warning
        } else if used < total * 90 {
            BudgetWarning::Critical
        } else {
            BudgetWarning::Exhausted
        }
    }
}

impl Default for Budget {
    fn default() -> (r: Budget)
        ensures
            r.total_tokens == 100_000,
            r.tokens_used == 0,
    {
        Budget::new(100_000)
    }
}

/// The budget carried by a semantic-analysis configuration.
#[derive(Clone, Debug)]
pub struct AIBudget {
    pub total_tokens: u32,
    pub tokens_used: u32,
    /// In thousandths.
    pub auto_accept_threshold: u32,
}

impl AIBudget {
    /// A fresh budget of `total_tokens`.
    pub fn new(total_tokens: u32) -> (r: AIBudget)
        ensures
            r.total_tokens == total_tokens,
            r.tokens_used == 0,
            r.auto_accept_threshold == DEFAULT_AUTO_ACCEPT,
    {
        AIBudget { total_tokens, tokens_used: 0, auto_accept_threshold: DEFAULT_AUTO_ACCEPT }
    }

    /// Whether `estimated_tokens` more still fit in the budget.
    pub fn has_budget(&self, estimated_tokens: u32) -> (r: bool)
        ensures
            r == (self.tokens_used + estimated_tokens <= self.total_tokens),
    {
        (self.tokens_used as u64) + (estimated_tokens as u64) <= self.total_tokens as u64
    }

    /// Records `tokens` as spent.
    pub fn use_tokens(&mut self, tokens: u32)
        requires
            old(self).tokens_used + tokens <= u32::MAX,
        ensures
            final(self).tokens_used == old(self).tokens_used + tokens,
            final(self).total_tokens == old(self).total_tokens,
            final(self).auto_accept_threshold == old(self).auto_accept_threshold,
    {
        self.tokens_used = self.tokens_used + tokens;
    }

    /// Tokens left, or zero when the budget is overspent.
    pub fn remaining_tokens(&self) -> (r: u32)
        ensures
            r == if self.tokens_used <= self.total_tokens {
                self.total_tokens - self.tokens_used
            } else {
                0
            },
    {
        self.total_tokens.saturating_sub(self.tokens_used)
    }
}

} // verus!
