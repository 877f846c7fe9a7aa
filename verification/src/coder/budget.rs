//! A per-run budget of model calls: once more calls are about to be made
//! than allowed, the run is aborted.

use vstd::prelude::*;
use crate::agent::hooks::LifecycleOutcome;
use crate::text::{chars_of, decimal, push_decimal, push_str, string_of};

verus! {

/// Counts model requests against a budget.
#[derive(Debug)]
pub struct TurnBudgetHook {
    max_calls: usize,
    seen: usize,
}

impl TurnBudgetHook {
    pub closed spec fn max_calls(&self) -> nat {
        self.max_calls as nat
    }

    /// Model requests seen so far.
    pub closed spec fn seen(&self) -> nat {
        self.seen as nat
    }

    pub fn new(max_calls: usize) -> (h: Self)
        ensures
            h.max_calls() == max_calls,
            h.seen() == 0,
    {
        TurnBudgetHook { max_calls, seen: 0 }
    }

    /// Model requests seen so far.
    pub fn seen_count(&self) -> (n: usize)
        ensures
            n == self.seen(),
    {
        self.seen
    }

    /// Answers a lifecycle event; only a model request counts. The `n`-th
    /// request beyond the budget aborts with
    /// `turn-budget exceeded ({n} > {max})`.
    pub fn on_event(&mut self, is_model_request: bool) -> (o: LifecycleOutcome)
        requires
            old(self).seen() < usize::MAX,
        ensures
            final(self).max_calls() == old(self).max_calls(),
            !is_model_request ==> final(self).seen() == old(self).seen() && o is Pass,
            is_model_request ==> final(self).seen() == old(self).seen() + 1 && (if final(self).seen()
                > old(self).max_calls() {
                o matches LifecycleOutcome::FailedAbort { reason } && reason@ == "turn-budget exceeded ("@
                    + decimal(final(self).seen()) + " > "@ + decimal(old(self).max_calls()) + ")"@
            } else {
                o is Pass
            }),
    {
        if !is_model_request {
            return LifecycleOutcome::Pass;
        }
        self.seen = self.seen + 1;
        let n = self.seen;
        if n > self.max_calls {
            let mut v = chars_of("turn-budget exceeded (");
            push_decimal(&mut v, n as u64);
            push_str(&mut v, " > ");
            push_decimal(&mut v, self.max_calls as u64);
            push_str(&mut v, ")");
            return LifecycleOutcome::FailedAbort { reason: string_of(&v) };
        }
        LifecycleOutcome::Pass
    }
}

} // verus!
