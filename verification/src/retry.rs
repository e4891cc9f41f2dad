//! The retry policy: one attempt at the normal budget, and after a
//! recoverable failure exactly one more at the largest budget.

use vstd::prelude::*;
use crate::budget::BudgetAccountant;
use crate::error::Error;
use crate::guard::{Durable, TransactionalGuard};

verus! {

/// The failure of a tick after the policy has run out of attempts. The
/// tick has made no progress.
#[derive(Clone, Copy, Debug, PartialEq, Eq, Structural)]
pub struct TerminalError {
    /// The failure of the last attempt.
    pub cause: Error,
    /// How many times the operation was run: once or twice.
    pub attempts: u8,
}

/// Whether `budget` is an accountant with the given ceiling and nothing
/// consumed.
pub open spec fn fresh(budget: BudgetAccountant, ceiling: u64) -> bool {
    &&& budget.within_ceiling()
    &&& budget.spec_ceiling() == ceiling
    &&& budget.spec_consumed() == 0
}

/// Whether one run of `op` on a state that holds `before`, with a fresh
/// budget of `ceiling`, can fail with `error`.
pub open spec fn fails<S: Durable, T, F: Fn(&mut S, &mut BudgetAccountant) -> Result<T, Error>>(
    op: F,
    before: S::V,
    ceiling: u64,
    error: Error,
) -> bool {
    exists|s: &mut S, b: &mut BudgetAccountant|
        {
            &&& s@ == before
            &&& fresh(*b, ceiling)
            &&& #[trigger] call_ensures(op, (s, b), Err::<T, Error>(error))
        }
}

/// Whether a run of `op` on a state that holds `before`, with a fresh budget
/// of `ceiling`, can fail in a way that the policy retries.
pub open spec fn retried<S: Durable, T, F: Fn(&mut S, &mut BudgetAccountant) -> Result<T, Error>>(
    op: F,
    before: S::V,
    ceiling: u64,
) -> bool {
    exists|first: Error|
        first.retryable() && #[trigger] fails::<S, T, F>(op, before, ceiling, first)
}

/// Whether every run of `op` ends in a failure that the policy retries.
pub open spec fn always_fails<
    S: Durable,
    T,
    F: Fn(&mut S, &mut BudgetAccountant) -> Result<T, Error>,
>(op: F) -> bool {
    forall|s: &mut S, b: &mut BudgetAccountant, result: Result<T, Error>| #[trigger]
        call_ensures(op, (s, b), result) ==> (result matches Err(error) && error.retryable())
}

/// Runs an operation under the transactional guard, at most twice.
pub struct RetryPolicy;

impl RetryPolicy {
    /// Runs `op` under the guard with a fresh budget of `normal_budget`. If
    /// that attempt fails for want of budget or on a defensive check, runs
    /// it once more with a fresh budget of `max_budget`. Any other failure,
    /// and a failure of the second attempt, is terminal: `state` then holds
    /// what it held before the call.
    pub fn run_with_retry<
        S: Durable,
        T,
        F: Fn(&mut S, &mut BudgetAccountant) -> Result<T, Error>,
    >(state: &mut S, op: F, normal_budget: u64, max_budget: u64) -> (outcome: Result<
        T,
        TerminalError,
    >)
        requires
            forall|s: &mut S, b: &mut BudgetAccountant|
                s@ == old(state)@ && (fresh(*b, normal_budget) || fresh(*b, max_budget))
                    ==> call_requires(op, (s, b)),
        ensures
            outcome is Ok ==> exists|s: &mut S, b: &mut BudgetAccountant|
                {
                    &&& s@ == old(state)@
                    &&& fresh(*b, normal_budget) || fresh(*b, max_budget)
                    &&& #[trigger] call_ensures(op, (s, b), Ok::<T, Error>(outcome->Ok_0))
                    &&& *final(s) == *final(state)
                    &&& fresh(*b, normal_budget) || retried::<S, T, F>(
                        op,
                        old(state)@,
                        normal_budget,
                    )
                },
            outcome matches Err(terminal) ==> {
                &&& final(state)@ == old(state)@
                &&& terminal.attempts == 1 || terminal.attempts == 2
                &&& terminal.attempts == 1 ==> !terminal.cause.retryable() && fails::<S, T, F>(
                    op,
                    old(state)@,
                    normal_budget,
                    terminal.cause,
                )
                &&& terminal.attempts == 2 ==> fails::<S, T, F>(
                    op,
                    old(state)@,
                    max_budget,
                    terminal.cause,
                ) && retried::<S, T, F>(op, old(state)@, normal_budget)
            },
            always_fails::<S, T, F>(op) ==> (outcome matches Err(terminal) && terminal.attempts
                == 2),
    {
        let attempted = attempt(state, &op, normal_budget);
        let first = match attempted {
            Ok(value) => {
                let outcome: Result<T, TerminalError> = Ok(value);
                proof {
                    assert(Ok::<T, Error>(outcome->Ok_0) == attempted);
                }
                return outcome;
            },
            Err(error) => error,
        };
        if !first.retryable() {
            return Err(TerminalError { cause: first, attempts: 1 });
        }
        proof {
            assert(retried::<S, T, F>(op, old(state)@, normal_budget));
        }
        let attempted = attempt(state, &op, max_budget);
        match attempted {
            Ok(value) => {
                let outcome: Result<T, TerminalError> = Ok(value);
                proof {
                    assert(Ok::<T, Error>(outcome->Ok_0) == attempted);
                }
                outcome
            },
            Err(error) => Err(TerminalError { cause: error, attempts: 2 }),
        }
    }
}

/// Runs `op` once under the guard with a fresh budget of `ceiling`.
fn attempt<S: Durable, T, F: Fn(&mut S, &mut BudgetAccountant) -> Result<T, Error>>(
    state: &mut S,
    op: &F,
    ceiling: u64,
) -> (outcome: Result<T, Error>)
    requires
        forall|s: &mut S, b: &mut BudgetAccountant|
            s@ == old(state)@ && fresh(*b, ceiling) ==> call_requires(*op, (s, b)),
    ensures
        outcome matches Err(error) ==> final(state)@ == old(state)@ && fails::<S, T, F>(
            *op,
            old(state)@,
            ceiling,
            error,
        ),
        outcome is Ok ==> exists|s: &mut S, b: &mut BudgetAccountant|
            {
                &&& s@ == old(state)@
                &&& fresh(*b, ceiling)
                &&& #[trigger] call_ensures(*op, (s, b), outcome)
                &&& *final(s) == *final(state)
            },
{
    let mut budget = BudgetAccountant::new(ceiling);
    TransactionalGuard::run(state, &mut budget, op)
}

} // verus!
