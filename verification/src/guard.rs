//! The transactional guard: a unit of work either commits as a whole or
//! leaves durable state exactly as it found it.

use vstd::prelude::*;

verus! {

/// State that can be set aside before an attempt and put back after a
/// failed one.
pub trait Durable: View + Sized {
    /// An independent copy that holds exactly what `self` holds.
    fn snapshot(&self) -> (copy: Self)
        ensures
            copy@ == self@,
    ;
}

/// Wraps a unit of work so that a failure inside it discards every change
/// it made to durable state.
pub struct TransactionalGuard;

impl TransactionalGuard {
    /// Runs `op` on `state`. If `op` succeeds its changes stay; if it fails,
    /// at whatever point, `state` holds again what it held before, and the
    /// error is handed on. `scratch` is working data of the attempt, such as
    /// the budget, and is never rolled back.
    pub fn run<S: Durable, C, T, E, F: FnOnce(&mut S, &mut C) -> Result<T, E>>(
        state: &mut S,
        scratch: &mut C,
        op: F,
    ) -> (outcome: Result<T, E>)
        requires
            forall|s: &mut S, c: &mut C|
                *s == *old(state) && *c == *old(scratch) ==> call_requires(op, (s, c)),
        ensures
            outcome is Err ==> final(state)@ == old(state)@,
            exists|s: &mut S, c: &mut C|
                {
                    &&& *s == *old(state)
                    &&& *c == *old(scratch)
                    &&& #[trigger] call_ensures(op, (s, c), outcome)
                    &&& *final(c) == *final(scratch)
                    &&& outcome is Ok ==> *final(s) == *final(state)
                },
    {
        let saved = state.snapshot();
        let outcome = op(state, scratch);
        if outcome.is_err() {
            *state = saved;
        }
        outcome
    }
}

} // verus!
