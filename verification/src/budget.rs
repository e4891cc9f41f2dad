//! The compute-budget accountant: a ceiling and a running counter.
//!
//! Every unit of work asks the accountant before it starts. A reservation
//! either fits under the ceiling and is recorded, or it is refused and leaves
//! the counter as it was.

use vstd::prelude::*;

verus! {

/// The error of a reservation that would take the counter past the ceiling.
#[derive(Clone, Copy, Debug, PartialEq, Eq, Structural)]
pub struct OutOfBudget;

/// Tracks the compute consumed within one tick against a fixed ceiling.
pub struct BudgetAccountant {
    ceiling: u64,
    consumed: u64,
}

impl BudgetAccountant {
    /// The counter never passes the ceiling.
    #[verifier::type_invariant]
    pub closed spec fn within_ceiling(self) -> bool {
        self.consumed <= self.ceiling
    }

    /// The ceiling this accountant was created with.
    pub closed spec fn spec_ceiling(&self) -> u64 {
        self.ceiling
    }

    /// The compute reserved so far.
    pub closed spec fn spec_consumed(&self) -> u64 {
        self.consumed
    }

    /// What may still be reserved: the ceiling less what was consumed.
    pub open spec fn spec_remaining(&self) -> u64 {
        (self.spec_ceiling() - self.spec_consumed()) as u64
    }

    /// At every observation point the counter is at most the ceiling.
    pub proof fn lemma_consumed_within_ceiling(&self)
        requires
            self.within_ceiling(),
        ensures
            self.spec_consumed() <= self.spec_ceiling(),
            self.spec_consumed() + self.spec_remaining() == self.spec_ceiling(),
    {
    }

    /// A fresh accountant with nothing consumed.
    pub fn new(ceiling: u64) -> (fresh: Self)
        ensures
            fresh.within_ceiling(),
            fresh.spec_ceiling() == ceiling,
            fresh.spec_consumed() == 0,
    {
        BudgetAccountant { ceiling, consumed: 0 }
    }

    /// Reserves `cost`, or refuses it when the counter would pass the ceiling.
    /// A refusal changes nothing.
    pub fn consume(&mut self, cost: u64) -> (outcome: Result<(), OutOfBudget>)
        ensures
            final(self).within_ceiling(),
            final(self).spec_ceiling() == old(self).spec_ceiling(),
            outcome is Err <==> old(self).spec_consumed() + cost > old(self).spec_ceiling(),
            outcome is Ok ==> final(self).spec_consumed() == old(self).spec_consumed() + cost,
            outcome is Err ==> final(self).spec_consumed() == old(self).spec_consumed(),
    {
        proof {
            use_type_invariant(&*self);
        }
        if cost > self.ceiling - self.consumed {
            Err(OutOfBudget)
        } else {
            self.consumed = self.consumed + cost;
            Ok(())
        }
    }

    /// What may still be reserved.
    #[verifier::when_used_as_spec(spec_remaining)]
    pub fn remaining(&self) -> (room: u64)
        ensures
            self.within_ceiling(),
            room == self.spec_remaining(),
            room + self.spec_consumed() == self.spec_ceiling(),
    {
        proof {
            use_type_invariant(self);
        }
        self.ceiling - self.consumed
    }

    /// The compute reserved so far.
    #[verifier::when_used_as_spec(spec_consumed)]
    pub fn consumed(&self) -> (used: u64)
        ensures
            self.within_ceiling(),
            used == self.spec_consumed(),
            used <= self.spec_ceiling(),
    {
        proof {
            use_type_invariant(self);
        }
        self.consumed
    }

    /// The ceiling this accountant was created with.
    #[verifier::when_used_as_spec(spec_ceiling)]
    pub fn ceiling(&self) -> (limit: u64)
        ensures
            limit == self.spec_ceiling(),
    {
        self.ceiling
    }
}

} // verus!
