//! The failures that a stage operation can report.

use vstd::prelude::*;

verus! {

/// Why a stage operation did not complete.
#[derive(Clone, Copy, Debug, PartialEq, Eq, Structural)]
pub enum Error {
    /// The budget was used up before an indivisible unit of work could be
    /// reserved. Expected and recoverable: the policy retries once at the
    /// largest budget.
    OutOfBudget,
    /// The budget cannot cover even one entity, or one entity cannot fit
    /// into a single outbound message. Not retried: a ceiling has to be
    /// raised by the operator.
    ConfigurationError,
    /// A defensive check met a state that should not occur. Retried once at
    /// the largest budget.
    TransientOperationFailure,
    /// The transport refused a message. Not retried within the tick.
    TransportError,
}

impl Error {
    /// Whether the retry policy may run the operation a second time after
    /// this failure.
    pub open spec fn spec_retryable(&self) -> bool {
        *self is OutOfBudget || *self is TransientOperationFailure
    }

    /// Whether the retry policy may run the operation a second time after
    /// this failure.
    #[verifier::when_used_as_spec(spec_retryable)]
    pub fn retryable(&self) -> (again: bool)
        ensures
            again == self.spec_retryable(),
    {
        match self {
            Error::OutOfBudget => true,
            Error::TransientOperationFailure => true,
            Error::ConfigurationError => false,
            Error::TransportError => false,
        }
    }
}

} // verus!
