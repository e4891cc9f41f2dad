use rc_migrator::budget::BudgetAccountant;
use rc_migrator::entity::Entity;
use rc_migrator::error::Error;
use rc_migrator::ledger::Ledger;
use rc_migrator::retry::{RetryPolicy, TerminalError};
use std::cell::RefCell;

fn record(key: u64) -> Entity {
    Entity { key, cost: 1, payload: 0 }
}

fn ledger_of(keys: &[u64]) -> Ledger {
    let mut ledger = Ledger::new();
    for key in keys {
        ledger.insert(record(*key)).unwrap();
    }
    ledger
}

#[test]
fn success_at_the_normal_budget_runs_once() {
    let ceilings = RefCell::new(Vec::new());
    let mut ledger = ledger_of(&[1, 2]);
    let outcome = RetryPolicy::run_with_retry(
        &mut ledger,
        |ledger: &mut Ledger, budget: &mut BudgetAccountant| {
            ceilings.borrow_mut().push(budget.ceiling());
            budget.consume(3).map_err(|_| Error::OutOfBudget)?;
            ledger.remove(1)?;
            Ok(budget.consumed())
        },
        10,
        100,
    );
    assert_eq!(outcome, Ok(3));
    assert_eq!(*ceilings.borrow(), vec![10]);
    assert_eq!(ledger.len(), 1);
}

#[test]
fn want_of_budget_is_retried_once_at_the_largest_budget() {
    let ceilings = RefCell::new(Vec::new());
    let mut ledger = ledger_of(&[1, 2]);
    let outcome = RetryPolicy::run_with_retry(
        &mut ledger,
        |ledger: &mut Ledger, budget: &mut BudgetAccountant| {
            ceilings.borrow_mut().push(budget.ceiling());
            ledger.remove(1)?;
            budget.consume(50).map_err(|_| Error::OutOfBudget)?;
            Ok(budget.remaining())
        },
        10,
        100,
    );
    assert_eq!(outcome, Ok(50));
    assert_eq!(*ceilings.borrow(), vec![10, 100]);
    assert_eq!(ledger.len(), 1);
    assert_eq!(ledger.get(0), Some(record(2)));
}

#[test]
fn second_attempt_starts_from_the_state_before_the_first() {
    let seen = RefCell::new(Vec::new());
    let mut ledger = ledger_of(&[1, 2, 3]);
    let outcome: Result<(), TerminalError> = RetryPolicy::run_with_retry(
        &mut ledger,
        |ledger: &mut Ledger, _budget: &mut BudgetAccountant| {
            seen.borrow_mut().push(ledger.len());
            ledger.remove(1)?;
            ledger.remove(2)?;
            Err(Error::TransientOperationFailure)
        },
        1,
        2,
    );
    assert_eq!(
        outcome,
        Err(TerminalError { cause: Error::TransientOperationFailure, attempts: 2 })
    );
    assert_eq!(*seen.borrow(), vec![3, 3]);
    assert_eq!(ledger.len(), 3);
}

#[test]
fn operation_that_always_fails_is_attempted_exactly_twice() {
    let attempts = RefCell::new(0u32);
    let mut ledger = ledger_of(&[1]);
    let outcome: Result<(), TerminalError> = RetryPolicy::run_with_retry(
        &mut ledger,
        |_ledger: &mut Ledger, _budget: &mut BudgetAccountant| {
            *attempts.borrow_mut() += 1;
            Err(Error::OutOfBudget)
        },
        5,
        50,
    );
    assert_eq!(outcome, Err(TerminalError { cause: Error::OutOfBudget, attempts: 2 }));
    assert_eq!(*attempts.borrow(), 2);
    assert_eq!(ledger.len(), 1);
}

#[test]
fn terminal_error_carries_the_failure_of_the_last_attempt() {
    let attempts = RefCell::new(0u32);
    let mut ledger = ledger_of(&[1]);
    let outcome: Result<(), TerminalError> = RetryPolicy::run_with_retry(
        &mut ledger,
        |_ledger: &mut Ledger, _budget: &mut BudgetAccountant| {
            *attempts.borrow_mut() += 1;
            if *attempts.borrow() == 1 {
                Err(Error::OutOfBudget)
            } else {
                Err(Error::TransportError)
            }
        },
        5,
        50,
    );
    assert_eq!(outcome, Err(TerminalError { cause: Error::TransportError, attempts: 2 }));
}

#[test]
fn configuration_error_is_not_retried() {
    let attempts = RefCell::new(0u32);
    let mut ledger = ledger_of(&[1]);
    let outcome: Result<(), TerminalError> = RetryPolicy::run_with_retry(
        &mut ledger,
        |ledger: &mut Ledger, _budget: &mut BudgetAccountant| {
            *attempts.borrow_mut() += 1;
            ledger.remove(1)?;
            Err(Error::ConfigurationError)
        },
        5,
        50,
    );
    assert_eq!(outcome, Err(TerminalError { cause: Error::ConfigurationError, attempts: 1 }));
    assert_eq!(*attempts.borrow(), 1);
    assert_eq!(ledger.len(), 1);
}

#[test]
fn transport_error_is_not_retried() {
    let attempts = RefCell::new(0u32);
    let mut ledger = ledger_of(&[1]);
    let outcome: Result<(), TerminalError> = RetryPolicy::run_with_retry(
        &mut ledger,
        |_ledger: &mut Ledger, _budget: &mut BudgetAccountant| {
            *attempts.borrow_mut() += 1;
            Err(Error::TransportError)
        },
        5,
        50,
    );
    assert_eq!(outcome, Err(TerminalError { cause: Error::TransportError, attempts: 1 }));
    assert_eq!(*attempts.borrow(), 1);
}

#[test]
fn each_attempt_gets_a_fresh_budget() {
    let consumed = RefCell::new(Vec::new());
    let mut ledger = ledger_of(&[1]);
    let _: Result<(), TerminalError> = RetryPolicy::run_with_retry(
        &mut ledger,
        |_ledger: &mut Ledger, budget: &mut BudgetAccountant| {
            consumed.borrow_mut().push(budget.consumed());
            budget.consume(4).unwrap();
            Err(Error::OutOfBudget)
        },
        5,
        50,
    );
    assert_eq!(*consumed.borrow(), vec![0, 0]);
}

#[test]
fn only_want_of_budget_and_defensive_failures_are_retryable() {
    assert!(Error::OutOfBudget.retryable());
    assert!(Error::TransientOperationFailure.retryable());
    assert!(!Error::ConfigurationError.retryable());
    assert!(!Error::TransportError.retryable());
}
