use rc_migrator::budget::BudgetAccountant;
use rc_migrator::entity::Entity;
use rc_migrator::error::Error;
use rc_migrator::messenger::OutboundMessage;
use rc_migrator::operations::{migrate_accounts, prepare, SCAN_COST};
use rc_migrator::pallet::{run_migrate, run_prepare};
use rc_migrator::retry::TerminalError;
use rc_migrator::storage::Storage;

fn record(key: u64, cost: u64) -> Entity {
    Entity { key, cost, payload: 0 }
}

fn storage_of(records: &[(u64, u64)], capacity: usize) -> Storage {
    let mut storage = Storage::new(capacity);
    for (key, cost) in records {
        storage.ledger.insert(record(*key, *cost)).unwrap();
    }
    storage
}

fn ledger_keys(storage: &Storage) -> Vec<u64> {
    let mut keys = Vec::new();
    let mut index = 0;
    while let Some(entity) = storage.ledger.get(index) {
        keys.push(entity.key);
        index += 1;
    }
    keys
}

fn shape(messages: &[OutboundMessage]) -> Vec<Vec<u64>> {
    messages.iter().map(|m| m.entities.iter().map(|e| e.key).collect()).collect()
}

#[test]
fn scan_cost_is_one_unit_per_record() {
    assert_eq!(SCAN_COST, 1);
}

#[test]
fn prepare_reserves_one_unit_per_record_and_counts_them() {
    let mut storage = storage_of(&[(1, 9), (2, 9), (3, 9)], 1);
    let mut budget = BudgetAccountant::new(5);
    assert_eq!(prepare(&mut storage, &mut budget), Ok(3));
    assert_eq!(budget.consumed(), 3);
    assert_eq!(ledger_keys(&storage), vec![1, 2, 3]);
}

#[test]
fn prepare_fails_for_want_of_budget_and_reserves_nothing() {
    let mut storage = storage_of(&[(1, 0), (2, 0), (3, 0)], 1);
    let mut budget = BudgetAccountant::new(2);
    assert_eq!(prepare(&mut storage, &mut budget), Err(Error::OutOfBudget));
    assert_eq!(budget.consumed(), 0);
    let mut budget = BudgetAccountant::new(3);
    assert_eq!(prepare(&mut storage, &mut budget), Ok(3));
}

#[test]
fn prepare_of_an_empty_ledger_needs_no_budget() {
    let mut storage = Storage::new(0);
    let mut budget = BudgetAccountant::new(0);
    assert_eq!(prepare(&mut storage, &mut budget), Ok(0));
}

#[test]
fn run_prepare_falls_back_on_the_largest_budget() {
    let mut storage = storage_of(&[(1, 1), (2, 1), (3, 1)], 1);
    assert_eq!(run_prepare(&mut storage, 3, 0), Ok(3));
    assert_eq!(run_prepare(&mut storage, 2, 3), Ok(3));
    assert_eq!(
        run_prepare(&mut storage, 2, 2),
        Err(TerminalError { cause: Error::OutOfBudget, attempts: 2 })
    );
    assert_eq!(ledger_keys(&storage), vec![1, 2, 3]);
}

#[test]
fn migrate_sends_the_batch_and_removes_it_from_the_ledger() {
    let mut storage = storage_of(&[(1, 2), (2, 2), (3, 2), (4, 2)], 8);
    let mut budget = BudgetAccountant::new(5);
    let batch = migrate_accounts(&mut storage, &mut budget, None, 3).unwrap();
    assert_eq!(batch.entities, vec![record(1, 2), record(2, 2)]);
    assert_eq!(batch.cursor, Some(2));
    assert!(!batch.exhausted);
    assert_eq!(batch.cost, 4);
    assert_eq!(budget.consumed(), 4);
    assert_eq!(ledger_keys(&storage), vec![3, 4]);
    assert_eq!(shape(&storage.outbox.drain()), vec![vec![1], vec![2]]);
}

#[test]
fn migrate_leaves_records_at_or_before_the_cursor_alone() {
    let mut storage = storage_of(&[(1, 1), (2, 1), (3, 1), (4, 1)], 8);
    let mut budget = BudgetAccountant::new(1);
    let batch = migrate_accounts(&mut storage, &mut budget, Some(2), 10).unwrap();
    assert_eq!(batch.entities, vec![record(3, 1)]);
    assert_eq!(ledger_keys(&storage), vec![1, 2, 4]);
}

#[test]
fn migrate_with_nothing_pending_succeeds_with_an_empty_exhausted_batch() {
    let mut storage = storage_of(&[(1, 1)], 0);
    let mut budget = BudgetAccountant::new(0);
    let batch = migrate_accounts(&mut storage, &mut budget, Some(1), 10).unwrap();
    assert!(batch.entities.is_empty());
    assert!(batch.exhausted);
    assert_eq!(batch.cursor, Some(1));
    assert_eq!(ledger_keys(&storage), vec![1]);
}

#[test]
fn migrate_reports_a_budget_that_covers_no_record_as_a_configuration_error() {
    let mut storage = storage_of(&[(1, 5)], 8);
    let mut budget = BudgetAccountant::new(4);
    assert_eq!(
        migrate_accounts(&mut storage, &mut budget, None, 10).err(),
        Some(Error::ConfigurationError)
    );
    assert_eq!(ledger_keys(&storage), vec![1]);
    assert_eq!(storage.outbox.len(), 0);
}

#[test]
fn migrate_reports_a_record_beyond_the_message_ceiling_as_a_configuration_error() {
    let mut storage = storage_of(&[(1, 1), (2, 5)], 8);
    let mut budget = BudgetAccountant::new(10);
    assert_eq!(
        migrate_accounts(&mut storage, &mut budget, None, 4).err(),
        Some(Error::ConfigurationError)
    );
    assert_eq!(ledger_keys(&storage), vec![1, 2]);
    assert_eq!(storage.outbox.len(), 0);
}

#[test]
fn migrate_reports_a_full_queue_as_a_transport_error() {
    let mut storage = storage_of(&[(1, 1), (2, 1), (3, 1)], 2);
    let mut budget = BudgetAccountant::new(10);
    assert_eq!(
        migrate_accounts(&mut storage, &mut budget, None, 1).err(),
        Some(Error::TransportError)
    );
    assert_eq!(ledger_keys(&storage), vec![1, 2, 3]);
}

#[test]
fn run_migrate_rolls_the_queue_back_when_the_transport_refuses() {
    let mut storage = storage_of(&[(1, 1), (2, 1), (3, 1)], 2);
    let outcome = run_migrate(&mut storage, None, 1, 10, 100);
    assert_eq!(
        outcome.err(),
        Some(TerminalError { cause: Error::TransportError, attempts: 1 })
    );
    assert_eq!(ledger_keys(&storage), vec![1, 2, 3]);
    assert_eq!(storage.outbox.len(), 0);
}

#[test]
fn run_migrate_does_not_retry_a_configuration_error_at_the_largest_budget() {
    let mut storage = storage_of(&[(1, 5)], 8);
    let outcome = run_migrate(&mut storage, None, 10, 4, 100);
    assert_eq!(
        outcome.err(),
        Some(TerminalError { cause: Error::ConfigurationError, attempts: 1 })
    );
    assert_eq!(ledger_keys(&storage), vec![1]);
}

#[test]
fn run_migrate_commits_the_batch() {
    let mut storage = storage_of(&[(1, 2), (2, 2), (3, 2)], 8);
    let batch = run_migrate(&mut storage, Some(1), 4, 4, 100).unwrap();
    assert_eq!(batch.entities, vec![record(2, 2), record(3, 2)]);
    assert!(batch.exhausted);
    assert_eq!(ledger_keys(&storage), vec![1]);
    assert_eq!(shape(&storage.outbox.drain()), vec![vec![2, 3]]);
}
