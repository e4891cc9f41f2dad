use rc_migrator::budget::BudgetAccountant;
use rc_migrator::entity::Entity;
use rc_migrator::ledger::Ledger;
use rc_migrator::scanner::{MigrationBatch, PaginatedScanner};

fn record(key: u64, cost: u64) -> Entity {
    Entity { key, cost, payload: 0 }
}

fn ledger_of(records: &[(u64, u64)]) -> Ledger {
    let mut ledger = Ledger::new();
    for (key, cost) in records {
        ledger.insert(record(*key, *cost)).unwrap();
    }
    ledger
}

fn keys(batch: &MigrationBatch) -> Vec<u64> {
    batch.entities.iter().map(|entity| entity.key).collect()
}

#[test]
fn batch_is_the_longest_run_that_the_budget_covers() {
    let ledger = ledger_of(&[(1, 3), (2, 4), (3, 5), (4, 1)]);
    let mut budget = BudgetAccountant::new(10);
    let batch = PaginatedScanner::next_batch(&ledger, None, &mut budget);
    assert_eq!(keys(&batch), vec![1, 2]);
    assert_eq!(batch.cursor, Some(2));
    assert!(!batch.exhausted);
    assert_eq!(batch.cost, 7);
    assert_eq!(budget.consumed(), 7);
    assert_eq!(budget.remaining(), 3);
}

#[test]
fn scan_stops_at_the_first_record_that_does_not_fit_even_if_a_later_one_would() {
    let ledger = ledger_of(&[(1, 3), (2, 9), (3, 1)]);
    let mut budget = BudgetAccountant::new(5);
    let batch = PaginatedScanner::next_batch(&ledger, None, &mut budget);
    assert_eq!(keys(&batch), vec![1]);
    assert_eq!(batch.cursor, Some(1));
    assert!(!batch.exhausted);
    assert_eq!(budget.consumed(), 3);
}

#[test]
fn batch_that_fills_the_budget_to_the_last_unit_is_taken() {
    let ledger = ledger_of(&[(1, 4), (2, 6), (3, 1)]);
    let mut budget = BudgetAccountant::new(10);
    let batch = PaginatedScanner::next_batch(&ledger, None, &mut budget);
    assert_eq!(keys(&batch), vec![1, 2]);
    assert_eq!(budget.consumed(), 10);
    assert_eq!(budget.remaining(), 0);
    assert!(!batch.exhausted);
}

#[test]
fn scan_resumes_strictly_behind_the_cursor() {
    let ledger = ledger_of(&[(10, 1), (20, 1), (30, 1), (40, 1)]);
    let mut budget = BudgetAccountant::new(2);
    let batch = PaginatedScanner::next_batch(&ledger, Some(20), &mut budget);
    assert_eq!(keys(&batch), vec![30, 40]);
    assert_eq!(batch.cursor, Some(40));
    assert!(batch.exhausted);

    let mut budget = BudgetAccountant::new(2);
    let batch = PaginatedScanner::next_batch(&ledger, Some(25), &mut budget);
    assert_eq!(keys(&batch), vec![30, 40]);
}

#[test]
fn scan_behind_the_last_key_finds_nothing_and_keeps_the_cursor() {
    let ledger = ledger_of(&[(10, 1), (20, 1)]);
    let mut budget = BudgetAccountant::new(5);
    let batch = PaginatedScanner::next_batch(&ledger, Some(20), &mut budget);
    assert!(batch.entities.is_empty());
    assert_eq!(batch.cursor, Some(20));
    assert!(batch.exhausted);
    assert_eq!(batch.cost, 0);
    assert_eq!(budget.consumed(), 0);
}

#[test]
fn scan_of_an_empty_ledger_is_exhausted_at_once() {
    let ledger = Ledger::new();
    let mut budget = BudgetAccountant::new(0);
    let batch = PaginatedScanner::next_batch(&ledger, None, &mut budget);
    assert!(batch.entities.is_empty());
    assert_eq!(batch.cursor, None);
    assert!(batch.exhausted);
}

#[test]
fn budget_too_small_for_one_record_gives_an_empty_batch_that_is_not_exhausted() {
    let ledger = ledger_of(&[(1, 5), (2, 1)]);
    let mut budget = BudgetAccountant::new(4);
    let batch = PaginatedScanner::next_batch(&ledger, None, &mut budget);
    assert!(batch.entities.is_empty());
    assert_eq!(batch.cursor, None);
    assert!(!batch.exhausted);
    assert_eq!(budget.consumed(), 0);
}

#[test]
fn records_without_cost_are_taken_even_with_no_budget_left() {
    let ledger = ledger_of(&[(1, 0), (2, 0), (3, 1)]);
    let mut budget = BudgetAccountant::new(0);
    let batch = PaginatedScanner::next_batch(&ledger, None, &mut budget);
    assert_eq!(keys(&batch), vec![1, 2]);
    assert!(!batch.exhausted);
}

#[test]
fn scan_counts_what_the_budget_had_consumed_before() {
    let ledger = ledger_of(&[(1, 2), (2, 2), (3, 2)]);
    let mut budget = BudgetAccountant::new(10);
    budget.consume(5).unwrap();
    let batch = PaginatedScanner::next_batch(&ledger, None, &mut budget);
    assert_eq!(keys(&batch), vec![1, 2]);
    assert_eq!(batch.cost, 4);
    assert_eq!(budget.consumed(), 9);
}

#[test]
fn same_ledger_cursor_and_budget_give_the_same_batch() {
    let ledger = ledger_of(&[(1, 3), (2, 4), (3, 5), (4, 1)]);
    let mut first_budget = BudgetAccountant::new(8);
    let mut second_budget = BudgetAccountant::new(8);
    let first = PaginatedScanner::next_batch(&ledger, Some(1), &mut first_budget);
    let second = PaginatedScanner::next_batch(&ledger, Some(1), &mut second_budget);
    assert_eq!(first.entities, second.entities);
    assert_eq!(first.cursor, second.cursor);
    assert_eq!(first.exhausted, second.exhausted);
    assert_eq!(keys(&first), vec![2]);
}

#[test]
fn costs_near_the_largest_value_do_not_overflow() {
    let ledger = ledger_of(&[(1, u64::MAX - 1), (2, 1), (3, 1)]);
    let mut budget = BudgetAccountant::new(u64::MAX);
    let batch = PaginatedScanner::next_batch(&ledger, None, &mut budget);
    assert_eq!(keys(&batch), vec![1, 2]);
    assert_eq!(batch.cost, u64::MAX);
    assert!(!batch.exhausted);
}
