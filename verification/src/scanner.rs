//! The paginated, resumable scan over the source ledger.
//!
//! A batch is the longest run of pending records, in key order, whose cost
//! the budget can still cover. The cursor that comes with it is the key of
//! the last record taken, so the next scan starts right behind it.

use vstd::prelude::*;
use crate::budget::BudgetAccountant;
use crate::entity::{
    ascending, lemma_total_cost_prefix, lemma_total_cost_push, pending, total_cost, Entity,
    EntityKey,
};
use crate::ledger::Ledger;

verus! {

/// What one scan yields: the records to migrate, in key order, and where
/// the next scan resumes.
#[derive(Debug)]
pub struct MigrationBatch {
    /// The records taken, in ascending key order.
    pub entities: Vec<Entity>,
    /// The key of the last record taken, or the cursor the scan started
    /// from if it took none.
    pub cursor: Option<EntityKey>,
    /// Whether the scan reached the end of the ledger, so that nothing is
    /// pending behind the batch.
    pub exhausted: bool,
    /// The compute reserved for the records taken.
    pub cost: u64,
}

impl View for MigrationBatch {
    type V = Seq<Entity>;

    open spec fn view(&self) -> Seq<Entity> {
        self.entities@
    }
}

/// Whether a scan over `candidates` with `room` left in the budget takes
/// exactly the first `count` of them: they fit, and the next one, if there
/// is one, does not.
pub open spec fn takes(candidates: Seq<Entity>, room: nat, count: int) -> bool {
    &&& 0 <= count <= candidates.len()
    &&& total_cost(candidates.take(count)) <= room
    &&& count < candidates.len() ==> total_cost(candidates.take(count + 1)) > room
}

/// The cursor behind a batch: the key of its last record, or the cursor the
/// scan started from if the batch is empty.
pub open spec fn cursor_behind(batch: Seq<Entity>, after: Option<EntityKey>) -> Option<EntityKey> {
    if batch.len() == 0 {
        after
    } else {
        Some(batch.last().key)
    }
}

/// The number of records a scan takes is determined by the candidates and
/// the room in the budget.
pub proof fn lemma_takes_unique(candidates: Seq<Entity>, room: nat, first: int, second: int)
    requires
        takes(candidates, room, first),
        takes(candidates, room, second),
    ensures
        first == second,
{
    if first < second {
        lemma_total_cost_prefix(candidates, first + 1, second);
    } else if second < first {
        lemma_total_cost_prefix(candidates, second + 1, first);
    }
}

/// A scan with records pending takes none of them exactly when the room
/// does not cover the first: only then is a batch empty before the ledger
/// is exhausted.
pub proof fn lemma_takes_nothing(candidates: Seq<Entity>, room: nat, count: int)
    requires
        takes(candidates, room, count),
        candidates.len() > 0,
    ensures
        count == 0 <==> candidates[0].cost > room,
{
    assert(candidates.take(1) =~= Seq::<Entity>::empty().push(candidates[0]));
    lemma_total_cost_push(Seq::<Entity>::empty(), candidates[0]);
    assert(total_cost(Seq::<Entity>::empty()) == 0);
    if count > 0 {
        lemma_total_cost_prefix(candidates, 1, count);
    } else {
        assert(candidates.take(0) =~= Seq::<Entity>::empty());
    }
}

/// Iterates the ledger in key order from a resumption cursor and cuts
/// batches to the budget.
pub struct PaginatedScanner;

impl PaginatedScanner {
    /// Takes the longest run of records behind `after` that the budget can
    /// cover, reserving the cost of each before it is taken.
    pub fn next_batch(
        source: &Ledger,
        after: Option<EntityKey>,
        budget: &mut BudgetAccountant,
    ) -> (batch: MigrationBatch)
        ensures
            batch@ == pending(source@, after).take(batch@.len() as int),
            takes(
                pending(source@, after),
                old(budget).spec_remaining() as nat,
                batch@.len() as int,
            ),
            batch.cursor == cursor_behind(batch@, after),
            batch.exhausted <==> batch@.len() == pending(source@, after).len(),
            batch.cost == total_cost(batch@),
            final(budget).within_ceiling(),
            final(budget).spec_ceiling() == old(budget).spec_ceiling(),
            final(budget).spec_consumed() == old(budget).spec_consumed() + total_cost(batch@),
    {
        let start = source.scan_from(after);
        let count = source.len();
        let consumed_before = budget.consumed();
        let ghost candidates = pending(source@, after);
        let ghost room = budget.remaining() as nat;
        let ghost ceiling = budget.ceiling();
        proof {
            use_type_invariant(&*budget);
            budget.lemma_consumed_within_ceiling();
        }
        let mut entities: Vec<Entity> = Vec::new();
        let mut cursor = after;
        let mut index = start;
        let mut exhausted = false;
        assert(candidates.take(0) =~= entities@);
        loop
            invariant_except_break
                !exhausted,
            invariant
                start <= index <= count,
                count == source@.len(),
                candidates == source@.skip(start as int),
                entities@ == candidates.take(index - start),
                cursor == cursor_behind(entities@, after),
                budget.within_ceiling(),
                budget.spec_ceiling() == ceiling,
                consumed_before + room == ceiling,
                budget.spec_consumed() == consumed_before + total_cost(entities@),
            ensures
                start <= index <= count,
                entities@ == candidates.take(index - start),
                cursor == cursor_behind(entities@, after),
                exhausted <==> index == count,
                !exhausted ==> total_cost(candidates.take(index - start + 1)) > room,
                budget.within_ceiling(),
                budget.spec_ceiling() == ceiling,
                budget.spec_consumed() == consumed_before + total_cost(entities@),
            decreases count - index,
        {
            let entity = match source.get(index) {
                Some(entity) => entity,
                None => {
                    exhausted = true;
                    break;
                },
            };
            proof {
                assert(candidates.take(index - start + 1) =~= candidates.take(index - start).push(
                    entity,
                ));
                lemma_total_cost_push(entities@, entity);
            }
            if budget.consume(entity.cost).is_err() {
                break;
            }
            entities.push(entity);
            cursor = Some(entity.key);
            index = index + 1;
        }
        proof {
            budget.lemma_consumed_within_ceiling();
        }
        let cost = budget.consumed() - consumed_before;
        MigrationBatch { entities, cursor, exhausted, cost }
    }
}

} // verus!
