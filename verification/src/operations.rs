//! The units of work that the stages run: fixing the scope, and migrating
//! one batch.

use vstd::prelude::*;
use crate::budget::BudgetAccountant;
use crate::entity::{ascending, pending, total_cost, Entity, EntityKey};
use crate::error::Error;
use crate::ledger::Ledger;
use crate::messenger::{all_fit, packs, OutboundMessenger, SendError};
use crate::scanner::{
    cursor_behind, lemma_takes_nothing, takes, MigrationBatch, PaginatedScanner,
};
use crate::storage::{Storage, StorageView};

verus! {

/// The compute that visiting one record takes while the scope is fixed.
pub const SCAN_COST: u64 = 1;

/// Whether a scan of `ledger` resumed after `after` with `room` left takes
/// exactly `batch`.
pub open spec fn batch_of(
    ledger: Seq<Entity>,
    after: Option<EntityKey>,
    room: u64,
    batch: Seq<Entity>,
) -> bool {
    &&& takes(pending(ledger, after), room as nat, batch.len() as int)
    &&& batch == pending(ledger, after).take(batch.len() as int)
}

/// Whether records are pending behind `after` and `room` does not cover
/// even the first of them.
pub open spec fn stalls(ledger: Seq<Entity>, after: Option<EntityKey>, room: u64) -> bool {
    pending(ledger, after).len() > 0 && pending(ledger, after)[0].cost > room
}

/// `ledger` without the records of `batch`.
pub open spec fn without(ledger: Seq<Entity>, batch: Seq<Entity>) -> Seq<Entity> {
    ledger.filter(|e: Entity| !batch.contains(e))
}

/// What one migration step does. With `taken` the batch that the scan cuts
/// and `messages` its packaging:
/// the step fails on configuration if the budget covers no pending record
/// or a record of the batch fits into no message; it fails on transport if
/// the queue has no room for all the messages; otherwise it succeeds, hands
/// the batch back, appends the messages to the queue and removes the
/// records of the batch from the ledger.
pub open spec fn migration_step(
    before: StorageView,
    after: Option<EntityKey>,
    room: u64,
    message_ceiling: u64,
    taken: Seq<Entity>,
    messages: Seq<Seq<Entity>>,
    outcome: Result<MigrationBatch, Error>,
    result: StorageView,
) -> bool {
    &&& batch_of(before.ledger, after, room, taken)
    &&& all_fit(taken, message_ceiling) ==> packs(taken, message_ceiling, messages)
    &&& result.capacity == before.capacity
    &&& match outcome {
        Ok(batch) => {
            &&& !stalls(before.ledger, after, room)
            &&& all_fit(taken, message_ceiling)
            &&& before.outbox.len() + messages.len() <= before.capacity
            &&& batch@ == taken
            &&& batch.cursor == cursor_behind(taken, after)
            &&& batch.exhausted <==> taken.len() == pending(before.ledger, after).len()
            &&& batch.cost == total_cost(taken)
            &&& result.outbox == before.outbox + messages
            &&& result.ledger == without(before.ledger, taken)
        },
        Err(Error::ConfigurationError) => {
            stalls(before.ledger, after, room) || !all_fit(taken, message_ceiling)
        },
        Err(Error::TransportError) => {
            &&& !stalls(before.ledger, after, room)
            &&& all_fit(taken, message_ceiling)
            &&& before.outbox.len() + messages.len() > before.capacity
        },
        Err(_) => false,
    }
}

/// In an ascending ledger, taking a run out of the middle leaves the
/// records that are not in the run.
pub proof fn lemma_without_run(ledger: Seq<Entity>, start: int, count: int)
    requires
        ascending(ledger),
        0 <= start,
        0 <= count,
        start + count <= ledger.len(),
    ensures
        without(ledger, ledger.subrange(start, start + count)) == ledger.take(start) + ledger.skip(
            start + count,
        ),
    decreases ledger.len(),
{
    let run = ledger.subrange(start, start + count);
    let keep = |e: Entity| !run.contains(e);
    reveal(Seq::filter);
    if ledger.len() == 0 {
        assert(ledger.filter(keep) =~= ledger.take(start) + ledger.skip(start + count));
    } else {
        let front = ledger.drop_last();
        let last = ledger.last();
        if start + count == ledger.len() {
            if count == 0 {
                assert(run =~= Seq::<Entity>::empty());
                lemma_without_nothing(ledger);
                assert(ledger.take(start) + ledger.skip(start) =~= ledger);
            } else {
                assert(run[count - 1] == last);
                assert(run.contains(last));
                assert(!keep(last));
                lemma_without_run(front, start, count - 1);
                let shorter = front.subrange(start, start + count - 1);
                assert(shorter =~= run.drop_last());
                lemma_filter_same(front, shorter, run);
                assert(front.take(start) + front.skip(start + count - 1) =~= ledger.take(start)
                    + ledger.skip(start + count));
            }
        } else {
            assert forall|i: int| 0 <= i < run.len() implies run[i] != last by {
                assert(run[i] == ledger[start + i]);
                assert(ledger[start + i].key < ledger[ledger.len() - 1].key);
            }
            assert(!run.contains(last));
            assert(keep(last));
            lemma_without_run(front, start, count);
            assert(front.subrange(start, start + count) =~= run);
            assert((front.take(start) + front.skip(start + count)).push(last) =~= ledger.take(start)
                + ledger.skip(start + count));
        }
    }
}

/// Taking nothing out of a ledger leaves it whole.
pub proof fn lemma_without_nothing(ledger: Seq<Entity>)
    ensures
        without(ledger, Seq::<Entity>::empty()) == ledger,
    decreases ledger.len(),
{
    reveal(Seq::filter);
    let nothing = Seq::<Entity>::empty();
    let keep = |e: Entity| !nothing.contains(e);
    if ledger.len() > 0 {
        lemma_without_nothing(ledger.drop_last());
        assert(keep(ledger.last()));
        assert(ledger.drop_last().push(ledger.last()) =~= ledger);
    } else {
        assert(ledger.filter(keep) =~= ledger);
    }
}

/// Filtering out a run, or the run with one more record that the sequence
/// does not hold, gives the same.
proof fn lemma_filter_same(front: Seq<Entity>, shorter: Seq<Entity>, run: Seq<Entity>)
    requires
        run.len() > 0,
        shorter == run.drop_last(),
        forall|i: int| 0 <= i < front.len() ==> front[i] != run.last(),
    ensures
        without(front, shorter) == without(front, run),
    decreases front.len(),
{
    reveal(Seq::filter);
    let keep_shorter = |e: Entity| !shorter.contains(e);
    let keep_run = |e: Entity| !run.contains(e);
    if front.len() > 0 {
        lemma_filter_same(front.drop_last(), shorter, run);
        let last = front.last();
        if shorter.contains(last) {
            let i = choose|i: int| 0 <= i < shorter.len() && shorter[i] == last;
            assert(run[i] == last);
        }
        if run.contains(last) {
            let i = choose|i: int| 0 <= i < run.len() && run[i] == last;
            assert(i < run.len() - 1);
            assert(shorter[i] == last);
        }
        assert(keep_shorter(last) == keep_run(last));
    } else {
        assert(front.filter(keep_shorter) =~= front.filter(keep_run));
    }
}

/// Fixes the scope of the migration: visits every record of the ledger,
/// reserving the whole scan before it starts, and counts them. Changes
/// nothing in `storage`.
pub fn prepare(storage: &mut Storage, budget: &mut BudgetAccountant) -> (outcome: Result<
    usize,
    Error,
>)
    ensures
        final(storage)@ == old(storage)@,
        final(budget).within_ceiling(),
        final(budget).spec_ceiling() == old(budget).spec_ceiling(),
        outcome is Ok <==> old(storage)@.ledger.len() * SCAN_COST <= old(budget).spec_remaining(),
        outcome matches Ok(count) ==> count == old(storage)@.ledger.len()
            && final(budget).spec_consumed() == old(budget).spec_consumed() + count * SCAN_COST,
        outcome matches Err(error) ==> error == Error::OutOfBudget && final(budget).spec_consumed()
            == old(budget).spec_consumed(),
{
    let count = storage.ledger.len();
    let room = budget.remaining();
    if count as u64 > room / SCAN_COST {
        return Err(Error::OutOfBudget);
    }
    match budget.consume(count as u64 * SCAN_COST) {
        Ok(()) => Ok(count),
        Err(_) => Err(Error::OutOfBudget),
    }
}

/// Removes from the ledger the run of `count` records that starts at
/// `start`, one record after the other, by key.
fn remove_run(ledger: &mut Ledger, run: &Vec<Entity>, start: usize) -> (outcome: Result<(), Error>)
    requires
        start + run@.len() <= old(ledger)@.len(),
        run@ == old(ledger)@.subrange(start as int, start + run@.len()),
    ensures
        outcome is Ok,
        final(ledger).wf(),
        final(ledger)@ == without(old(ledger)@, run@),
{
    let ghost before = ledger@;
    let count = run.len();
    let mut index: usize = 0;
    proof {
        use_type_invariant(&*ledger);
        assert(before.take(start as int) + before.skip(start as int) =~= before);
    }
    while index < count
        invariant
            index <= count,
            count == run@.len(),
            start + count <= before.len(),
            run@ == before.subrange(start as int, start + count),
            ascending(before),
            ledger.wf(),
            ledger@ == before.take(start as int) + before.skip(start + index),
        decreases count - index,
    {
        let key = run[index].key;
        let ghost current = ledger@;
        proof {
            assert(current[start as int] == before[start + index]);
            assert(run@[index as int] == before[start + index]);
            assert(ledger.has_key(key));
        }
        match ledger.remove(key) {
            Ok(_) => {},
            Err(error) => {
                return Err(error);
            },
        }
        proof {
            let at = choose|at: int|
                0 <= at < current.len() && current[at].key == key && ledger@
                    == #[trigger] current.remove(at);
            if at < start {
                assert(current[at].key < current[start as int].key);
            } else if at > start {
                assert(current[start as int].key < current[at].key);
            }
            assert(current.remove(start as int) =~= before.take(start as int) + before.skip(
                start + index + 1,
            ));
        }
        index = index + 1;
    }
    proof {
        lemma_without_run(before, start as int, count as int);
    }
    Ok(())
}

/// Migrates one batch: scans the ledger behind `after` as far as the budget
/// goes, sends the batch in messages under the receiver's `message_ceiling`, and
/// removes its records from the ledger. On a failure `storage` may hold part
/// of the work; the caller runs this under the transactional guard.
pub fn migrate_accounts(
    storage: &mut Storage,
    budget: &mut BudgetAccountant,
    after: Option<EntityKey>,
    message_ceiling: u64,
) -> (outcome: Result<MigrationBatch, Error>)
    ensures
        final(budget).within_ceiling(),
        final(budget).spec_ceiling() == old(budget).spec_ceiling(),
        exists|taken: Seq<Entity>, messages: Seq<Seq<Entity>>|
            {
                &&& #[trigger] migration_step(
                    old(storage)@,
                    after,
                    old(budget).spec_remaining(),
                    message_ceiling,
                    taken,
                    messages,
                    outcome,
                    final(storage)@,
                )
                &&& final(budget).spec_consumed() == old(budget).spec_consumed() + total_cost(taken)
            },
{
    let ghost before = storage@;
    let ghost room = budget.spec_remaining();
    let ghost nothing = Seq::<Seq<Entity>>::empty();
    let start = storage.ledger.scan_from(after);
    let batch = PaginatedScanner::next_batch(&storage.ledger, after, budget);
    let ghost taken = batch@;
    let ghost candidates = pending(before.ledger, after);
    proof {
        if candidates.len() > 0 {
            lemma_takes_nothing(candidates, room as nat, taken.len() as int);
        }
        assert(before.ledger.subrange(start as int, start + taken.len()) =~= taken);
    }
    if batch.entities.len() == 0 && !batch.exhausted {
        proof {
            assert(migration_step(
                before,
                after,
                room,
                message_ceiling,
                taken,
                nothing,
                Err::<MigrationBatch, Error>(Error::ConfigurationError),
                storage@,
            ));
        }
        return Err(Error::ConfigurationError);
    }
    let ghost outbox_before = storage.outbox@;
    match OutboundMessenger::send(&batch, message_ceiling, &mut storage.outbox) {
        Ok(()) => {},
        Err(SendError::Oversized) => {
            proof {
                assert(migration_step(
                    before,
                    after,
                    room,
                    message_ceiling,
                    taken,
                    nothing,
                    Err::<MigrationBatch, Error>(Error::ConfigurationError),
                    storage@,
                ));
            }
            return Err(Error::ConfigurationError);
        },
        Err(SendError::Transport(_)) => {
            proof {
                let messages = choose|messages: Seq<Seq<Entity>>| #[trigger]
                    packs(taken, message_ceiling, messages) && !(messages.len() <= before.capacity
                        - outbox_before.len());
                assert(migration_step(
                    before,
                    after,
                    room,
                    message_ceiling,
                    taken,
                    messages,
                    Err::<MigrationBatch, Error>(Error::TransportError),
                    storage@,
                ));
            }
            return Err(Error::TransportError);
        },
    }
    let ghost messages = choose|messages: Seq<Seq<Entity>>| #[trigger]
        packs(taken, message_ceiling, messages) && messages.len() <= before.capacity
            - outbox_before.len()
            && storage.outbox@ == outbox_before + messages;
    match remove_run(&mut storage.ledger, &batch.entities, start) {
        Ok(()) => {},
        Err(error) => {
            return Err(error);
        },
    }
    proof {
        assert(migration_step(
            before,
            after,
            room,
            message_ceiling,
            taken,
            messages,
            Ok::<MigrationBatch, Error>(batch),
            storage@,
        ));
    }
    Ok(batch)
}

} // verus!
