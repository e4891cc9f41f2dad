//! The stage controller: it owns the persisted stage, decides what a tick
//! runs, and commits the transition once the unit of work has succeeded.

use vstd::prelude::*;
use crate::budget::BudgetAccountant;
use crate::entity::{ascending, total_cost, Entity, EntityKey};
use crate::error::Error;
use crate::laws::{
    law_budget_ceiling_respected, law_failed_tick_changes_nothing, law_stage_moves_forward,
};
use crate::messenger::{all_fit, contents, packs, OutboundMessage};
use crate::operations::{
    batch_of, migrate_accounts, migration_step, prepare, stalls, without, SCAN_COST,
};
use crate::retry::{fails, retried, RetryPolicy, TerminalError};
use crate::scanner::{cursor_behind, MigrationBatch};
use crate::stage::MigrationStage;
use crate::storage::{Storage, StorageView};

verus! {

/// Runs the scope-fixing scan under guard and retry policy: first within
/// `ceiling`, and if that does not cover the scan, once more within
/// `max_budget`.
pub fn run_prepare(storage: &mut Storage, ceiling: u64, max_budget: u64) -> (outcome: Result<
    usize,
    TerminalError,
>)
    ensures
        final(storage)@ == old(storage)@,
        outcome is Ok <==> old(storage)@.ledger.len() * SCAN_COST <= ceiling || old(
            storage,
        )@.ledger.len() * SCAN_COST <= max_budget,
        outcome matches Ok(count) ==> count == old(storage)@.ledger.len(),
        outcome matches Err(terminal) ==> terminal == (TerminalError {
            cause: Error::OutOfBudget,
            attempts: 2,
        }),
{
    let op = |s: &mut Storage, b: &mut BudgetAccountant| -> (r: Result<usize, Error>)
        ensures
            final(s)@ == old(s)@,
            r is Ok <==> old(s)@.ledger.len() * SCAN_COST <= old(b).spec_remaining(),
            r matches Ok(count) ==> count == old(s)@.ledger.len(),
            r matches Err(error) ==> error == Error::OutOfBudget,
        { prepare(s, b) };
    let ghost before = storage@;
    let outcome = RetryPolicy::run_with_retry(storage, op, ceiling, max_budget);
    proof {
        match outcome {
            Ok(count) => {
                if !(before.ledger.len() * SCAN_COST <= ceiling) {
                    assert(retried::<Storage, usize, _>(op, before, ceiling));
                }
            },
            Err(terminal) => {
                if terminal.attempts == 1 {
                    assert(fails::<Storage, usize, _>(op, before, ceiling, terminal.cause));
                } else {
                    assert(fails::<Storage, usize, _>(op, before, max_budget, terminal.cause));
                    assert(retried::<Storage, usize, _>(op, before, ceiling));
                }
            },
        }
    }
    outcome
}

/// The failure of a migration step as the retry policy reports it, or its
/// success.
pub open spec fn unescalated(outcome: Result<MigrationBatch, TerminalError>) -> Result<
    MigrationBatch,
    Error,
> {
    match outcome {
        Ok(batch) => Ok(batch),
        Err(terminal) => Err(terminal.cause),
    }
}

/// Runs one migration step under guard and retry policy. The step takes the
/// longest run of records behind `after` that `ceiling` covers, sends it
/// under `message_ceiling` and removes it from the ledger. Its failures are
/// not of the kind that a larger budget mends, so a failure is terminal
/// after one attempt and leaves `storage` as it was.
pub fn run_migrate(
    storage: &mut Storage,
    after: Option<EntityKey>,
    message_ceiling: u64,
    ceiling: u64,
    max_budget: u64,
) -> (outcome: Result<MigrationBatch, TerminalError>)
    ensures
        outcome matches Err(terminal) ==> final(storage)@ == old(storage)@ && terminal.attempts
            == 1,
        exists|taken: Seq<Entity>, messages: Seq<Seq<Entity>>, reached: StorageView|
            {
                &&& #[trigger] migration_step(
                    old(storage)@,
                    after,
                    ceiling,
                    message_ceiling,
                    taken,
                    messages,
                    unescalated(outcome),
                    reached,
                )
                &&& total_cost(taken) <= ceiling
                &&& outcome is Ok ==> reached == final(storage)@
            },
{
    let op = |s: &mut Storage, b: &mut BudgetAccountant| -> (r: Result<MigrationBatch, Error>)
        ensures
            exists|taken: Seq<Entity>, messages: Seq<Seq<Entity>>|
                {
                    &&& #[trigger] migration_step(
                        old(s)@,
                        after,
                        old(b).spec_remaining(),
                        message_ceiling,
                        taken,
                        messages,
                        r,
                        final(s)@,
                    )
                    &&& old(b).spec_consumed() + total_cost(taken) <= old(b).spec_ceiling()
                },
        {
            let r = migrate_accounts(s, b, after, message_ceiling);
            proof {
                b.lemma_consumed_within_ceiling();
            }
            r
        };
    let ghost before = storage@;
    let outcome = RetryPolicy::run_with_retry(storage, op, ceiling, max_budget);
    proof {
        match &outcome {
            Ok(batch) => {
                let lifted = Ok::<MigrationBatch, Error>(*batch);
                assert(unescalated(outcome) == lifted);
                if retried::<Storage, MigrationBatch, _>(op, before, ceiling) {
                    let first = choose|first: Error|
                        first.retryable() && #[trigger] fails::<Storage, MigrationBatch, _>(
                            op,
                            before,
                            ceiling,
                            first,
                        );
                    assert(false);
                }
            },
            Err(terminal) => {
                if terminal.attempts == 1 {
                    assert(fails::<Storage, MigrationBatch, _>(
                        op,
                        before,
                        ceiling,
                        terminal.cause,
                    ));
                } else {
                    let first = choose|first: Error|
                        first.retryable() && #[trigger] fails::<Storage, MigrationBatch, _>(
                            op,
                            before,
                            ceiling,
                            first,
                        );
                    assert(false);
                }
            },
        }
    }
    outcome
}

/// What the host fixes once for a migration run.
#[derive(Clone, Copy, Debug, PartialEq, Eq, Structural)]
pub struct Config {
    /// The largest budget that a tick can ever be given. The retry policy
    /// uses it for the second attempt.
    pub max_budget: u64,
    /// What the destination processes at most in one message.
    pub message_ceiling: u64,
}

/// What a tick did to the stage.
#[derive(Clone, Copy, Debug, PartialEq, Eq, Structural)]
pub enum Event {
    /// The migration is done; the tick had nothing to do.
    Idle,
    /// The unit of work of the stage succeeded and the transition was
    /// committed.
    StageTransition {
        /// The stage the tick found.
        from: MigrationStage,
        /// The stage the tick left.
        to: MigrationStage,
        /// The number of records migrated by the tick.
        migrated: usize,
    },
}

/// The account of one tick.
#[derive(Clone, Copy, Debug, PartialEq, Eq)]
pub struct Tick {
    /// The compute of the work that the tick committed; zero if it
    /// committed none.
    pub consumed: u64,
    /// The ceiling under which that work ran: the ceiling of the tick, or
    /// the largest budget if the work succeeded only on the second attempt.
    pub budget: u64,
    /// The committed transition, or the failure that left everything as it
    /// was.
    pub result: Result<Event, TerminalError>,
}

/// The stage controller together with the durable state it works on.
pub struct Pallet {
    config: Config,
    stage: MigrationStage,
    storage: Storage,
}

/// What a `Pallet` holds, as plain values.
pub ghost struct PalletView {
    /// The configuration of the run.
    pub config: Config,
    /// The persisted stage.
    pub stage: MigrationStage,
    /// The records in the source ledger, in ascending key order.
    pub ledger: Seq<Entity>,
    /// The content of each message waiting for the host, oldest first.
    pub outbox: Seq<Seq<Entity>>,
    /// The number of messages the queue can hold.
    pub capacity: usize,
}

impl View for Pallet {
    type V = PalletView;

    closed spec fn view(&self) -> PalletView {
        PalletView {
            config: self.config,
            stage: self.stage,
            ledger: self.storage.ledger@,
            outbox: self.storage.outbox@,
            capacity: self.storage.outbox.spec_capacity(),
        }
    }
}

/// The cursor that a stage resumes the scan from.
pub open spec fn resume_cursor(stage: MigrationStage) -> Option<EntityKey> {
    match stage {
        MigrationStage::MigratingAccounts { cursor } => cursor,
        _ => None,
    }
}

/// What a tick does on the terminal stage: nothing.
pub open spec fn idles(before: PalletView, ceiling: u64, tick: Tick, after: PalletView) -> bool {
    &&& tick.result == Ok::<Event, TerminalError>(Event::Idle)
    &&& tick.consumed == 0
    &&& tick.budget == ceiling
    &&& after == before
}

/// What a tick does on `Pending`: it fixes the scope if the ceiling of the
/// tick, or else the largest budget, covers a visit of every record, and
/// moves on to `InitAccountMigration`. If neither covers it the tick ends
/// in a terminal error after two attempts and changes nothing.
pub open spec fn prepares(before: PalletView, ceiling: u64, tick: Tick, after: PalletView) -> bool {
    let cost = before.ledger.len() * SCAN_COST;
    if cost <= ceiling || cost <= before.config.max_budget {
        &&& tick.result == Ok::<Event, TerminalError>(
            Event::StageTransition {
                from: MigrationStage::Pending,
                to: MigrationStage::InitAccountMigration,
                migrated: 0,
            },
        )
        &&& tick.consumed == cost
        &&& tick.budget == if cost <= ceiling {
            ceiling
        } else {
            before.config.max_budget
        }
        &&& after == (PalletView { stage: MigrationStage::InitAccountMigration, ..before })
    } else {
        &&& tick.result == Err::<Event, TerminalError>(
            TerminalError { cause: Error::OutOfBudget, attempts: 2 },
        )
        &&& tick.consumed == 0
        &&& tick.budget == ceiling
        &&& after == before
    }
}

/// What a tick does while records are migrated, with `taken` the batch that
/// the scan cuts under the ceiling and `messages` its packaging. A budget
/// that covers no pending record, or a record that fits into no message, is
/// a configuration error; a queue without room for the messages is a
/// transport error. Either ends the tick after one attempt and changes
/// nothing. Otherwise the batch leaves the ledger, its messages join the
/// queue and the stage moves on: to `Done` if nothing was left to take, else
/// to the cursor behind the batch.
pub open spec fn migrates(
    before: PalletView,
    ceiling: u64,
    taken: Seq<Entity>,
    messages: Seq<Seq<Entity>>,
    tick: Tick,
    after: PalletView,
) -> bool {
    let cursor = resume_cursor(before.stage);
    let limit = before.config.message_ceiling;
    &&& batch_of(before.ledger, cursor, ceiling, taken)
    &&& all_fit(taken, limit) ==> packs(taken, limit, messages)
    &&& if stalls(before.ledger, cursor, ceiling) || !all_fit(taken, limit) {
        &&& tick.result == Err::<Event, TerminalError>(
            TerminalError { cause: Error::ConfigurationError, attempts: 1 },
        )
        &&& tick.consumed == 0
        &&& tick.budget == ceiling
        &&& after == before
    } else if before.outbox.len() + messages.len() > before.capacity {
        &&& tick.result == Err::<Event, TerminalError>(
            TerminalError { cause: Error::TransportError, attempts: 1 },
        )
        &&& tick.consumed == 0
        &&& tick.budget == ceiling
        &&& after == before
    } else {
        let to = before.stage.successor(taken.len(), cursor_behind(taken, cursor));
        &&& tick.result matches Ok(Event::StageTransition { from, to: reached, migrated })
        &&& from == before.stage
        &&& reached == to
        &&& migrated == taken.len()
        &&& tick.consumed == total_cost(taken)
        &&& tick.budget == ceiling
        &&& after == (PalletView {
            stage: to,
            ledger: without(before.ledger, taken),
            outbox: before.outbox + messages,
            ..before
        })
    }
}

/// What one tick with the given ceiling does to a controller state.
pub open spec fn ticks(before: PalletView, ceiling: u64, tick: Tick, after: PalletView) -> bool {
    match before.stage {
        MigrationStage::Done => idles(before, ceiling, tick, after),
        MigrationStage::Pending => prepares(before, ceiling, tick, after),
        _ => exists|taken: Seq<Entity>, messages: Seq<Seq<Entity>>| #[trigger]
            migrates(before, ceiling, taken, messages, tick, after),
    }
}

/// The durable part of a controller state.
pub open spec fn held(state: PalletView) -> StorageView {
    StorageView { ledger: state.ledger, outbox: state.outbox, capacity: state.capacity }
}

impl Pallet {
    /// A controller before the migration: stage `Pending`, nothing in the
    /// ledger, and an empty queue that holds up to `outbox_capacity`
    /// messages.
    pub fn new(config: Config, outbox_capacity: usize) -> (pallet: Self)
        ensures
            pallet@.config == config,
            pallet@.stage == MigrationStage::Pending,
            pallet@.ledger == Seq::<Entity>::empty(),
            pallet@.outbox == Seq::<Seq<Entity>>::empty(),
            pallet@.capacity == outbox_capacity,
    {
        Pallet { config, stage: MigrationStage::Pending, storage: Storage::new(outbox_capacity) }
    }

    /// A controller that takes up a migration where it was left: with the
    /// stage as it was persisted and the durable state as it was kept.
    pub fn restore(config: Config, stage: MigrationStage, storage: Storage) -> (pallet: Self)
        ensures
            pallet@.config == config,
            pallet@.stage == stage,
            held(pallet@) == storage@,
    {
        Pallet { config, stage, storage }
    }

    /// The persisted stage.
    pub fn stage(&self) -> (stage: MigrationStage)
        ensures
            stage == self@.stage,
    {
        self.stage
    }

    /// The configuration of the run.
    pub fn config(&self) -> (config: Config)
        ensures
            config == self@.config,
    {
        self.config
    }

    /// The number of records in the source ledger.
    pub fn remaining(&self) -> (count: usize)
        ensures
            count == self@.ledger.len(),
    {
        self.storage.ledger.len()
    }

    /// The record at `index` of the source ledger in key order, if there is
    /// one.
    pub fn entity(&self, index: usize) -> (found: Option<Entity>)
        ensures
            index < self@.ledger.len() ==> found == Some(self@.ledger[index as int]),
            index >= self@.ledger.len() ==> found is None,
    {
        self.storage.ledger.get(index)
    }

    /// The number of messages waiting for the host.
    pub fn outbound(&self) -> (count: usize)
        ensures
            count == self@.outbox.len(),
    {
        self.storage.outbox.len()
    }

    /// Adds a record to the source ledger. This is the ordinary way to
    /// change the ledger, and it is open only until the scope is fixed:
    /// once the stage has left `Pending` the record is refused. So is a
    /// record whose key the ledger already holds.
    pub fn register(&mut self, entity: Entity) -> (outcome: Result<(), Error>)
        ensures
            ascending(final(self)@.ledger),
            final(self)@.config == old(self)@.config,
            final(self)@.stage == old(self)@.stage,
            final(self)@.outbox == old(self)@.outbox,
            final(self)@.capacity == old(self)@.capacity,
            outcome is Ok <==> old(self)@.stage == MigrationStage::Pending && forall|i: int|
                0 <= i < old(self)@.ledger.len() ==> (#[trigger] old(self)@.ledger[i]).key
                    != entity.key,
            outcome is Err ==> outcome == Err::<(), Error>(Error::TransientOperationFailure)
                && final(self)@.ledger == old(self)@.ledger,
            outcome is Ok ==> exists|at: int|
                0 <= at <= old(self)@.ledger.len() && final(self)@.ledger
                    == #[trigger] old(self)@.ledger.insert(at, entity),
    {
        match self.stage {
            MigrationStage::Pending => {},
            _ => {
                proof {
                    use_type_invariant(&self.storage.ledger);
                }
                return Err(Error::TransientOperationFailure);
            },
        }
        let outcome = self.storage.ledger.insert(entity);
        proof {
            if outcome is Ok {
                let at = choose|at: int|
                    0 <= at <= old(self)@.ledger.len() && self@.ledger
                        == #[trigger] old(self)@.ledger.insert(at, entity);
                assert(self@.ledger == old(self)@.ledger.insert(at, entity));
            }
        }
        outcome
    }

    /// Takes the waiting messages out of the queue, oldest first, for the
    /// host to put on the wire.
    pub fn take_outbound(&mut self) -> (messages: Vec<OutboundMessage>)
        ensures
            final(self)@ == (PalletView { outbox: Seq::empty(), ..old(self)@ }),
            contents(messages@) == old(self)@.outbox,
    {
        self.storage.outbox.drain()
    }

    /// Writes the stage.
    fn transition(&mut self, new_stage: MigrationStage)
        ensures
            final(self)@ == (PalletView { stage: new_stage, ..old(self)@ }),
    {
        self.stage = new_stage;
    }

    /// The tick of the stage `Pending`.
    fn tick_pending(&mut self, ceiling: u64) -> (tick: Tick)
        requires
            old(self)@.stage == MigrationStage::Pending,
        ensures
            prepares(old(self)@, ceiling, tick, final(self)@),
    {
        let ghost before = self@;
        match run_prepare(&mut self.storage, ceiling, self.config.max_budget) {
            Ok(count) => {
                let to = MigrationStage::InitAccountMigration;
                self.transition(to);
                let consumed = count as u64 * SCAN_COST;
                let budget = if consumed <= ceiling {
                    ceiling
                } else {
                    self.config.max_budget
                };
                proof {
                    assert(self@ =~= (PalletView {
                        stage: MigrationStage::InitAccountMigration,
                        ..before
                    }));
                }
                Tick {
                    consumed,
                    budget,
                    result: Ok(
                        Event::StageTransition { from: MigrationStage::Pending, to, migrated: 0 },
                    ),
                }
            },
            Err(terminal) => {
                proof {
                    assert(self@ =~= before);
                }
                Tick { consumed: 0, budget: ceiling, result: Err(terminal) }
            },
        }
    }

    /// The tick of the stages that migrate records.
    fn tick_migrating(&mut self, ceiling: u64) -> (tick: Tick)
        requires
            old(self)@.stage != MigrationStage::Pending,
            old(self)@.stage != MigrationStage::Done,
        ensures
            exists|taken: Seq<Entity>, messages: Seq<Seq<Entity>>| #[trigger]
                migrates(old(self)@, ceiling, taken, messages, tick, final(self)@),
    {
        let stage = self.stage;
        let ghost before = self@;
        let after = match stage {
            MigrationStage::MigratingAccounts { cursor } => cursor,
            _ => None,
        };
        let outcome = run_migrate(
            &mut self.storage,
            after,
            self.config.message_ceiling,
            ceiling,
            self.config.max_budget,
        );
        let ghost (run, messages, reached) = choose|
            run: Seq<Entity>,
            messages: Seq<Seq<Entity>>,
            reached: StorageView,
        |
            {
                &&& #[trigger] migration_step(
                    held(before),
                    after,
                    ceiling,
                    before.config.message_ceiling,
                    run,
                    messages,
                    unescalated(outcome),
                    reached,
                )
                &&& total_cost(run) <= ceiling
                &&& outcome is Ok ==> reached == self.storage@
            };
        match outcome {
            Ok(batch) => {
                let taken = batch.entities.len();
                let to = stage.next(taken, batch.cursor);
                self.transition(to);
                let tick = Tick {
                    consumed: batch.cost,
                    budget: ceiling,
                    result: Ok(Event::StageTransition { from: stage, to, migrated: taken }),
                };
                proof {
                    assert(self@ =~= (PalletView {
                        stage: to,
                        ledger: without(before.ledger, run),
                        outbox: before.outbox + messages,
                        ..before
                    }));
                    assert(migrates(before, ceiling, run, messages, tick, self@));
                }
                tick
            },
            Err(terminal) => {
                let tick = Tick { consumed: 0, budget: ceiling, result: Err(terminal) };
                proof {
                    assert(self@ =~= before);
                    assert(migrates(before, ceiling, run, messages, tick, self@));
                }
                tick
            },
        }
    }

    /// Runs one tick under the given compute ceiling: reads the stage, runs
    /// the unit of work of that stage under guard and retry policy, and
    /// commits the next stage if the work succeeded. A failed tick leaves
    /// stage, ledger and queue exactly as they were.
    pub fn on_initialize(&mut self, ceiling: u64) -> (tick: Tick)
        ensures
            ticks(old(self)@, ceiling, tick, final(self)@),
            tick.result is Err ==> final(self)@ == old(self)@,
            tick.consumed <= tick.budget,
            final(self)@.stage == old(self)@.stage || old(self)@.stage.precedes(
                final(self)@.stage,
            ),
    {
        let tick = match self.stage {
            MigrationStage::Done => Tick { consumed: 0, budget: ceiling, result: Ok(Event::Idle) },
            MigrationStage::Pending => self.tick_pending(ceiling),
            _ => self.tick_migrating(ceiling),
        };
        proof {
            if tick.result is Err {
                law_failed_tick_changes_nothing(old(self)@, ceiling, tick, self@);
            }
            law_budget_ceiling_respected(old(self)@, ceiling, tick, self@);
            law_stage_moves_forward(old(self)@, ceiling, tick, self@);
        }
        tick
    }

    /// A call that does nothing and always succeeds.
    pub fn do_something(&self) -> (outcome: Result<(), Error>)
        ensures
            outcome is Ok,
    {
        Ok(())
    }
}

} // verus!
