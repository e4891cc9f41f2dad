//! What holds of every tick and of every run of ticks, stated over the
//! relation that describes a tick.

use vstd::prelude::*;
use crate::entity::{
    ascending, beyond, lemma_pending_beyond, lemma_pending_is_tail, pending, total_cost, Entity,
};
use crate::messenger::{all_fit, lemma_packs_count, lemma_packs_flatten, lemma_packs_unique};
use crate::operations::{lemma_without_run, stalls};
use crate::pallet::{migrates, resume_cursor, ticks, Event, PalletView, Tick};
use crate::scanner::{cursor_behind, lemma_takes_nothing, lemma_takes_unique};
use crate::stage::MigrationStage;

verus! {

/// The records that a tick took out of the ledger: the first `migrated` of
/// the records pending behind the cursor, if the tick committed a
/// transition; none otherwise.
pub open spec fn taken_by(before: PalletView, tick: Tick) -> Seq<Entity> {
    match tick.result {
        Ok(Event::StageTransition { migrated, .. }) => pending(
            before.ledger,
            resume_cursor(before.stage),
        ).take(migrated as int),
        _ => Seq::empty(),
    }
}

/// A tick that fails changes nothing: neither stage nor cursor, neither
/// ledger nor queue.
pub proof fn law_failed_tick_changes_nothing(
    before: PalletView,
    ceiling: u64,
    tick: Tick,
    after: PalletView,
)
    requires
        ticks(before, ceiling, tick, after),
        tick.result is Err,
    ensures
        after == before,
        tick.consumed == 0,
{
    if before.stage != MigrationStage::Done && before.stage != MigrationStage::Pending {
        let (taken, messages) = choose|taken: Seq<Entity>, messages: Seq<Seq<Entity>>| #[trigger]
            migrates(before, ceiling, taken, messages, tick, after);
    }
}

/// A tick that follows failed ticks is the tick that would have run in
/// their place: failures leave no trace, and the migration resumes where
/// it stood.
pub proof fn law_resumption_after_failure(
    start: PalletView,
    failing_ceiling: u64,
    failed: Tick,
    stalled: PalletView,
    ceiling: u64,
    tick: Tick,
    after: PalletView,
)
    requires
        ticks(start, failing_ceiling, failed, stalled),
        failed.result is Err,
        ticks(stalled, ceiling, tick, after),
    ensures
        ticks(start, ceiling, tick, after),
{
    law_failed_tick_changes_nothing(start, failing_ceiling, failed, stalled);
}

/// The compute that a tick reports never exceeds the ceiling under which
/// the work ran, and no batch exceeds the ceiling of its tick.
pub proof fn law_budget_ceiling_respected(
    before: PalletView,
    ceiling: u64,
    tick: Tick,
    after: PalletView,
)
    requires
        ticks(before, ceiling, tick, after),
    ensures
        tick.consumed <= tick.budget,
        tick.budget == ceiling || (tick.budget == before.config.max_budget && before.stage
            == MigrationStage::Pending),
        before.stage != MigrationStage::Pending ==> tick.consumed == total_cost(
            taken_by(before, tick),
        ) && total_cost(taken_by(before, tick)) <= ceiling,
{
    if before.stage != MigrationStage::Done && before.stage != MigrationStage::Pending {
        let (taken, messages) = choose|taken: Seq<Entity>, messages: Seq<Seq<Entity>>| #[trigger]
            migrates(before, ceiling, taken, messages, tick, after);
        assert(total_cost(Seq::<Entity>::empty()) == 0);
    } else {
        assert(total_cost(Seq::<Entity>::empty()) == 0);
    }
}

/// A committed transition only ever moves forward in the chain of stages:
/// to a later stage, or to a cursor further on in key order. The terminal
/// stage is never left.
pub proof fn law_stage_moves_forward(
    before: PalletView,
    ceiling: u64,
    tick: Tick,
    after: PalletView,
)
    requires
        ticks(before, ceiling, tick, after),
    ensures
        after.stage == before.stage || before.stage.precedes(after.stage),
        tick.result matches Ok(Event::StageTransition { from, to, .. }) ==> from == before.stage
            && to == after.stage && from.precedes(to),
        before.stage == MigrationStage::Done ==> after == before,
{
    if before.stage != MigrationStage::Done && before.stage != MigrationStage::Pending {
        let (taken, messages) = choose|taken: Seq<Entity>, messages: Seq<Seq<Entity>>| #[trigger]
            migrates(before, ceiling, taken, messages, tick, after);
        if tick.result is Ok && taken.len() > 0 {
            let candidates = pending(before.ledger, resume_cursor(before.stage));
            let last = taken.len() - 1;
            assert(taken[last] == candidates[last]);
            lemma_pending_beyond(before.ledger, resume_cursor(before.stage), last);
        }
    }
}

/// A tick whose unit of work fails ends in a terminal error and leaves the
/// stage as it was. A failure for want of budget or on a defensive check
/// is terminal after exactly two attempts, any other after one.
pub proof fn law_terminal_escalation(
    before: PalletView,
    ceiling: u64,
    tick: Tick,
    after: PalletView,
)
    requires
        ticks(before, ceiling, tick, after),
    ensures
        tick.result matches Err(terminal) ==> {
            &&& after.stage == before.stage
            &&& terminal.cause.retryable() <==> terminal.attempts == 2
            &&& !terminal.cause.retryable() <==> terminal.attempts == 1
        },
{
    if before.stage != MigrationStage::Done && before.stage != MigrationStage::Pending {
        let (taken, messages) = choose|taken: Seq<Entity>, messages: Seq<Seq<Entity>>| #[trigger]
            migrates(before, ceiling, taken, messages, tick, after);
    }
}

/// A tick that migrates records hands exactly those records to the
/// transport: the messages it appends to the queue, one after the other,
/// are the batch, each record once and in key order.
pub proof fn law_tick_sends_what_it_takes(
    before: PalletView,
    ceiling: u64,
    tick: Tick,
    after: PalletView,
)
    requires
        ticks(before, ceiling, tick, after),
    ensures
        exists|messages: Seq<Seq<Entity>>|
            {
                &&& after.outbox == before.outbox + messages
                &&& #[trigger] messages.flatten() == taken_by(before, tick)
            },
{
    let nothing = Seq::<Seq<Entity>>::empty();
    assert(nothing.flatten() =~= Seq::<Entity>::empty());
    assert(before.outbox + nothing =~= before.outbox);
    if before.stage != MigrationStage::Done && before.stage != MigrationStage::Pending {
        let (taken, messages) = choose|taken: Seq<Entity>, messages: Seq<Seq<Entity>>| #[trigger]
            migrates(before, ceiling, taken, messages, tick, after);
        if tick.result is Ok {
            lemma_packs_flatten(taken, before.config.message_ceiling, messages);
            assert(messages.flatten() == taken_by(before, tick));
        } else {
            assert(nothing.flatten() == taken_by(before, tick));
        }
    } else {
        assert(pending(before.ledger, resume_cursor(before.stage)).take(0)
            =~= Seq::<Entity>::empty());
        assert(nothing.flatten() == taken_by(before, tick));
    }
}

/// A tick that migrates records succeeds whenever the ceiling covers the
/// first pending record, every pending record fits into a message, and the
/// queue has room for a message for each of them.
pub proof fn law_tick_succeeds_when_ceilings_allow(
    before: PalletView,
    ceiling: u64,
    tick: Tick,
    after: PalletView,
)
    requires
        ticks(before, ceiling, tick, after),
        before.stage != MigrationStage::Pending,
        !stalls(before.ledger, resume_cursor(before.stage), ceiling),
        all_fit(pending(before.ledger, resume_cursor(before.stage)), before.config.message_ceiling),
        before.outbox.len() + pending(before.ledger, resume_cursor(before.stage)).len()
            <= before.capacity,
    ensures
        tick.result is Ok,
{
    if before.stage != MigrationStage::Done {
        let (taken, messages) = choose|taken: Seq<Entity>, messages: Seq<Seq<Entity>>| #[trigger]
            migrates(before, ceiling, taken, messages, tick, after);
        let candidates = pending(before.ledger, resume_cursor(before.stage));
        assert forall|i: int| 0 <= i < taken.len() implies (#[trigger] taken[i]).cost
            <= before.config.message_ceiling by {
            assert(taken[i] == candidates[i]);
        }
        lemma_packs_count(taken, before.config.message_ceiling, messages);
    }
}

/// What a tick does is determined by the state it finds and its ceiling:
/// the same state and the same ceiling give the same account and the same
/// state after.
pub proof fn law_tick_is_determined(
    before: PalletView,
    ceiling: u64,
    first: Tick,
    first_after: PalletView,
    second: Tick,
    second_after: PalletView,
)
    requires
        ticks(before, ceiling, first, first_after),
        ticks(before, ceiling, second, second_after),
    ensures
        first == second,
        first_after == second_after,
{
    if before.stage != MigrationStage::Done && before.stage != MigrationStage::Pending {
        let (taken, messages) = choose|taken: Seq<Entity>, messages: Seq<Seq<Entity>>| #[trigger]
            migrates(before, ceiling, taken, messages, first, first_after);
        let (other, packaging) = choose|taken: Seq<Entity>, messages: Seq<Seq<Entity>>| #[trigger]
            migrates(before, ceiling, taken, messages, second, second_after);
        lemma_takes_unique(
            pending(before.ledger, resume_cursor(before.stage)),
            ceiling as nat,
            taken.len() as int,
            other.len() as int,
        );
        assert(taken == other);
        if all_fit(taken, before.config.message_ceiling) {
            lemma_packs_unique(taken, before.config.message_ceiling, messages, packaging);
        }
    }
}

/// One tick of a run: the state it found, the ceiling it ran under, its
/// account, and the state it left.
pub ghost struct Step {
    /// The state before the tick.
    pub before: PalletView,
    /// The ceiling of the tick.
    pub ceiling: u64,
    /// The account of the tick.
    pub tick: Tick,
    /// The state after the tick.
    pub after: PalletView,
}

/// Whether `steps` is a run of ticks: each step is a tick, and each starts
/// from the stage and the ledger that the step before left. Between two
/// ticks the host may have emptied the queue.
pub open spec fn is_run(steps: Seq<Step>) -> bool {
    &&& forall|i: int|
        0 <= i < steps.len() ==> ticks(
            (#[trigger] steps[i]).before,
            steps[i].ceiling,
            steps[i].tick,
            steps[i].after,
        )
    &&& forall|i: int|
        0 <= i < steps.len() - 1 ==> (#[trigger] steps[i]).after.stage == steps[i + 1].before.stage
            && steps[i].after.ledger == steps[i + 1].before.ledger
}

/// Everything that the ticks of a run took out of the ledger, in the order
/// in which they took it.
pub open spec fn migrated_in(steps: Seq<Step>) -> Seq<Entity>
    decreases steps.len(),
{
    if steps.len() == 0 {
        Seq::empty()
    } else {
        migrated_in(steps.drop_last()) + taken_by(steps.last().before, steps.last().tick)
    }
}

/// Whether `migrated` and `ledger` are the two parts of `scope` at the
/// given stage: the migrated records first, the ledger behind them; before
/// the first batch nothing is migrated, during the bulk migration the
/// cursor is the key of the last record migrated, and at the end the
/// ledger is empty.
pub open spec fn splits(
    scope: Seq<Entity>,
    migrated: Seq<Entity>,
    stage: MigrationStage,
    ledger: Seq<Entity>,
) -> bool {
    &&& migrated + ledger == scope
    &&& match stage {
        MigrationStage::Pending => migrated.len() == 0,
        MigrationStage::InitAccountMigration => migrated.len() == 0,
        MigrationStage::MigratingAccounts { cursor } => cursor == cursor_behind(migrated, None),
        MigrationStage::Done => ledger.len() == 0,
    }
}

/// Where the scope is split at a stage, every record of the ledger lies
/// beyond the cursor: the scan resumes with the whole ledger.
proof fn lemma_ledger_is_pending(
    scope: Seq<Entity>,
    migrated: Seq<Entity>,
    stage: MigrationStage,
    ledger: Seq<Entity>,
)
    requires
        ascending(scope),
        splits(scope, migrated, stage, ledger),
    ensures
        pending(ledger, resume_cursor(stage)) == ledger,
        ascending(ledger),
{
    let cursor = resume_cursor(stage);
    assert forall|i: int| 0 <= i < ledger.len() implies beyond(
        #[trigger] ledger[i].key,
        cursor,
    ) by {
        if cursor is Some {
            let last = migrated.len() - 1;
            assert(scope[last] == migrated[last]);
            assert(scope[migrated.len() + i] == ledger[i]);
        }
    }
    assert forall|i: int, j: int| 0 <= i < j < ledger.len() implies ledger[i].key
        < ledger[j].key by {
        assert(scope[migrated.len() + i] == ledger[i]);
        assert(scope[migrated.len() + j] == ledger[j]);
    }
    lemma_pending_is_tail(ledger, cursor, 0);
    assert(ledger.skip(0) =~= ledger);
}

/// One tick keeps the scope split: what it takes moves from the head of
/// the ledger to the end of the migrated records.
proof fn lemma_tick_keeps_split(
    scope: Seq<Entity>,
    migrated: Seq<Entity>,
    before: PalletView,
    ceiling: u64,
    tick: Tick,
    after: PalletView,
)
    requires
        ascending(scope),
        splits(scope, migrated, before.stage, before.ledger),
        ticks(before, ceiling, tick, after),
    ensures
        splits(scope, migrated + taken_by(before, tick), after.stage, after.ledger),
{
    let took = taken_by(before, tick);
    lemma_ledger_is_pending(scope, migrated, before.stage, before.ledger);
    if tick.result is Err {
        law_failed_tick_changes_nothing(before, ceiling, tick, after);
        assert(migrated + took =~= migrated);
    } else if before.stage == MigrationStage::Done {
        assert(migrated + took =~= migrated);
    } else if before.stage == MigrationStage::Pending {
        assert(before.ledger.take(0) =~= Seq::<Entity>::empty());
        assert(migrated + took =~= migrated);
    } else {
        let (taken, messages) = choose|taken: Seq<Entity>, messages: Seq<Seq<Entity>>| #[trigger]
            migrates(before, ceiling, taken, messages, tick, after);
        let count = taken.len() as int;
        assert(took == taken);
        assert(after.ledger == before.ledger.skip(count)) by {
            lemma_without_run(before.ledger, 0, count);
            assert(before.ledger.subrange(0, count) =~= taken);
            assert(before.ledger.take(0) + before.ledger.skip(count) =~= before.ledger.skip(
                count,
            ));
        }
        assert((migrated + taken) + after.ledger =~= migrated + before.ledger);
        if count == 0 {
            if before.ledger.len() > 0 {
                lemma_takes_nothing(before.ledger, ceiling as nat, 0);
            }
            assert(migrated + taken =~= migrated);
        } else {
            assert((migrated + taken).last() == taken.last());
        }
    }
}

/// Over a run that starts with an ascending ledger and nothing migrated,
/// the records migrated so far and the records still in the ledger are
/// the ledger of the start, in key order.
proof fn lemma_run_keeps_split(steps: Seq<Step>)
    requires
        is_run(steps),
        steps.len() > 0,
        ascending(steps[0].before.ledger),
        steps[0].before.stage == MigrationStage::Pending || steps[0].before.stage
            == MigrationStage::InitAccountMigration,
    ensures
        splits(
            steps[0].before.ledger,
            migrated_in(steps),
            steps.last().after.stage,
            steps.last().after.ledger,
        ),
    decreases steps.len(),
{
    let scope = steps[0].before.ledger;
    let last = steps.last();
    let earlier = steps.drop_last();
    if earlier.len() == 0 {
        assert(migrated_in(earlier) =~= Seq::<Entity>::empty());
        assert(migrated_in(earlier) + scope =~= scope);
        lemma_tick_keeps_split(
            scope,
            migrated_in(earlier),
            last.before,
            last.ceiling,
            last.tick,
            last.after,
        );
    } else {
        assert(is_run(earlier)) by {
            assert forall|i: int| 0 <= i < earlier.len() implies ticks(
                (#[trigger] earlier[i]).before,
                earlier[i].ceiling,
                earlier[i].tick,
                earlier[i].after,
            ) by {
                assert(earlier[i] == steps[i]);
            }
            assert forall|i: int| 0 <= i < earlier.len() - 1 implies ({
                &&& (#[trigger] earlier[i]).after.stage == earlier[i + 1].before.stage
                &&& earlier[i].after.ledger == earlier[i + 1].before.ledger
            }) by {
                assert(earlier[i] == steps[i]);
                assert(earlier[i + 1] == steps[i + 1]);
            }
        }
        assert(earlier[0] == steps[0]);
        lemma_run_keeps_split(earlier);
        let previous = steps[steps.len() - 2];
        assert(earlier.last() == previous);
        assert(previous.after.stage == last.before.stage);
        assert(previous.after.ledger == last.before.ledger);
        lemma_tick_keeps_split(
            scope,
            migrated_in(earlier),
            last.before,
            last.ceiling,
            last.tick,
            last.after,
        );
    }
}

/// At every point of a run nothing is lost and nothing taken twice: the
/// records migrated so far, followed by the records still in the ledger,
/// are the records the run started with, in ascending key order.
pub proof fn law_nothing_lost_nothing_twice(steps: Seq<Step>)
    requires
        is_run(steps),
        steps.len() > 0,
        ascending(steps[0].before.ledger),
        steps[0].before.stage == MigrationStage::Pending || steps[0].before.stage
            == MigrationStage::InitAccountMigration,
    ensures
        migrated_in(steps) + steps.last().after.ledger == steps[0].before.ledger,
        ascending(migrated_in(steps) + steps.last().after.ledger),
{
    lemma_run_keeps_split(steps);
}

/// Once a run has reached `Done`, every record it started with has been
/// migrated exactly once, in ascending key order, whatever the ceilings of
/// its ticks were.
pub proof fn law_done_means_all_migrated(steps: Seq<Step>)
    requires
        is_run(steps),
        steps.len() > 0,
        ascending(steps[0].before.ledger),
        steps[0].before.stage == MigrationStage::Pending || steps[0].before.stage
            == MigrationStage::InitAccountMigration,
        steps.last().after.stage == MigrationStage::Done,
    ensures
        migrated_in(steps) == steps[0].before.ledger,
        ascending(migrated_in(steps)),
        steps.last().after.ledger.len() == 0,
{
    lemma_run_keeps_split(steps);
    assert(migrated_in(steps) + steps.last().after.ledger =~= migrated_in(steps));
}

} // verus!
