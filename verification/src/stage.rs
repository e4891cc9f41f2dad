//! The persisted stage of the migration and the order of its transitions.

use vstd::prelude::*;
use crate::entity::EntityKey;

verus! {

/// Where the migration stands. The single source of truth for progress:
/// read once and written at most once per tick.
#[derive(Clone, Copy, Debug, PartialEq, Eq, Structural)]
pub enum MigrationStage {
    /// The migration has not started; it starts with the next tick.
    Pending,
    /// The scope is fixed; the first batch is taken with the next tick.
    InitAccountMigration,
    /// The bulk migration is under way.
    MigratingAccounts {
        /// The key of the last record migrated, or `None` before the first.
        cursor: Option<EntityKey>,
    },
    /// Everything is migrated. No further tick acts.
    Done,
}

impl Default for MigrationStage {
    fn default() -> (stage: Self)
        ensures
            stage == MigrationStage::Pending,
    {
        MigrationStage::Pending
    }
}

impl MigrationStage {
    /// The position of the stage in the forward-only chain.
    pub open spec fn rank(self) -> nat {
        match self {
            MigrationStage::Pending => 0,
            MigrationStage::InitAccountMigration => 1,
            MigrationStage::MigratingAccounts { .. } => 2,
            MigrationStage::Done => 3,
        }
    }

    /// Whether a committed transition from `self` to `next` moves forward:
    /// to a later stage, or within the bulk migration to a cursor further
    /// on in key order.
    pub open spec fn precedes(self, next: MigrationStage) -> bool {
        ||| self.rank() < next.rank()
        ||| {
            &&& self matches MigrationStage::MigratingAccounts { cursor: from }
            &&& next matches MigrationStage::MigratingAccounts { cursor: to }
            &&& to matches Some(reached)
            &&& from matches Some(left) ==> left < reached
        }
    }

    /// Whether the stage is the terminal one.
    pub fn is_done(&self) -> (done: bool)
        ensures
            done <==> *self == MigrationStage::Done,
    {
        match self {
            MigrationStage::Done => true,
            _ => false,
        }
    }

    /// The stage that follows `self` once its unit of work has succeeded.
    /// `taken` is the number of records the unit migrated and `cursor` the
    /// cursor behind them; neither matters before the bulk migration.
    pub open spec fn successor(self, taken: nat, cursor: Option<EntityKey>) -> MigrationStage {
        match self {
            MigrationStage::Pending => MigrationStage::InitAccountMigration,
            MigrationStage::InitAccountMigration => MigrationStage::MigratingAccounts { cursor },
            MigrationStage::MigratingAccounts { .. } => if taken == 0 {
                MigrationStage::Done
            } else {
                MigrationStage::MigratingAccounts { cursor }
            },
            MigrationStage::Done => MigrationStage::Done,
        }
    }

    /// The stage that follows `self` once its unit of work has succeeded.
    pub fn next(self, taken: usize, cursor: Option<EntityKey>) -> (following: MigrationStage)
        ensures
            following == self.successor(taken as nat, cursor),
    {
        match self {
            MigrationStage::Pending => MigrationStage::InitAccountMigration,
            MigrationStage::InitAccountMigration => MigrationStage::MigratingAccounts { cursor },
            MigrationStage::MigratingAccounts { .. } => if taken == 0 {
                MigrationStage::Done
            } else {
                MigrationStage::MigratingAccounts { cursor }
            },
            MigrationStage::Done => MigrationStage::Done,
        }
    }
}

} // verus!
