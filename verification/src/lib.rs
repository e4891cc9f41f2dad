//! Orchestration engine for a one-way, staged migration of ledger state
//! from a source ledger to a destination ledger.
//!
//! The two ledgers are connected only by a bounded message channel, and the
//! source ledger goes on with other work while it is migrated. So the
//! engine runs in ticks. Each tick works under a compute ceiling that it
//! never passes, commits a batch as a whole or not at all, and leaves a
//! cursor behind from which the next tick resumes.
//!
//! The parts, leaves first:
//!
//! - [`budget`]: the accountant of the compute consumed within a tick;
//! - [`ledger`] and [`scanner`]: the source records in key order, and the
//!   resumable scan that cuts batches to the budget;
//! - [`guard`]: the transactional guard that rolls a failed attempt back;
//! - [`messenger`]: the packaging of a batch into messages that the
//!   receiver can process, and the bounded queue that carries them;
//! - [`retry`]: the policy of one retry at the largest budget;
//! - [`operations`] and [`pallet`]: the units of work of the stages and the
//!   controller that owns the persisted stage;
//! - [`laws`]: what holds of every tick and of every run of ticks.
//!
//! Beside the engine stand the [`weights`] of the calls of some pallets and
//! the origin filters of [`xcm_config`].

pub mod budget;
pub mod entity;
pub mod error;
pub mod guard;
pub mod laws;
pub mod ledger;
pub mod messenger;
pub mod operations;
pub mod pallet;
pub mod retry;
pub mod scanner;
pub mod stage;
pub mod storage;
pub mod weights;
pub mod xcm_config;

pub use error::Error;
pub use pallet::{Config, Event, Pallet};
pub use stage::MigrationStage;
