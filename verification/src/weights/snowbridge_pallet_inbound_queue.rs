//! The weights of the calls of the inbound queue of the Ethereum bridge.

use vstd::prelude::*;
use crate::weights::{saturated, RuntimeDbWeight, Weight};

verus! {

/// The weight of each call of the inbound queue of the Ethereum bridge, for
/// a database with the given cost of reads and writes.
#[derive(Clone, Copy, Debug, PartialEq, Eq, Structural)]
pub struct WeightInfo {
    /// What one read and one write of the database cost.
    pub db_weight: RuntimeDbWeight,
}

impl WeightInfo {
    /// The weight of `submit`.
    pub fn submit(&self) -> (weight: Weight)
        ensures
            weight.ref_time() == saturated(
                200_231_000 + self.db_weight.read * 8 + self.db_weight.write * 2,
            ),
            weight.proof_size() == 4090,
    {
        Weight::from_parts(200_231_000, 0)
            .saturating_add(Weight::from_parts(0, 4090))
            .saturating_add(self.db_weight.reads(8))
            .saturating_add(self.db_weight.writes(2))
    }
}

} // verus!
