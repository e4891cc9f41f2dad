//! The weights of the calls of the GRANDPA bridge.

use vstd::prelude::*;
use crate::weights::{saturated, RuntimeDbWeight, Weight};

verus! {

/// The weight of each call of the GRANDPA bridge, for a database with
/// the given cost of reads and writes.
#[derive(Clone, Copy, Debug, PartialEq, Eq, Structural)]
pub struct WeightInfo {
    /// What one read and one write of the database cost.
    pub db_weight: RuntimeDbWeight,
}

impl WeightInfo {
    /// The weight of `submit_finality_proof`.
    /// The component `p` is measured over the range from 1 to 168.
    /// The component `v` is measured over the range from 50 to 100.
    pub fn submit_finality_proof(&self, p: u32, v: u32) -> (weight: Weight)
        ensures
            weight.ref_time() == saturated(
                20_510_107 + 49_987_235 * p + 2_978_795 * v + self.db_weight.read * 5
                    + self.db_weight.write * 5,
            ),
            weight.proof_size() == 51735,
    {
        Weight::from_parts(20_510_107, 0)
            .saturating_add(Weight::from_parts(0, 51735))
            .saturating_add(Weight::from_parts(49_987_235, 0).saturating_mul(p as u64))
            .saturating_add(Weight::from_parts(2_978_795, 0).saturating_mul(v as u64))
            .saturating_add(self.db_weight.reads(5))
            .saturating_add(self.db_weight.writes(5))
    }

    /// The weight of `force_set_pallet_state`.
    pub fn force_set_pallet_state(&self) -> (weight: Weight)
        ensures
            weight.ref_time() == saturated(
                106_340_000 + self.db_weight.read * 3 + self.db_weight.write * 6,
            ),
            weight.proof_size() == 51735,
    {
        Weight::from_parts(106_340_000, 0)
            .saturating_add(Weight::from_parts(0, 51735))
            .saturating_add(self.db_weight.reads(3))
            .saturating_add(self.db_weight.writes(6))
    }
}

} // verus!
