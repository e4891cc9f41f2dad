//! The weights of the calls of conviction voting.

use vstd::prelude::*;
use crate::weights::{saturated, saturating_mul, RuntimeDbWeight, Weight};

verus! {

/// The weight of each call of conviction voting, for a database with the
/// given cost of reads and writes.
#[derive(Clone, Copy, Debug, PartialEq, Eq, Structural)]
pub struct WeightInfo {
    /// What one read and one write of the database cost.
    pub db_weight: RuntimeDbWeight,
}

impl WeightInfo {
    /// The weight of `vote_new`.
    pub fn vote_new(&self) -> (weight: Weight)
        ensures
            weight.ref_time() == saturated(
                202_761_000 + self.db_weight.read * 6 + self.db_weight.write * 5,
            ),
            weight.proof_size() == 42428,
    {
        Weight::from_parts(202_761_000, 0)
            .saturating_add(Weight::from_parts(0, 42428))
            .saturating_add(self.db_weight.reads(6))
            .saturating_add(self.db_weight.writes(5))
    }

    /// The weight of `vote_existing`.
    pub fn vote_existing(&self) -> (weight: Weight)
        ensures
            weight.ref_time() == saturated(
                243_470_000 + self.db_weight.read * 7 + self.db_weight.write * 7,
            ),
            weight.proof_size() == 83866,
    {
        Weight::from_parts(243_470_000, 0)
            .saturating_add(Weight::from_parts(0, 83866))
            .saturating_add(self.db_weight.reads(7))
            .saturating_add(self.db_weight.writes(7))
    }

    /// The weight of `remove_vote`.
    pub fn remove_vote(&self) -> (weight: Weight)
        ensures
            weight.ref_time() == saturated(
                194_229_000 + self.db_weight.read * 4 + self.db_weight.write * 5,
            ),
            weight.proof_size() == 83866,
    {
        Weight::from_parts(194_229_000, 0)
            .saturating_add(Weight::from_parts(0, 83866))
            .saturating_add(self.db_weight.reads(4))
            .saturating_add(self.db_weight.writes(5))
    }

    /// The weight of `remove_other_vote`.
    pub fn remove_other_vote(&self) -> (weight: Weight)
        ensures
            weight.ref_time() == saturated(
                108_480_000 + self.db_weight.read * 2 + self.db_weight.write * 1,
            ),
            weight.proof_size() == 30706,
    {
        Weight::from_parts(108_480_000, 0)
            .saturating_add(Weight::from_parts(0, 30706))
            .saturating_add(self.db_weight.reads(2))
            .saturating_add(self.db_weight.writes(1))
    }

    /// The weight of `delegate`.
    /// The component `r` is measured over the range from 0 to 512.
    pub fn delegate(&self, r: u32) -> (weight: Weight)
        ensures
            weight.ref_time() == saturated(
                1_249_626_678 + 26_960_053 * r + self.db_weight.read * 7
                    + self.db_weight.read * r + self.db_weight.write * 45
                    + self.db_weight.write * r,
            ),
            weight.proof_size() == saturated(83866 + 3411 * r),
    {
        Weight::from_parts(1_249_626_678, 0)
            .saturating_add(Weight::from_parts(0, 83866))
            .saturating_add(Weight::from_parts(26_960_053, 0).saturating_mul(r as u64))
            .saturating_add(self.db_weight.reads(7))
            .saturating_add(self.db_weight.reads(saturating_mul(1, r as u64)))
            .saturating_add(self.db_weight.writes(45))
            .saturating_add(self.db_weight.writes(saturating_mul(1, r as u64)))
            .saturating_add(Weight::from_parts(0, 3411).saturating_mul(r as u64))
    }

    /// The weight of `undelegate`.
    /// The component `r` is measured over the range from 0 to 512.
    pub fn undelegate(&self, r: u32) -> (weight: Weight)
        ensures
            weight.ref_time() == saturated(
                1_090_205_118 + 27_314_790 * r + self.db_weight.read * 4
                    + self.db_weight.read * r + self.db_weight.write * 43
                    + self.db_weight.write * r,
            ),
            weight.proof_size() == saturated(83866 + 3411 * r),
    {
        Weight::from_parts(1_090_205_118, 0)
            .saturating_add(Weight::from_parts(0, 83866))
            .saturating_add(Weight::from_parts(27_314_790, 0).saturating_mul(r as u64))
            .saturating_add(self.db_weight.reads(4))
            .saturating_add(self.db_weight.reads(saturating_mul(1, r as u64)))
            .saturating_add(self.db_weight.writes(43))
            .saturating_add(self.db_weight.writes(saturating_mul(1, r as u64)))
            .saturating_add(Weight::from_parts(0, 3411).saturating_mul(r as u64))
    }

    /// The weight of `unlock`.
    pub fn unlock(&self) -> (weight: Weight)
        ensures
            weight.ref_time() == saturated(
                127_410_000 + self.db_weight.read * 4 + self.db_weight.write * 3,
            ),
            weight.proof_size() == 30706,
    {
        Weight::from_parts(127_410_000, 0)
            .saturating_add(Weight::from_parts(0, 30706))
            .saturating_add(self.db_weight.reads(4))
            .saturating_add(self.db_weight.writes(3))
    }
}

} // verus!
