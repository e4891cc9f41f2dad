//! The weights of the calls of the identity pallet.

use vstd::prelude::*;
use crate::weights::{saturated, saturating_mul, RuntimeDbWeight, Weight};

verus! {

/// The weight of each call of the identity pallet, for a database with
/// the given cost of reads and writes.
#[derive(Clone, Copy, Debug, PartialEq, Eq, Structural)]
pub struct WeightInfo {
    /// What one read and one write of the database cost.
    pub db_weight: RuntimeDbWeight,
}

impl WeightInfo {
    /// The weight of `add_registrar`.
    /// The component `r` is measured over the range from 1 to 19.
    pub fn add_registrar(&self, r: u32) -> (weight: Weight)
        ensures
            weight.ref_time() == saturated(
                10_524_263 + 82_136 * r + self.db_weight.read * 1 + self.db_weight.write * 1,
            ),
            weight.proof_size() == 2626,
    {
        Weight::from_parts(10_524_263, 0)
            .saturating_add(Weight::from_parts(0, 2626))
            .saturating_add(Weight::from_parts(82_136, 0).saturating_mul(r as u64))
            .saturating_add(self.db_weight.reads(1))
            .saturating_add(self.db_weight.writes(1))
    }

    /// The weight of `set_identity`.
    /// The component `r` is measured over the range from 1 to 20.
    pub fn set_identity(&self, r: u32) -> (weight: Weight)
        ensures
            weight.ref_time() == saturated(
                22_144_048 + 84_139 * r + self.db_weight.read * 1 + self.db_weight.write * 1,
            ),
            weight.proof_size() == 4303,
    {
        Weight::from_parts(22_144_048, 0)
            .saturating_add(Weight::from_parts(0, 4303))
            .saturating_add(Weight::from_parts(84_139, 0).saturating_mul(r as u64))
            .saturating_add(self.db_weight.reads(1))
            .saturating_add(self.db_weight.writes(1))
    }

    /// The weight of `set_subs_new`.
    /// The component `s` is measured over the range from 0 to 100.
    pub fn set_subs_new(&self, s: u32) -> (weight: Weight)
        ensures
            weight.ref_time() == saturated(
                25_571_819 + 3_768_190 * s + self.db_weight.read * 2 + self.db_weight.read * s
                    + self.db_weight.write * 1 + self.db_weight.write * s,
            ),
            weight.proof_size() == saturated(6723 + 2589 * s),
    {
        Weight::from_parts(25_571_819, 0)
            .saturating_add(Weight::from_parts(0, 6723))
            .saturating_add(Weight::from_parts(3_768_190, 0).saturating_mul(s as u64))
            .saturating_add(self.db_weight.reads(2))
            .saturating_add(self.db_weight.reads(saturating_mul(1, s as u64)))
            .saturating_add(self.db_weight.writes(1))
            .saturating_add(self.db_weight.writes(saturating_mul(1, s as u64)))
            .saturating_add(Weight::from_parts(0, 2589).saturating_mul(s as u64))
    }

    /// The weight of `set_subs_old`.
    /// The component `p` is measured over the range from 0 to 100.
    pub fn set_subs_old(&self, p: u32) -> (weight: Weight)
        ensures
            weight.ref_time() == saturated(
                25_605_073 + 1_567_226 * p + self.db_weight.read * 2 + self.db_weight.write * 1
                    + self.db_weight.write * p,
            ),
            weight.proof_size() == 6723,
    {
        Weight::from_parts(25_605_073, 0)
            .saturating_add(Weight::from_parts(0, 6723))
            .saturating_add(Weight::from_parts(1_567_226, 0).saturating_mul(p as u64))
            .saturating_add(self.db_weight.reads(2))
            .saturating_add(self.db_weight.writes(1))
            .saturating_add(self.db_weight.writes(saturating_mul(1, p as u64)))
    }

    /// The weight of `clear_identity`.
    /// The component `r` is measured over the range from 1 to 20.
    /// The component `s` is measured over the range from 0 to 100.
    pub fn clear_identity(&self, r: u32, s: u32) -> (weight: Weight)
        ensures
            weight.ref_time() == saturated(
                31_672_270 + 88_703 * r + 1_563_980 * s + self.db_weight.read * 2
                    + self.db_weight.write * 2 + self.db_weight.write * s,
            ),
            weight.proof_size() == 6723,
    {
        Weight::from_parts(31_672_270, 0)
            .saturating_add(Weight::from_parts(0, 6723))
            .saturating_add(Weight::from_parts(88_703, 0).saturating_mul(r as u64))
            .saturating_add(Weight::from_parts(1_563_980, 0).saturating_mul(s as u64))
            .saturating_add(self.db_weight.reads(2))
            .saturating_add(self.db_weight.writes(2))
            .saturating_add(self.db_weight.writes(saturating_mul(1, s as u64)))
    }

    /// The weight of `request_judgement`.
    /// The component `r` is measured over the range from 1 to 20.
    pub fn request_judgement(&self, r: u32) -> (weight: Weight)
        ensures
            weight.ref_time() == saturated(
                33_327_205 + 94_581 * r + self.db_weight.read * 2 + self.db_weight.write * 1,
            ),
            weight.proof_size() == 4303,
    {
        Weight::from_parts(33_327_205, 0)
            .saturating_add(Weight::from_parts(0, 4303))
            .saturating_add(Weight::from_parts(94_581, 0).saturating_mul(r as u64))
            .saturating_add(self.db_weight.reads(2))
            .saturating_add(self.db_weight.writes(1))
    }

    /// The weight of `cancel_request`.
    /// The component `r` is measured over the range from 1 to 20.
    pub fn cancel_request(&self, r: u32) -> (weight: Weight)
        ensures
            weight.ref_time() == saturated(
                30_922_460 + 60_623 * r + self.db_weight.read * 1 + self.db_weight.write * 1,
            ),
            weight.proof_size() == 4303,
    {
        Weight::from_parts(30_922_460, 0)
            .saturating_add(Weight::from_parts(0, 4303))
            .saturating_add(Weight::from_parts(60_623, 0).saturating_mul(r as u64))
            .saturating_add(self.db_weight.reads(1))
            .saturating_add(self.db_weight.writes(1))
    }

    /// The weight of `set_fee`.
    /// The component `r` is measured over the range from 1 to 19.
    pub fn set_fee(&self, r: u32) -> (weight: Weight)
        ensures
            weight.ref_time() == saturated(
                8_155_460 + 69_773 * r + self.db_weight.read * 1 + self.db_weight.write * 1,
            ),
            weight.proof_size() == 2626,
    {
        Weight::from_parts(8_155_460, 0)
            .saturating_add(Weight::from_parts(0, 2626))
            .saturating_add(Weight::from_parts(69_773, 0).saturating_mul(r as u64))
            .saturating_add(self.db_weight.reads(1))
            .saturating_add(self.db_weight.writes(1))
    }

    /// The weight of `set_account_id`.
    /// The component `r` is measured over the range from 1 to 19.
    pub fn set_account_id(&self, r: u32) -> (weight: Weight)
        ensures
            weight.ref_time() == saturated(
                8_106_888 + 70_487 * r + self.db_weight.read * 1 + self.db_weight.write * 1,
            ),
            weight.proof_size() == 2626,
    {
        Weight::from_parts(8_106_888, 0)
            .saturating_add(Weight::from_parts(0, 2626))
            .saturating_add(Weight::from_parts(70_487, 0).saturating_mul(r as u64))
            .saturating_add(self.db_weight.reads(1))
            .saturating_add(self.db_weight.writes(1))
    }

    /// The weight of `set_fields`.
    /// The component `r` is measured over the range from 1 to 19.
    pub fn set_fields(&self, r: u32) -> (weight: Weight)
        ensures
            weight.ref_time() == saturated(
                8_055_706 + 67_508 * r + self.db_weight.read * 1 + self.db_weight.write * 1,
            ),
            weight.proof_size() == 2626,
    {
        Weight::from_parts(8_055_706, 0)
            .saturating_add(Weight::from_parts(0, 2626))
            .saturating_add(Weight::from_parts(67_508, 0).saturating_mul(r as u64))
            .saturating_add(self.db_weight.reads(1))
            .saturating_add(self.db_weight.writes(1))
    }

    /// The weight of `provide_judgement`.
    /// The component `r` is measured over the range from 1 to 19.
    pub fn provide_judgement(&self, r: u32) -> (weight: Weight)
        ensures
            weight.ref_time() == saturated(
                24_584_221 + 80_051 * r + self.db_weight.read * 2 + self.db_weight.write * 1,
            ),
            weight.proof_size() == 4303,
    {
        Weight::from_parts(24_584_221, 0)
            .saturating_add(Weight::from_parts(0, 4303))
            .saturating_add(Weight::from_parts(80_051, 0).saturating_mul(r as u64))
            .saturating_add(self.db_weight.reads(2))
            .saturating_add(self.db_weight.writes(1))
    }

    /// The weight of `kill_identity`.
    /// The component `r` is measured over the range from 1 to 20.
    /// The component `s` is measured over the range from 0 to 100.
    pub fn kill_identity(&self, r: u32, s: u32) -> (weight: Weight)
        ensures
            weight.ref_time() == saturated(
                95_368_166 + 173_936 * r + 1_610_946 * s + self.db_weight.read * 5
                    + self.db_weight.write * 4 + self.db_weight.write * s,
            ),
            weight.proof_size() == 6723,
    {
        Weight::from_parts(95_368_166, 0)
            .saturating_add(Weight::from_parts(0, 6723))
            .saturating_add(Weight::from_parts(173_936, 0).saturating_mul(r as u64))
            .saturating_add(Weight::from_parts(1_610_946, 0).saturating_mul(s as u64))
            .saturating_add(self.db_weight.reads(5))
            .saturating_add(self.db_weight.writes(4))
            .saturating_add(self.db_weight.writes(saturating_mul(1, s as u64)))
    }

    /// The weight of `add_sub`.
    /// The component `s` is measured over the range from 0 to 99.
    pub fn add_sub(&self, s: u32) -> (weight: Weight)
        ensures
            weight.ref_time() == saturated(
                35_080_997 + 63_018 * s + self.db_weight.read * 3 + self.db_weight.write * 2,
            ),
            weight.proof_size() == 6723,
    {
        Weight::from_parts(35_080_997, 0)
            .saturating_add(Weight::from_parts(0, 6723))
            .saturating_add(Weight::from_parts(63_018, 0).saturating_mul(s as u64))
            .saturating_add(self.db_weight.reads(3))
            .saturating_add(self.db_weight.writes(2))
    }

    /// The weight of `rename_sub`.
    /// The component `s` is measured over the range from 1 to 100.
    pub fn rename_sub(&self, s: u32) -> (weight: Weight)
        ensures
            weight.ref_time() == saturated(
                17_617_865 + 21_885 * s + self.db_weight.read * 2 + self.db_weight.write * 1,
            ),
            weight.proof_size() == 4303,
    {
        Weight::from_parts(17_617_865, 0)
            .saturating_add(Weight::from_parts(0, 4303))
            .saturating_add(Weight::from_parts(21_885, 0).saturating_mul(s as u64))
            .saturating_add(self.db_weight.reads(2))
            .saturating_add(self.db_weight.writes(1))
    }

    /// The weight of `remove_sub`.
    /// The component `s` is measured over the range from 1 to 100.
    pub fn remove_sub(&self, s: u32) -> (weight: Weight)
        ensures
            weight.ref_time() == saturated(
                37_611_777 + 47_141 * s + self.db_weight.read * 3 + self.db_weight.write * 2,
            ),
            weight.proof_size() == 6723,
    {
        Weight::from_parts(37_611_777, 0)
            .saturating_add(Weight::from_parts(0, 6723))
            .saturating_add(Weight::from_parts(47_141, 0).saturating_mul(s as u64))
            .saturating_add(self.db_weight.reads(3))
            .saturating_add(self.db_weight.writes(2))
    }

    /// The weight of `quit_sub`.
    /// The component `s` is measured over the range from 0 to 99.
    pub fn quit_sub(&self, s: u32) -> (weight: Weight)
        ensures
            weight.ref_time() == saturated(
                27_866_666 + 52_338 * s + self.db_weight.read * 3 + self.db_weight.write * 2,
            ),
            weight.proof_size() == 6723,
    {
        Weight::from_parts(27_866_666, 0)
            .saturating_add(Weight::from_parts(0, 6723))
            .saturating_add(Weight::from_parts(52_338, 0).saturating_mul(s as u64))
            .saturating_add(self.db_weight.reads(3))
            .saturating_add(self.db_weight.writes(2))
    }

    /// The weight of `add_username_authority`.
    pub fn add_username_authority(&self) -> (weight: Weight)
        ensures
            weight.ref_time() == saturated(
                6_870_000 + self.db_weight.write * 1,
            ),
            weight.proof_size() == 0,
    {
        Weight::from_parts(6_870_000, 0)
            .saturating_add(Weight::from_parts(0, 0))
            .saturating_add(self.db_weight.writes(1))
    }

    /// The weight of `remove_username_authority`.
    pub fn remove_username_authority(&self) -> (weight: Weight)
        ensures
            weight.ref_time() == saturated(
                10_120_000 + self.db_weight.read * 1 + self.db_weight.write * 1,
            ),
            weight.proof_size() == 3517,
    {
        Weight::from_parts(10_120_000, 0)
            .saturating_add(Weight::from_parts(0, 3517))
            .saturating_add(self.db_weight.reads(1))
            .saturating_add(self.db_weight.writes(1))
    }

    /// The weight of `set_username_for`.
    pub fn set_username_for(&self) -> (weight: Weight)
        ensures
            weight.ref_time() == saturated(
                75_091_000 + self.db_weight.read * 4 + self.db_weight.write * 3,
            ),
            weight.proof_size() == 4303,
    {
        Weight::from_parts(75_091_000, 0)
            .saturating_add(Weight::from_parts(0, 4303))
            .saturating_add(self.db_weight.reads(4))
            .saturating_add(self.db_weight.writes(3))
    }

    /// The weight of `accept_username`.
    pub fn accept_username(&self) -> (weight: Weight)
        ensures
            weight.ref_time() == saturated(
                23_660_000 + self.db_weight.read * 2 + self.db_weight.write * 3,
            ),
            weight.proof_size() == 4303,
    {
        Weight::from_parts(23_660_000, 0)
            .saturating_add(Weight::from_parts(0, 4303))
            .saturating_add(self.db_weight.reads(2))
            .saturating_add(self.db_weight.writes(3))
    }

    /// The weight of `remove_expired_approval`.
    pub fn remove_expired_approval(&self) -> (weight: Weight)
        ensures
            weight.ref_time() == saturated(
                14_770_000 + self.db_weight.read * 1 + self.db_weight.write * 1,
            ),
            weight.proof_size() == 3550,
    {
        Weight::from_parts(14_770_000, 0)
            .saturating_add(Weight::from_parts(0, 3550))
            .saturating_add(self.db_weight.reads(1))
            .saturating_add(self.db_weight.writes(1))
    }

    /// The weight of `set_primary_username`.
    pub fn set_primary_username(&self) -> (weight: Weight)
        ensures
            weight.ref_time() == saturated(
                19_851_000 + self.db_weight.read * 2 + self.db_weight.write * 1,
            ),
            weight.proof_size() == 4303,
    {
        Weight::from_parts(19_851_000, 0)
            .saturating_add(Weight::from_parts(0, 4303))
            .saturating_add(self.db_weight.reads(2))
            .saturating_add(self.db_weight.writes(1))
    }

    /// The weight of `remove_dangling_username`.
    pub fn remove_dangling_username(&self) -> (weight: Weight)
        ensures
            weight.ref_time() == saturated(
                12_200_000 + self.db_weight.read * 2 + self.db_weight.write * 1,
            ),
            weight.proof_size() == 4303,
    {
        Weight::from_parts(12_200_000, 0)
            .saturating_add(Weight::from_parts(0, 4303))
            .saturating_add(self.db_weight.reads(2))
            .saturating_add(self.db_weight.writes(1))
    }
}

} // verus!
