//! Weights: the two-dimensional measure of what a call costs, and the
//! tables that give the weight of each call of a pallet.
//!
//! All arithmetic on weights saturates: a sum or product that would pass
//! the largest value stays at the largest value.

use vstd::prelude::*;

pub mod pallet_bridge_grandpa;
pub mod pallet_conviction_voting;
pub mod pallet_identity;
pub mod snowbridge_pallet_inbound_queue;

verus! {

/// A number brought into the range of `u64`: what is beyond the largest
/// value becomes the largest value.
pub open spec fn saturated(value: int) -> u64 {
    if value > u64::MAX {
        u64::MAX
    } else if value < 0 {
        0
    } else {
        value as u64
    }
}

/// What a call costs: computation time and the size of the storage proof.
#[derive(Clone, Copy, Debug, PartialEq, Eq, Structural)]
pub struct Weight {
    ref_time: u64,
    proof_size: u64,
}

impl Weight {
    /// The computation time, in picoseconds on reference hardware.
    pub closed spec fn spec_ref_time(&self) -> u64 {
        self.ref_time
    }

    /// The size of the storage proof, in bytes.
    pub closed spec fn spec_proof_size(&self) -> u64 {
        self.proof_size
    }

    /// The weight with the given parts.
    pub fn from_parts(ref_time: u64, proof_size: u64) -> (weight: Self)
        ensures
            weight.spec_ref_time() == ref_time,
            weight.spec_proof_size() == proof_size,
    {
        Weight { ref_time, proof_size }
    }

    /// The computation time, in picoseconds on reference hardware.
    #[verifier::when_used_as_spec(spec_ref_time)]
    pub fn ref_time(&self) -> (ref_time: u64)
        ensures
            ref_time == self.spec_ref_time(),
    {
        self.ref_time
    }

    /// The size of the storage proof, in bytes.
    #[verifier::when_used_as_spec(spec_proof_size)]
    pub fn proof_size(&self) -> (proof_size: u64)
        ensures
            proof_size == self.spec_proof_size(),
    {
        self.proof_size
    }

    /// The sum of two weights, part by part, saturating.
    pub fn saturating_add(self, rhs: Weight) -> (sum: Self)
        ensures
            sum.spec_ref_time() == saturated(self.spec_ref_time() + rhs.spec_ref_time()),
            sum.spec_proof_size() == saturated(self.spec_proof_size() + rhs.spec_proof_size()),
    {
        Weight {
            ref_time: self.ref_time.saturating_add(rhs.ref_time),
            proof_size: self.proof_size.saturating_add(rhs.proof_size),
        }
    }

    /// The weight taken `scalar` times, part by part, saturating.
    pub fn saturating_mul(self, scalar: u64) -> (product: Self)
        ensures
            product.spec_ref_time() == saturated(self.spec_ref_time() * scalar),
            product.spec_proof_size() == saturated(self.spec_proof_size() * scalar),
    {
        Weight {
            ref_time: saturating_mul(self.ref_time, scalar),
            proof_size: saturating_mul(self.proof_size, scalar),
        }
    }
}

/// The product of two numbers, saturating.
pub fn saturating_mul(left: u64, right: u64) -> (product: u64)
    ensures
        product == saturated(left * right),
{
    match left.checked_mul(right) {
        Some(product) => product,
        None => u64::MAX,
    }
}

/// What one read and one write of the database cost in computation time.
#[derive(Clone, Copy, Debug, PartialEq, Eq, Structural)]
pub struct RuntimeDbWeight {
    /// The computation time of one read.
    pub read: u64,
    /// The computation time of one write.
    pub write: u64,
}

impl RuntimeDbWeight {
    /// The weight of `count` reads.
    pub fn reads(self, count: u64) -> (weight: Weight)
        ensures
            weight.spec_ref_time() == saturated(self.read * count),
            weight.spec_proof_size() == 0,
    {
        Weight::from_parts(saturating_mul(self.read, count), 0)
    }

    /// The weight of `count` writes.
    pub fn writes(self, count: u64) -> (weight: Weight)
        ensures
            weight.spec_ref_time() == saturated(self.write * count),
            weight.spec_proof_size() == 0,
    {
        Weight::from_parts(saturating_mul(self.write, count), 0)
    }
}

} // verus!
