use rc_migrator::budget::BudgetAccountant;
use rc_migrator::weights::pallet_bridge_grandpa;
use rc_migrator::weights::pallet_conviction_voting;
use rc_migrator::weights::pallet_identity;
use rc_migrator::weights::snowbridge_pallet_inbound_queue;
use rc_migrator::weights::{saturating_mul, RuntimeDbWeight, Weight};
use sp_weights::WeightMeter;

const EDGES: [u64; 8] =
    [0, 1, 2, 1_000_000_007, u64::MAX / 2, u64::MAX / 2 + 1, u64::MAX - 1, u64::MAX];

fn parts(weight: Weight) -> (u64, u64) {
    (weight.ref_time(), weight.proof_size())
}

fn runtime_parts(weight: sp_weights::Weight) -> (u64, u64) {
    (weight.ref_time(), weight.proof_size())
}

fn rocks_db() -> RuntimeDbWeight {
    RuntimeDbWeight { read: 25_000_000, write: 100_000_000 }
}

#[test]
fn weight_holds_its_parts() {
    let weight = Weight::from_parts(7, 9);
    assert_eq!(weight.ref_time(), 7);
    assert_eq!(weight.proof_size(), 9);
}

#[test]
fn weight_addition_saturates_part_by_part() {
    let sum = Weight::from_parts(u64::MAX - 1, 10).saturating_add(Weight::from_parts(5, 20));
    assert_eq!(sum, Weight::from_parts(u64::MAX, 30));
    let sum = Weight::from_parts(1, u64::MAX).saturating_add(Weight::from_parts(2, 1));
    assert_eq!(sum, Weight::from_parts(3, u64::MAX));
}

#[test]
fn weight_multiplication_saturates_part_by_part() {
    let product = Weight::from_parts(u64::MAX / 2 + 1, 3).saturating_mul(2);
    assert_eq!(product, Weight::from_parts(u64::MAX, 6));
    assert_eq!(Weight::from_parts(5, 7).saturating_mul(0), Weight::from_parts(0, 0));
    assert_eq!(saturating_mul(u64::MAX, u64::MAX), u64::MAX);
    assert_eq!(saturating_mul(3, 4), 12);
}

#[test]
fn weight_arithmetic_agrees_with_the_runtime_weight() {
    for a in EDGES {
        for b in EDGES {
            let ours = Weight::from_parts(a, b);
            let theirs = sp_weights::Weight::from_parts(a, b);
            assert_eq!(parts(ours), runtime_parts(theirs));
            for c in EDGES {
                let left = ours.saturating_add(Weight::from_parts(c, a));
                let right = theirs.saturating_add(sp_weights::Weight::from_parts(c, a));
                assert_eq!(parts(left), runtime_parts(right));
                let left = ours.saturating_mul(c);
                let right = theirs.saturating_mul(c);
                assert_eq!(parts(left), runtime_parts(right));
            }
        }
    }
}

#[test]
fn database_weights_agree_with_the_runtime_database_weight() {
    for read in EDGES {
        for write in EDGES {
            let ours = RuntimeDbWeight { read, write };
            let theirs = sp_weights::RuntimeDbWeight { read, write };
            for count in EDGES {
                let left = ours.reads(count);
                let right = theirs.reads(count);
                assert_eq!(parts(left), runtime_parts(right));
                let left = ours.writes(count);
                let right = theirs.writes(count);
                assert_eq!(parts(left), runtime_parts(right));
            }
        }
    }
}

#[test]
fn database_weight_counts_reads_and_writes_in_computation_time() {
    assert_eq!(rocks_db().reads(3), Weight::from_parts(75_000_000, 0));
    assert_eq!(rocks_db().writes(2), Weight::from_parts(200_000_000, 0));
}

#[test]
fn accountant_agrees_with_the_runtime_weight_meter() {
    for ceiling in EDGES {
        for first in EDGES {
            for second in EDGES {
                let mut ours = BudgetAccountant::new(ceiling);
                let limit = sp_weights::Weight::from_parts(ceiling, 0);
                let mut theirs = WeightMeter::with_limit(limit);
                for cost in [first, second, first] {
                    let left = ours.consume(cost).is_ok();
                    let right = theirs.try_consume(sp_weights::Weight::from_parts(cost, 0)).is_ok();
                    assert_eq!(left, right);
                    assert_eq!(ours.consumed(), theirs.consumed().ref_time());
                    assert_eq!(ours.remaining(), theirs.remaining().ref_time());
                    assert_eq!(ours.ceiling(), theirs.limit().ref_time());
                }
            }
        }
    }
}

#[test]
fn conviction_voting_vote_new_on_a_common_database() {
    let table = pallet_conviction_voting::WeightInfo { db_weight: rocks_db() };
    assert_eq!(table.vote_new(), Weight::from_parts(852_761_000, 42428));
}

#[test]
fn conviction_voting_delegate_grows_with_its_component() {
    let table = pallet_conviction_voting::WeightInfo { db_weight: rocks_db() };
    assert_eq!(table.delegate(0), Weight::from_parts(5_924_626_678, 83866));
    assert_eq!(table.delegate(2), Weight::from_parts(6_228_546_784, 90688));
    assert_eq!(table.delegate(512), Weight::from_parts(83_728_173_814, 1_830_298));
}

#[test]
fn bridge_grandpa_submit_finality_proof_on_a_common_database() {
    let table = pallet_bridge_grandpa::WeightInfo { db_weight: rocks_db() };
    assert_eq!(table.submit_finality_proof(1, 50), Weight::from_parts(844_437_092, 51735));
    assert_eq!(table.force_set_pallet_state(), Weight::from_parts(781_340_000, 51735));
}

#[test]
fn inbound_queue_submit_on_a_common_database() {
    let table = snowbridge_pallet_inbound_queue::WeightInfo { db_weight: rocks_db() };
    assert_eq!(table.submit(), Weight::from_parts(600_231_000, 4090));
}

#[test]
fn identity_weights_on_a_common_database() {
    let table = pallet_identity::WeightInfo { db_weight: rocks_db() };
    assert_eq!(table.add_registrar(3), Weight::from_parts(135_770_671, 2626));
    assert_eq!(table.set_subs_new(2), Weight::from_parts(433_108_199, 11901));
    assert_eq!(table.add_username_authority(), Weight::from_parts(106_870_000, 0));
    assert_eq!(table.kill_identity(1, 1), Weight::from_parts(722_153_048, 6723));
}

#[test]
fn weights_saturate_on_a_database_beyond_measure() {
    let slow = RuntimeDbWeight { read: u64::MAX, write: 1 };
    let table = pallet_conviction_voting::WeightInfo { db_weight: slow };
    assert_eq!(table.vote_new(), Weight::from_parts(u64::MAX, 42428));
    assert_eq!(table.delegate(u32::MAX).ref_time(), u64::MAX);
    assert_eq!(table.delegate(u32::MAX).proof_size(), 83866 + 3411 * (u32::MAX as u64));
}

#[test]
fn weights_on_a_database_that_costs_nothing_are_the_measured_base() {
    let free = RuntimeDbWeight { read: 0, write: 0 };
    let table = pallet_identity::WeightInfo { db_weight: free };
    assert_eq!(table.set_identity(0), Weight::from_parts(22_144_048, 4303));
    assert_eq!(table.set_identity(10), Weight::from_parts(22_985_438, 4303));
}
