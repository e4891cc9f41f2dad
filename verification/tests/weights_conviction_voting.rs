use rc_migrator::weights::pallet_conviction_voting::WeightInfo;
use rc_migrator::weights::RuntimeDbWeight;
use sp_weights::Weight;

fn databases() -> Vec<sp_weights::RuntimeDbWeight> {
    let costs = [0u64, 1, 25_000_000, 100_000_000, u64::MAX / 3, u64::MAX];
    let mut databases = Vec::new();
    for read in costs {
        for write in costs {
            databases.push(sp_weights::RuntimeDbWeight { read, write });
        }
    }
    databases
}

fn table(db: sp_weights::RuntimeDbWeight) -> WeightInfo {
    WeightInfo { db_weight: RuntimeDbWeight { read: db.read, write: db.write } }
}

fn parts(weight: rc_migrator::weights::Weight) -> (u64, u64) {
    (weight.ref_time(), weight.proof_size())
}

fn components() -> [u32; 6] {
    [0, 1, 50, 512, 100_000, u32::MAX]
}

#[test]
fn conviction_voting_vote_new_is_the_sum_of_its_terms() {
    for db in databases() {
        let expected = Weight::from_parts(202_761_000, 0)
            .saturating_add(Weight::from_parts(0, 42428))
            .saturating_add(db.reads(6))
            .saturating_add(db.writes(5));
        assert_eq!(
            parts(table(db).vote_new()),
            (expected.ref_time(), expected.proof_size())
        );
    }
}

#[test]
fn conviction_voting_vote_existing_is_the_sum_of_its_terms() {
    for db in databases() {
        let expected = Weight::from_parts(243_470_000, 0)
            .saturating_add(Weight::from_parts(0, 83866))
            .saturating_add(db.reads(7))
            .saturating_add(db.writes(7));
        assert_eq!(
            parts(table(db).vote_existing()),
            (expected.ref_time(), expected.proof_size())
        );
    }
}

#[test]
fn conviction_voting_remove_vote_is_the_sum_of_its_terms() {
    for db in databases() {
        let expected = Weight::from_parts(194_229_000, 0)
            .saturating_add(Weight::from_parts(0, 83866))
            .saturating_add(db.reads(4))
            .saturating_add(db.writes(5));
        assert_eq!(
            parts(table(db).remove_vote()),
            (expected.ref_time(), expected.proof_size())
        );
    }
}

#[test]
fn conviction_voting_remove_other_vote_is_the_sum_of_its_terms() {
    for db in databases() {
        let expected = Weight::from_parts(108_480_000, 0)
            .saturating_add(Weight::from_parts(0, 30706))
            .saturating_add(db.reads(2))
            .saturating_add(db.writes(1));
        assert_eq!(
            parts(table(db).remove_other_vote()),
            (expected.ref_time(), expected.proof_size())
        );
    }
}

#[test]
fn conviction_voting_delegate_is_the_sum_of_its_terms() {
    for db in databases() {
        for r in components() {
            let expected = Weight::from_parts(1_249_626_678, 0)
                .saturating_add(Weight::from_parts(0, 83866))
                .saturating_add(Weight::from_parts(26_960_053, 0).saturating_mul(r.into()))
                .saturating_add(db.reads(7))
                .saturating_add(db.reads((1_u64).saturating_mul(r.into())))
                .saturating_add(db.writes(45))
                .saturating_add(db.writes((1_u64).saturating_mul(r.into())))
                .saturating_add(Weight::from_parts(0, 3411).saturating_mul(r.into()));
            assert_eq!(
                parts(table(db).delegate(r)),
                (expected.ref_time(), expected.proof_size())
            );
        }
    }
}

#[test]
fn conviction_voting_undelegate_is_the_sum_of_its_terms() {
    for db in databases() {
        for r in components() {
            let expected = Weight::from_parts(1_090_205_118, 0)
                .saturating_add(Weight::from_parts(0, 83866))
                .saturating_add(Weight::from_parts(27_314_790, 0).saturating_mul(r.into()))
                .saturating_add(db.reads(4))
                .saturating_add(db.reads((1_u64).saturating_mul(r.into())))
                .saturating_add(db.writes(43))
                .saturating_add(db.writes((1_u64).saturating_mul(r.into())))
                .saturating_add(Weight::from_parts(0, 3411).saturating_mul(r.into()));
            assert_eq!(
                parts(table(db).undelegate(r)),
                (expected.ref_time(), expected.proof_size())
            );
        }
    }
}

#[test]
fn conviction_voting_unlock_is_the_sum_of_its_terms() {
    for db in databases() {
        let expected = Weight::from_parts(127_410_000, 0)
            .saturating_add(Weight::from_parts(0, 30706))
            .saturating_add(db.reads(4))
            .saturating_add(db.writes(3));
        assert_eq!(
            parts(table(db).unlock()),
            (expected.ref_time(), expected.proof_size())
        );
    }
}
