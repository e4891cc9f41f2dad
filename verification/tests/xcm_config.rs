use rc_migrator::xcm_config::{
    BodyId, FellowsPlurality, Junction, Location, ParentOrParentsPlurality, COLLECTIVES_ID,
};

fn location(parents: u8, interior: Vec<Junction>) -> Location {
    Location { parents, interior }
}

fn plurality(id: BodyId) -> Junction {
    Junction::Plurality { id }
}

#[test]
fn parent_matches() {
    assert!(ParentOrParentsPlurality::contains(&location(1, vec![])));
}

#[test]
fn plurality_of_the_parent_matches_whatever_the_body() {
    let bodies =
        [BodyId::Unit, BodyId::Technical, BodyId::Treasury, BodyId::Index(7), BodyId::Moniker(1)];
    for id in bodies {
        assert!(ParentOrParentsPlurality::contains(&location(1, vec![plurality(id)])));
    }
}

#[test]
fn other_locations_are_not_the_parent_or_its_plurality() {
    assert!(!ParentOrParentsPlurality::contains(&location(0, vec![])));
    assert!(!ParentOrParentsPlurality::contains(&location(2, vec![])));
    assert!(!ParentOrParentsPlurality::contains(&location(0, vec![plurality(BodyId::Unit)])));
    assert!(!ParentOrParentsPlurality::contains(&location(1, vec![Junction::Parachain(1000)])));
    assert!(!ParentOrParentsPlurality::contains(&location(1, vec![Junction::Other])));
    assert!(!ParentOrParentsPlurality::contains(&location(
        1,
        vec![plurality(BodyId::Unit), plurality(BodyId::Unit)]
    )));
    assert!(!ParentOrParentsPlurality::contains(&location(
        1,
        vec![Junction::Parachain(COLLECTIVES_ID), plurality(BodyId::Technical)]
    )));
}

#[test]
fn technical_body_on_the_collectives_chain_is_the_fellowship() {
    assert_eq!(COLLECTIVES_ID, 1001);
    assert!(FellowsPlurality::contains(&location(
        1,
        vec![Junction::Parachain(COLLECTIVES_ID), plurality(BodyId::Technical)]
    )));
}

#[test]
fn other_locations_are_not_the_fellowship() {
    let technical = plurality(BodyId::Technical);
    assert!(!FellowsPlurality::contains(&location(1, vec![])));
    assert!(!FellowsPlurality::contains(&location(1, vec![technical])));
    assert!(!FellowsPlurality::contains(&location(
        0,
        vec![Junction::Parachain(COLLECTIVES_ID), technical]
    )));
    assert!(!FellowsPlurality::contains(&location(
        2,
        vec![Junction::Parachain(COLLECTIVES_ID), technical]
    )));
    assert!(!FellowsPlurality::contains(&location(1, vec![Junction::Parachain(1000), technical])));
    assert!(!FellowsPlurality::contains(&location(
        1,
        vec![Junction::Parachain(COLLECTIVES_ID), plurality(BodyId::Executive)]
    )));
    assert!(!FellowsPlurality::contains(&location(
        1,
        vec![Junction::Parachain(COLLECTIVES_ID), Junction::Other]
    )));
    assert!(!FellowsPlurality::contains(&location(
        1,
        vec![technical, Junction::Parachain(COLLECTIVES_ID)]
    )));
    assert!(!FellowsPlurality::contains(&location(
        1,
        vec![Junction::Parachain(COLLECTIVES_ID), technical, Junction::Other]
    )));
}
