//! Which origins of cross-chain messages the chain treats as governance
//! bodies of the relay chain.
//!
//! A location is read as far as these rules need it: the number of parents
//! and, of each junction, whether it names a parachain or a plurality.

use vstd::prelude::*;

verus! {

/// The parachain id of the Collectives chain.
pub const COLLECTIVES_ID: u32 = 1001;

/// The identity of a body of people.
#[derive(Clone, Copy, Debug, PartialEq, Eq, Structural)]
pub enum BodyId {
    /// The only body in its context.
    Unit,
    /// A named body.
    Moniker(u32),
    /// An indexed body.
    Index(u32),
    /// The executive of the body politic.
    Executive,
    /// The technical body.
    Technical,
    /// The legislative body.
    Legislative,
    /// The judicial body.
    Judicial,
    /// The defense body.
    Defense,
    /// The administration body.
    Administration,
    /// The treasury body.
    Treasury,
}

/// One step of the path inside a location.
#[derive(Clone, Copy, Debug, PartialEq, Eq, Structural)]
pub enum Junction {
    /// A parachain, by its id.
    Parachain(u32),
    /// A body of people acting together, or a part of it.
    Plurality {
        /// Which body.
        id: BodyId,
    },
    /// Any other kind of junction.
    Other,
}

/// A place in the topology of chains, relative to this chain: so many steps
/// up, then the junctions down.
#[derive(Debug)]
pub struct Location {
    /// The number of steps up before the interior is followed.
    pub parents: u8,
    /// The junctions to follow downwards, outermost first.
    pub interior: Vec<Junction>,
}

impl Location {
    /// Whether the location is the parent chain itself or a plurality on
    /// the parent chain.
    pub open spec fn is_parent_or_its_plurality(&self) -> bool {
        &&& self.parents == 1
        &&& self.interior@.len() == 0 || (self.interior@.len() == 1
            && self.interior@[0] is Plurality)
    }

    /// Whether the location is the technical body on the Collectives
    /// chain, a sibling under the common parent.
    pub open spec fn is_fellows_plurality(&self) -> bool {
        &&& self.parents == 1
        &&& self.interior@.len() == 2
        &&& self.interior@[0] == Junction::Parachain(COLLECTIVES_ID)
        &&& self.interior@[1] == (Junction::Plurality { id: BodyId::Technical })
    }
}

/// Matches the parent chain and its pluralities.
pub struct ParentOrParentsPlurality;

impl ParentOrParentsPlurality {
    /// Whether `location` is the parent chain or a plurality on it.
    pub fn contains(location: &Location) -> (matched: bool)
        ensures
            matched == location.is_parent_or_its_plurality(),
    {
        if location.parents != 1 {
            return false;
        }
        if location.interior.len() == 0 {
            return true;
        }
        if location.interior.len() != 1 {
            return false;
        }
        match location.interior[0] {
            Junction::Plurality { .. } => true,
            _ => false,
        }
    }
}

/// Matches the Core Technical Fellowship.
pub struct FellowsPlurality;

impl FellowsPlurality {
    /// Whether `location` is the technical body on the Collectives chain.
    pub fn contains(location: &Location) -> (matched: bool)
        ensures
            matched == location.is_fellows_plurality(),
    {
        if location.parents != 1 || location.interior.len() != 2 {
            return false;
        }
        let on_collectives = match location.interior[0] {
            Junction::Parachain(id) => id == COLLECTIVES_ID,
            _ => false,
        };
        let technical = match location.interior[1] {
            Junction::Plurality { id: BodyId::Technical } => true,
            _ => false,
        };
        on_collectives && technical
    }
}

} // verus!
