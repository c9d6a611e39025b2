//! Identifiers shared by every part of the engine.
use vstd::prelude::*;

verus! {

/// One of the two seats at the table.
#[derive(Clone, Copy, Debug, PartialEq, Eq, Structural)]
pub enum PlayerId {
    One,
    Two,
}

impl PlayerId {
    /// The seat's position in the game's player list.
    pub open spec fn spec_index(self) -> int {
        match self {
            PlayerId::One => 0,
            PlayerId::Two => 1,
        }
    }

    pub open spec fn spec_opponent(self) -> PlayerId {
        match self {
            PlayerId::One => PlayerId::Two,
            PlayerId::Two => PlayerId::One,
        }
    }

    pub fn index(self) -> (i: usize)
        ensures
            i == self.spec_index(),
            i < 2,
    {
        match self {
            PlayerId::One => 0,
            PlayerId::Two => 1,
        }
    }

    /// The other seat: in a two-player game, every opponent there is.
    pub fn opponent(self) -> (other: PlayerId)
        ensures
            other == self.spec_opponent(),
            other != self,
    {
        match self {
            PlayerId::One => PlayerId::Two,
            PlayerId::Two => PlayerId::One,
        }
    }
}

/// A game object: one incarnation of a card or token. A card that changes
/// zones becomes a new object with a new id.
#[derive(Clone, Copy, Debug, PartialEq, Eq, Hash, Structural)]
pub struct GameObjectId(pub u32);

/// A stable numeric card identity in the catalog.
pub type CardDefinitionId = u32;

/// The position of an ability among those a card part prints.
#[derive(Clone, Copy, Debug, PartialEq, Eq, Hash, Structural)]
pub struct AbilityId(pub u8);

/// Which face or half of a card is presented. Every card this engine knows
/// has a single face, the primary one.
#[allow(non_camel_case_types)]
#[derive(Clone, Copy, Debug, PartialEq, Eq, Hash, Structural)]
pub enum CardPartId {
    PRIMARY,
}

} // verus!
