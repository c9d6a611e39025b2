//! Catalog numbers of the cards the engine implements.
use vstd::prelude::*;

use crate::ids::CardDefinitionId;

verus! {

pub const MOUNTAIN: CardDefinitionId = 1u32;
pub const PLAINS: CardDefinitionId = 2u32;
pub const SAVANNAH_LIONS: CardDefinitionId = 3u32;
pub const GRIZZLY_BEARS: CardDefinitionId = 4u32;
pub const SERRA_ANGEL: CardDefinitionId = 5u32;
pub const BALL_LIGHTNING: CardDefinitionId = 6u32;
pub const WALL_OF_STONE: CardDefinitionId = 7u32;
pub const GIANT_SPIDER: CardDefinitionId = 8u32;
pub const BENALISH_HERO: CardDefinitionId = 9u32;
pub const MESA_PEGASUS: CardDefinitionId = 10u32;
pub const WOLVES_OF_THE_HUNT: CardDefinitionId = 11u32;
pub const IRONCLAW_ORCS: CardDefinitionId = 12u32;
pub const MOAT: CardDefinitionId = 13u32;
pub const DOMRI_RADE: CardDefinitionId = 14u32;
pub const LURRUS_OF_THE_DREAM_DEN: CardDefinitionId = 15u32;
pub const TOBIAS_ANDRION: CardDefinitionId = 16u32;
pub const LIGHTNING_BOLT: CardDefinitionId = 17u32;
pub const TYPHOID_RATS: CardDefinitionId = 18u32;
pub const WHITE_KNIGHT: CardDefinitionId = 19u32;
pub const YOUNG_WOLF: CardDefinitionId = 20u32;
pub const DARKSTEEL_MYR: CardDefinitionId = 21u32;
pub const FIREBALL: CardDefinitionId = 22u32;

} // verus!
