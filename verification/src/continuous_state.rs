//! How long a resolved continuous effect lasts.
use vstd::prelude::*;

use crate::ids::PlayerId;

verus! {

/// When a continuous effect created by a resolving ability ends.
#[derive(Clone, Copy, Debug, PartialEq, Eq, Structural)]
pub enum ContinuousEffectExpiration {
    EndOfTurn,
    UpkeepOf(PlayerId),
    TurnOf { player: PlayerId, turn: u32 },
    WhileSourceTapped,
    Never,
}

impl ContinuousEffectExpiration {
    /// Whether the effect is still in force once `active_player`'s turn has
    /// begun, given how many turns each player has started.
    pub open spec fn spec_survives_turn_start(self, active_player: PlayerId, turns_started: Seq<u32>) -> bool {
        match self {
            ContinuousEffectExpiration::UpkeepOf(player) => player != active_player,
            ContinuousEffectExpiration::TurnOf { player, turn } => turns_started[player.spec_index()] < turn,
            _ => true,
        }
    }

    /// Only an "until end of turn" effect wears off in the cleanup step.
    pub open spec fn spec_survives_cleanup(self) -> bool {
        !(self is EndOfTurn)
    }

    pub fn survives_turn_start(self, active_player: PlayerId, turns_started: [u32; 2]) -> (survives: bool)
        ensures
            survives == self.spec_survives_turn_start(active_player, turns_started@),
    {
        match self {
            ContinuousEffectExpiration::UpkeepOf(player) => player != active_player,
            ContinuousEffectExpiration::TurnOf { player, turn } => turns_started[player.index()] < turn,
            ContinuousEffectExpiration::EndOfTurn
            | ContinuousEffectExpiration::WhileSourceTapped
            | ContinuousEffectExpiration::Never => true,
        }
    }

    pub fn survives_cleanup(self) -> (survives: bool)
        ensures
            survives == self.spec_survives_cleanup(),
    {
        match self {
            ContinuousEffectExpiration::EndOfTurn => false,
            _ => true,
        }
    }
}

} // verus!
