//! The intervening conditions of triggered abilities: whether a condition
//! holds of the game as it is now, asked afresh each time.
use vstd::prelude::*;

use crate::ids::{GameObjectId, PlayerId};
use crate::state::{permanent_with, CounterKind, CreatureFilter, Game, GameView, Permanent};

verus! {

/// How a count is compared with an amount.
#[derive(Clone, Copy, Debug, PartialEq, Eq, Structural)]
pub enum Comparison {
    AtLeast,
    AtMost,
    Exactly,
}

/// A player as seen from the ability's controller.
#[derive(Clone, Copy, Debug, PartialEq, Eq, Structural)]
pub enum PlayerRelation {
    You,
    Opponent,
}

/// A condition a triggered ability asks about the game.
#[derive(Clone, Copy, Debug, PartialEq, Eq, Structural)]
pub enum TriggerCondition {
    /// Its source is on the battlefield.
    SourceOnBattlefield,
    /// Its source is an untapped permanent.
    SourceUntapped,
    /// It is this player's turn.
    ActivePlayer(PlayerRelation),
    /// Its controller controls a creature with the greatest power, ties
    /// included.
    ControlsGreatestPowerCreature,
    /// Its source has this many counters of a kind.
    SourceCounters { kind: CounterKind, comparison: Comparison, amount: u8 },
    /// Its source has this much loyalty.
    SourceLoyalty { comparison: Comparison, amount: u8 },
    /// Its source dealt damage to an opponent this turn.
    SourceDealtDamageToOpponentThisTurn,
    /// A count of the permanents of a kind that a player controls.
    ObjectCount { controller: PlayerRelation, filter: CreatureFilter, comparison: Comparison, amount: u8 },
}

pub open spec fn spec_compare(count: int, comparison: Comparison, amount: int) -> bool {
    match comparison {
        Comparison::AtLeast => count >= amount,
        Comparison::AtMost => count <= amount,
        Comparison::Exactly => count == amount,
    }
}

pub fn compare(count: u16, comparison: Comparison, amount: u8) -> (holds: bool)
    ensures
        holds == spec_compare(count as int, comparison, amount as int),
{
    match comparison {
        Comparison::AtLeast => count >= amount as u16,
        Comparison::AtMost => count <= amount as u16,
        Comparison::Exactly => count == amount as u16,
    }
}

/// Whether a player stands in this relation to the controller.
pub open spec fn spec_relation_matches(player: PlayerId, relation: PlayerRelation, controller: PlayerId) -> bool {
    match relation {
        PlayerRelation::You => player == controller,
        PlayerRelation::Opponent => player != controller,
    }
}

/// The greater of a best-so-far and a new value.
pub open spec fn at_least(best: Option<int>, value: int) -> Option<int> {
    match best {
        Some(seen) => if seen >= value {
            Some(seen)
        } else {
            Some(value)
        },
        None => Some(value),
    }
}

impl GameView {
    /// A permanent counted by an object-count condition.
    pub open spec fn counted(self, relation: PlayerRelation, filter: CreatureFilter, controller: PlayerId) -> spec_fn(
        Permanent,
    ) -> Option<GameObjectId> {
        |permanent: Permanent|
            if spec_relation_matches(permanent.controller, relation, controller) && self.spec_matches_filter(
                filter,
                permanent,
            ) {
                Some(permanent.card.id)
            } else {
                None
            }
    }

    /// How many permanents of the kind a player in this relation controls.
    pub open spec fn object_count(self, relation: PlayerRelation, filter: CreatureFilter, controller: PlayerId) -> nat {
        self.battlefield.filter_map(self.counted(relation, filter, controller)).len()
    }

    /// The greatest power among the first `n` permanents, counting only
    /// those of `controller` when one is named.
    pub open spec fn greatest_power(self, controller: Option<PlayerId>, n: int) -> Option<int>
        decreases n,
    {
        if n <= 0 {
            None
        } else {
            let best = self.greatest_power(controller, n - 1);
            let permanent = self.battlefield[n - 1];
            match self.power_of(permanent) {
                Some(power) => if controller matches Some(player) && permanent.controller != player {
                    best
                } else {
                    at_least(best, power)
                },
                None => best,
            }
        }
    }

    /// Whether the condition holds now for an ability of `source`
    /// controlled by `controller`.
    pub open spec fn spec_trigger_condition_holds(
        self,
        condition: TriggerCondition,
        source: GameObjectId,
        controller: PlayerId,
    ) -> bool {
        let found = permanent_with(self.battlefield, source);
        match condition {
            TriggerCondition::SourceOnBattlefield => found is Some,
            TriggerCondition::SourceUntapped => found matches Some(permanent) && !permanent.tapped,
            TriggerCondition::ActivePlayer(relation) => spec_relation_matches(self.active_player, relation, controller),
            TriggerCondition::ControlsGreatestPowerCreature => {
                let n = self.battlefield.len() as int;
                self.greatest_power(Some(controller), n) matches Some(mine) && self.greatest_power(None, n)
                    matches Some(best) && mine >= best
            },
            TriggerCondition::SourceCounters { kind, comparison, amount } => found matches Some(permanent)
                && spec_compare(permanent.spec_counters(kind) as int, comparison, amount as int),
            TriggerCondition::SourceLoyalty { comparison, amount } => found matches Some(permanent) && spec_compare(
                permanent.loyalty as int,
                comparison,
                amount as int,
            ),
            TriggerCondition::SourceDealtDamageToOpponentThisTurn => found matches Some(permanent)
                && permanent.dealt_damage_to_opponent_this_turn,
            TriggerCondition::ObjectCount { controller: relation, filter, comparison, amount } => spec_compare(
                self.object_count(relation, filter, controller) as int,
                comparison,
                amount as int,
            ),
        }
    }
}

fn keep_greater(best: Option<i32>, value: i32) -> (greater: Option<i32>)
    ensures
        match greater {
            Some(v) => at_least(
                match best {
                    Some(b) => Some(b as int),
                    None => None,
                },
                value as int,
            ) == Some(v as int),
            None => false,
        },
{
    match best {
        Some(seen) => if seen >= value {
            Some(seen)
        } else {
            Some(value)
        },
        None => Some(value),
    }
}

pub open spec fn as_int(value: Option<i32>) -> Option<int> {
    match value {
        Some(v) => Some(v as int),
        None => None,
    }
}

impl Game {
    /// Whether the condition holds now for an ability of `source`
    /// controlled by `controller`.
    pub fn trigger_condition_holds(&self, condition: TriggerCondition, source: GameObjectId, controller: PlayerId) -> (holds:
        bool)
        ensures
            holds == self@.spec_trigger_condition_holds(condition, source, controller),
    {
        let found = match self.permanent_position(source) {
            Some(i) => Some(self.battlefield[i]),
            None => None,
        };
        match condition {
            TriggerCondition::SourceOnBattlefield => found.is_some(),
            TriggerCondition::SourceUntapped => match found {
                Some(permanent) => !permanent.tapped,
                None => false,
            },
            TriggerCondition::ActivePlayer(relation) => match relation {
                PlayerRelation::You => self.active_player == controller,
                PlayerRelation::Opponent => self.active_player != controller,
            },
            TriggerCondition::ControlsGreatestPowerCreature => {
                let mut best: Option<i32> = None;
                let mut mine: Option<i32> = None;
                let mut i: usize = 0;
                while i < self.battlefield.len()
                    invariant
                        i <= self.battlefield@.len(),
                        as_int(best) == self@.greatest_power(None, i as int),
                        as_int(mine) == self@.greatest_power(Some(controller), i as int),
                    decreases self.battlefield@.len() - i,
                {
                    let permanent = &self.battlefield[i];
                    match self.power(permanent) {
                        Some(power) => {
                            best = keep_greater(best, power);
                            if permanent.controller == controller {
                                mine = keep_greater(mine, power);
                            }
                        },
                        None => {},
                    }
                    i = i + 1;
                }
                match (mine, best) {
                    (Some(mine), Some(best)) => mine >= best,
                    _ => false,
                }
            },
            TriggerCondition::SourceCounters { kind, comparison, amount } => match found {
                Some(permanent) => compare(permanent.counters(kind), comparison, amount),
                None => false,
            },
            TriggerCondition::SourceLoyalty { comparison, amount } => match found {
                Some(permanent) => compare(permanent.loyalty, comparison, amount),
                None => false,
            },
            TriggerCondition::SourceDealtDamageToOpponentThisTurn => match found {
                Some(permanent) => permanent.dealt_damage_to_opponent_this_turn,
                None => false,
            },
            TriggerCondition::ObjectCount { controller: relation, filter, comparison, amount } => {
                let count = self.object_count(relation, filter, controller);
                match comparison {
                    Comparison::AtLeast => count as u64 >= amount as u64,
                    Comparison::AtMost => count as u64 <= amount as u64,
                    Comparison::Exactly => count as u64 == amount as u64,
                }
            },
        }
    }

    /// How many permanents of the kind a player in this relation controls.
    pub fn object_count(&self, relation: PlayerRelation, filter: CreatureFilter, controller: PlayerId) -> (count: usize)
        ensures
            count == self@.object_count(relation, filter, controller),
    {
        let mut count: usize = 0;
        let mut i: usize = 0;
        while i < self.battlefield.len()
            invariant
                i <= self.battlefield@.len(),
                count == self.battlefield@.take(i as int).filter_map(self@.counted(relation, filter, controller)).len(),
                count <= i,
            decreases self.battlefield@.len() - i,
        {
            proof {
                self.battlefield@.lemma_filter_map_take_succ(self@.counted(relation, filter, controller), i as int);
            }
            let permanent = &self.battlefield[i];
            let related = match relation {
                PlayerRelation::You => permanent.controller == controller,
                PlayerRelation::Opponent => permanent.controller != controller,
            };
            if related && self.matches_filter(filter, permanent) {
                count = count + 1;
            }
            i = i + 1;
        }
        proof {
            assert(self.battlefield@.take(i as int) =~= self.battlefield@);
        }
        count
    }
}

} // verus!
