//! What a card's own resolution code is handed: the resolved ability's
//! frozen facts, two-pile splits and choices, and a narrow view of the game.
use vstd::prelude::*;

use crate::ids::{GameObjectId, PlayerId};
use crate::state::{permanent_with, Game, GameView, Permanent, Target};

verus! {

/// The targets chosen for one target slot.
#[derive(Clone, Debug)]
pub struct TargetSelection {
    pub targets: Vec<Target>,
}

/// Which target slot of an ability.
#[derive(Clone, Copy, Debug, PartialEq, Eq, Structural)]
pub struct TargetIndex(pub usize);

impl TargetIndex {
    pub fn index(self) -> (i: usize)
        ensures
            i == self.0,
    {
        self.0
    }
}

/// Frozen public facts handed to a card's resolver once targets have been
/// checked: its controller and its target selections, slot by slot.
#[derive(Clone, Debug)]
pub struct ResolvedAbility {
    pub controller: PlayerId,
    pub targets: Vec<TargetSelection>,
}

/// The first player among a slot's targets.
pub open spec fn first_player(targets: Seq<Target>) -> Option<PlayerId>
    decreases targets.len(),
{
    if targets.len() == 0 {
        None
    } else {
        match targets[0] {
            Target::Player(player) => Some(player),
            _ => first_player(targets.drop_first()),
        }
    }
}

impl ResolvedAbility {
    /// The targets of slot `slot`, when the ability has that slot.
    pub open spec fn slot_targets(self, slot: int) -> Option<Seq<Target>> {
        if 0 <= slot < self.targets@.len() {
            Some(self.targets@[slot].targets@)
        } else {
            None
        }
    }

    pub fn controller(&self) -> (controller: PlayerId)
        ensures
            controller == self.controller,
    {
        self.controller
    }

    /// The player chosen in slot `index`, if that slot names one: the first
    /// player among its targets.
    pub fn target_player(&self, index: TargetIndex) -> (player: Option<PlayerId>)
        ensures
            player == match self.slot_targets(index.0 as int) {
                Some(targets) => first_player(targets),
                None => None,
            },
    {
        let slot = index.index();
        if slot >= self.targets.len() {
            return None;
        }
        let targets = &self.targets[slot].targets;
        proof {
            assert(targets@.subrange(0, targets@.len() as int) =~= targets@);
        }
        let mut i: usize = 0;
        while i < targets.len()
            invariant
                slot == index.0,
                slot < self.targets@.len(),
                targets@ == self.targets@[slot as int].targets@,
                i <= targets@.len(),
                first_player(targets@) == first_player(targets@.subrange(i as int, targets@.len() as int)),
            decreases targets@.len() - i,
        {
            proof {
                assert(targets@.subrange(i as int, targets@.len() as int).drop_first() =~= targets@.subrange(
                    i + 1,
                    targets@.len() as int,
                ));
            }
            match targets[i] {
                Target::Player(player) => {
                    proof {
                        assert(targets@.subrange(i as int, targets@.len() as int)[0] == targets@[i as int]);
                    }
                    return Some(player);
                },
                _ => {},
            }
            i = i + 1;
        }
        proof {
            assert(targets@.subrange(i as int, targets@.len() as int) =~= Seq::<Target>::empty());
        }
        None
    }
}

/// A frozen set of objects divided into two piles.
#[derive(Clone, Debug)]
pub struct PileSplit {
    pub resolving_controller: PlayerId,
    pub subject: PlayerId,
    pub first: Vec<GameObjectId>,
    pub second: Vec<GameObjectId>,
}

impl PileSplit {
    /// The player the piles are about.
    pub fn subject(&self) -> (subject: PlayerId)
        ensures
            subject == self.subject,
    {
        self.subject
    }
}

/// One of two piles chosen.
#[derive(Clone, Debug)]
pub struct PileChoice {
    pub resolving_controller: PlayerId,
    pub subject: PlayerId,
    pub chosen: Vec<GameObjectId>,
    pub unchosen: Vec<GameObjectId>,
}

impl PileChoice {
    /// The controller of the resolving effect.
    pub fn resolving_controller(&self) -> (controller: PlayerId)
        ensures
            controller == self.resolving_controller,
    {
        self.resolving_controller
    }

    /// The player the piles are about.
    pub fn subject(&self) -> (subject: PlayerId)
        ensures
            subject == self.subject,
    {
        self.subject
    }

    /// The chosen pile and the other one.
    pub fn into_parts(self) -> (parts: (Vec<GameObjectId>, Vec<GameObjectId>))
        ensures
            parts.0@ == self.chosen@,
            parts.1@ == self.unchosen@,
    {
        (self.chosen, self.unchosen)
    }
}

/// A permanent's id when the player controls it.
pub open spec fn controlled_by(player: PlayerId) -> spec_fn(Permanent) -> Option<GameObjectId> {
    |permanent: Permanent|
        if permanent.controller == player {
            Some(permanent.card.id)
        } else {
            None
        }
}

/// An id kept when it names a permanent the player controls.
pub open spec fn kept_if_controlled(game: GameView, player: PlayerId) -> spec_fn(GameObjectId) -> bool {
    |id: GameObjectId| permanent_with(game.battlefield, id) matches Some(permanent) && permanent.controller == player
}

/// The narrow surface a card's resolution code works through.
pub struct CardRuntime {
    pub game: Game,
}

impl CardRuntime {
    /// The permanents the player controls, in battlefield order.
    pub fn controlled_permanents(&self, player: PlayerId) -> (ids: Vec<GameObjectId>)
        ensures
            ids@ == self.game@.battlefield.filter_map(controlled_by(player)),
    {
        let mut ids: Vec<GameObjectId> = Vec::new();
        let mut i: usize = 0;
        while i < self.game.battlefield.len()
            invariant
                i <= self.game.battlefield@.len(),
                ids@ == self.game.battlefield@.take(i as int).filter_map(controlled_by(player)),
            decreases self.game.battlefield@.len() - i,
        {
            proof {
                self.game.battlefield@.lemma_filter_map_take_succ(controlled_by(player), i as int);
            }
            if self.game.battlefield[i].controller == player {
                ids.push(self.game.battlefield[i].card.id);
            }
            i = i + 1;
        }
        proof {
            assert(self.game.battlefield@.take(i as int) =~= self.game.battlefield@);
        }
        ids
    }

    /// The named permanents the player controls are sacrificed together, as
    /// one batch. No card the engine implements stops a player from being
    /// made to sacrifice, so the resolving controller does not change it.
    pub fn sacrifice_permanents_simultaneously(
        &mut self,
        permanents: &Vec<GameObjectId>,
        player: PlayerId,
        resolving_controller: PlayerId,
    )
        requires
            old(self).game.wf(),
            old(self).game.next_object_id + 2 * permanents@.len() < u32::MAX,
        ensures
            final(self).game@ == old(self).game@.spec_move_to_graveyard(
                permanents@.filter(kept_if_controlled(old(self).game@, player)),
            ),
            final(self).game.wf(),
    {
        let mut controlled: Vec<GameObjectId> = Vec::new();
        let mut i: usize = 0;
        while i < permanents.len()
            invariant
                self.game.wf(),
                i <= permanents@.len(),
                controlled@ == permanents@.take(i as int).filter(kept_if_controlled(self.game@, player)),
                controlled@.len() <= i,
            decreases permanents@.len() - i,
        {
            proof {
                assert(permanents@.take(i + 1) =~= permanents@.take(i as int).push(permanents@[i as int]));
                permanents@.take(i as int).lemma_filter_push(
                    permanents@[i as int],
                    kept_if_controlled(self.game@, player),
                );
            }
            let id = permanents[i];
            match self.game.permanent_controller(id) {
                Some(controller) => {
                    if controller == player {
                        controlled.push(id);
                    }
                },
                None => {},
            }
            i = i + 1;
        }
        proof {
            assert(permanents@.take(i as int) =~= permanents@);
        }
        self.game.move_permanents_to_graveyard(&controlled);
    }
}

} // verus!
