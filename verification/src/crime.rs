//! Committing a crime (CR 701.51a): targeting an opponent, anything an
//! opponent controls, or a card in an opponent's graveyard. It is one event
//! however many such targets one spell or ability has.
use vstd::prelude::*;

use crate::ids::{GameObjectId, PlayerId};
use crate::state::{permanent_with, Game, GameView, StackView, Target, TriggerEvent, ZoneKind};

verus! {

/// The controller of the stack object with this id, the topmost first.
pub open spec fn stack_controller(stack: Seq<StackView>, id: GameObjectId) -> Option<PlayerId>
    decreases stack.len(),
{
    if stack.len() == 0 {
        None
    } else if stack.last().id == id {
        Some(stack.last().controller)
    } else {
        stack_controller(stack.drop_last(), id)
    }
}

impl GameView {
    /// Who controls this permanent or spell now.
    pub open spec fn spec_current_controller(self, id: GameObjectId) -> Option<PlayerId> {
        match permanent_with(self.battlefield, id) {
            Some(permanent) => Some(permanent.controller),
            None => stack_controller(self.stack, id),
        }
    }

    /// Whether targeting this is targeting something of the player's
    /// opponent: the opponent, a permanent or spell they control, or a card
    /// in their graveyard.
    pub open spec fn spec_target_belongs_to_opponent(self, player: PlayerId, target: Target) -> bool {
        let opponent = player.spec_opponent();
        match target {
            Target::Player(targeted) => targeted == opponent,
            Target::Permanent(id) => self.spec_current_controller(id) == Some(opponent),
            Target::Spell(id) => self.spec_current_controller(id) == Some(opponent),
            Target::Card(id) => self.spec_card_in_nonbattlefield_zone(id) matches Some((zone, card)) && zone
                == ZoneKind::Graveyard && card.owner == opponent,
        }
    }

    /// Whether these targets amount to a crime by the player.
    pub open spec fn commits_crime(self, player: PlayerId, targets: Seq<Target>) -> bool {
        exists|i: int| 0 <= i < targets.len() && self.spec_target_belongs_to_opponent(player, #[trigger] targets[i])
    }

    /// The crime is published, once, when the targets amount to one.
    pub open spec fn spec_capture_crime(self, player: PlayerId, targets: Seq<Target>) -> GameView {
        if self.commits_crime(player, targets) {
            GameView { triggers: self.triggers.push(TriggerEvent::CommittedCrime { player }), ..self }
        } else {
            self
        }
    }
}

impl Game {
    fn stack_controller(&self, id: GameObjectId) -> (controller: Option<PlayerId>)
        ensures
            controller == stack_controller(self@.stack, id),
    {
        let mut i: usize = self.stack.len();
        proof {
            assert(self@.stack.take(i as int) =~= self@.stack);
        }
        while i > 0
            invariant
                i <= self.stack@.len(),
                self@.stack.len() == self.stack@.len(),
                stack_controller(self@.stack, id) == stack_controller(self@.stack.take(i as int), id),
            decreases i,
        {
            proof {
                assert(self@.stack.take(i as int).drop_last() =~= self@.stack.take(i - 1));
            }
            if self.stack[i - 1].id == id {
                proof {
                    assert(self@.stack.take(i as int).last() == self@.stack[i - 1]);
                }
                return Some(self.stack[i - 1].controller);
            }
            i = i - 1;
        }
        None
    }

    /// Who controls this permanent or spell now.
    pub fn current_controller(&self, id: GameObjectId) -> (controller: Option<PlayerId>)
        ensures
            controller == self@.spec_current_controller(id),
    {
        match self.permanent_controller(id) {
            Some(controller) => Some(controller),
            None => self.stack_controller(id),
        }
    }

    /// Whether targeting this targets something of the player's opponent.
    pub fn target_belongs_to_opponent(&self, player: PlayerId, target: Target) -> (belongs: bool)
        requires
            self.wf(),
        ensures
            belongs == self@.spec_target_belongs_to_opponent(player, target),
    {
        let opponent = player.opponent();
        match target {
            Target::Player(targeted) => targeted == opponent,
            Target::Permanent(id) => match self.current_controller(id) {
                Some(controller) => controller == opponent,
                None => false,
            },
            Target::Spell(id) => match self.current_controller(id) {
                Some(controller) => controller == opponent,
                None => false,
            },
            Target::Card(id) => match self.card_in_nonbattlefield_zone(id) {
                Some((zone, card)) => zone == ZoneKind::Graveyard && card.owner == opponent,
                None => false,
            },
        }
    }

    /// Publishes the crime, if these targets amount to one.
    pub fn capture_crime_triggers(&mut self, player: PlayerId, targets: &Vec<Target>)
        requires
            old(self).wf(),
        ensures
            final(self)@ == old(self)@.spec_capture_crime(player, targets@),
            final(self).wf(),
    {
        let mut i: usize = 0;
        let mut crime = false;
        while i < targets.len()
            invariant
                self.wf(),
                i <= targets@.len(),
                crime == exists|j: int| 0 <= j < i && self@.spec_target_belongs_to_opponent(player, #[trigger] targets@[j]),
            decreases targets@.len() - i,
        {
            if self.target_belongs_to_opponent(player, targets[i]) {
                crime = true;
            }
            i = i + 1;
        }
        if crime {
            let ghost before = self@;
            self.triggers.push(TriggerEvent::CommittedCrime { player });
            proof {
                assert(self@.triggers =~= before.triggers.push(TriggerEvent::CommittedCrime { player }));
            }
        }
    }
}

} // verus!
