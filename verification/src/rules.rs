//! State-based actions (CR 704).
use vstd::prelude::*;

use crate::ids::{GameObjectId, PlayerId};
use crate::state::{Game, GameView, Permanent};

verus! {

impl GameView {
    /// A creature with toughness 0 or less, or a planeswalker with no
    /// loyalty, is put into its owner's graveyard.
    pub open spec fn unsupported(self) -> spec_fn(Permanent) -> Option<GameObjectId> {
        |permanent: Permanent|
            if (self.is_creature(permanent) && (self.toughness_of(permanent) matches Some(toughness)
                && toughness <= 0)) || (self.is_planeswalker(permanent) && permanent.loyalty == 0) {
                Some(permanent.card.id)
            } else {
                None
            }
    }

    /// A creature with lethal damage, or any damage from a source with
    /// deathtouch, is destroyed.
    pub open spec fn lethally_damaged(self) -> spec_fn(Permanent) -> Option<GameObjectId> {
        |permanent: Permanent|
            if self.is_creature(permanent) && (self.toughness_of(permanent) matches Some(toughness)
                && toughness > 0 && (permanent.damage >= toughness || (permanent.deathtouch_damage
                && permanent.damage > 0))) {
                Some(permanent.card.id)
            } else {
                None
            }
    }

    /// A player at 0 or less life loses while the other is still alive.
    pub open spec fn with_loser_checked(self) -> GameView {
        if self.winner is Some {
            self
        } else if self.life(PlayerId::One) <= 0 && self.life(PlayerId::Two) > 0 {
            GameView { winner: Some(PlayerId::Two), ..self }
        } else if self.life(PlayerId::Two) <= 0 && self.life(PlayerId::One) > 0 {
            GameView { winner: Some(PlayerId::One), ..self }
        } else {
            self
        }
    }

    #[verifier::opaque]
    pub open spec fn spec_state_based_actions(self) -> GameView {
        let unsupported = self.battlefield.filter_map(self.unsupported());
        let lethal = self.battlefield.filter_map(self.lethally_damaged());
        self.spec_move_to_graveyard(unsupported).spec_destroy(lethal, true).with_loser_checked()
    }
}

impl Game {
    fn ids_where_unsupported(&self) -> (ids: Vec<GameObjectId>)
        ensures
            ids@ == self@.battlefield.filter_map(self@.unsupported()),
            ids@.len() <= self@.battlefield.len(),
    {
        let mut ids: Vec<GameObjectId> = Vec::new();
        let mut i: usize = 0;
        while i < self.battlefield.len()
            invariant
                i <= self.battlefield@.len(),
                ids@ == self.battlefield@.take(i as int).filter_map(self@.unsupported()),
                ids@.len() <= i,
            decreases self.battlefield@.len() - i,
        {
            proof {
                self.battlefield@.lemma_filter_map_take_succ(self@.unsupported(), i as int);
            }
            let permanent = &self.battlefield[i];
            let zero_toughness = self.is_creature_permanent(permanent) && match self.toughness(permanent) {
                Some(toughness) => toughness <= 0,
                None => false,
            };
            if zero_toughness || (self.is_planeswalker_permanent(permanent) && permanent.loyalty == 0) {
                ids.push(permanent.card.id);
            }
            i = i + 1;
        }
        proof {
            assert(self.battlefield@.take(i as int) =~= self.battlefield@);
        }
        ids
    }

    fn ids_lethally_damaged(&self) -> (ids: Vec<GameObjectId>)
        ensures
            ids@ == self@.battlefield.filter_map(self@.lethally_damaged()),
            ids@.len() <= self@.battlefield.len(),
    {
        let mut ids: Vec<GameObjectId> = Vec::new();
        let mut i: usize = 0;
        while i < self.battlefield.len()
            invariant
                i <= self.battlefield@.len(),
                ids@ == self.battlefield@.take(i as int).filter_map(self@.lethally_damaged()),
                ids@.len() <= i,
            decreases self.battlefield@.len() - i,
        {
            proof {
                self.battlefield@.lemma_filter_map_take_succ(self@.lethally_damaged(), i as int);
            }
            let permanent = &self.battlefield[i];
            if self.is_creature_permanent(permanent) {
                if let Some(toughness) = self.toughness(permanent) {
                    if toughness > 0 && ((permanent.damage as i32) >= toughness || (
                    permanent.deathtouch_damage && permanent.damage > 0)) {
                        ids.push(permanent.card.id);
                    }
                }
            }
            i = i + 1;
        }
        proof {
            assert(self.battlefield@.take(i as int) =~= self.battlefield@);
        }
        ids
    }

    /// CR 704: creatures without toughness and planeswalkers without loyalty
    /// go to the graveyard, lethally damaged creatures are destroyed, and a
    /// player at 0 or less life loses.
    pub fn check_state_based_actions(&mut self)
        requires
            old(self).wf(),
            old(self).next_object_id + 4 * old(self).battlefield@.len() < u32::MAX,
        ensures
            final(self)@ == old(self)@.spec_state_based_actions(),
            final(self).wf(),
    {
        reveal(GameView::spec_state_based_actions);
        let unsupported = self.ids_where_unsupported();
        let lethal = self.ids_lethally_damaged();
        self.move_permanents_to_graveyard(&unsupported);
        self.destroy_permanents(&lethal, true);
        if self.winner.is_none() {
            let one = self.players[0].life;
            let two = self.players[1].life;
            if one <= 0 && two > 0 {
                self.winner = Some(PlayerId::Two);
            } else if two <= 0 && one > 0 {
                self.winner = Some(PlayerId::One);
            }
        }
    }
}

} // verus!
