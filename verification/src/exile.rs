//! Moving cards between a player's non-battlefield zones and exile, and
//! bringing exiled cards back.
use vstd::prelude::*;

use crate::card::{KeywordAbility, KeywordSet};
use crate::characteristics::card_with;
use crate::ids::{GameObjectId, PlayerId};
use crate::state::{card_position, take_card, CardInstance, Game, GameView, Permanent, PlayerState, PlayerView, ZoneKind};

verus! {

/// The cards of one of a player's zones a card can be taken from.
pub open spec fn zone_cards(state: PlayerView, zone: ZoneKind) -> Option<Seq<CardInstance>> {
    match zone {
        ZoneKind::Library => Some(state.library),
        ZoneKind::Hand => Some(state.hand),
        ZoneKind::Graveyard => Some(state.graveyard),
        ZoneKind::Exile => Some(state.exile),
        _ => None,
    }
}

/// The player's state with one zone's cards replaced.
pub open spec fn with_zone(state: PlayerView, zone: ZoneKind, cards: Seq<CardInstance>) -> PlayerView {
    match zone {
        ZoneKind::Library => PlayerView { library: cards, ..state },
        ZoneKind::Hand => PlayerView { hand: cards, ..state },
        ZoneKind::Graveyard => PlayerView { graveyard: cards, ..state },
        ZoneKind::Exile => PlayerView { exile: cards, ..state },
        _ => state,
    }
}

/// The keywords an arriving permanent is granted.
pub open spec fn granted_keywords(grant: Option<KeywordAbility>) -> KeywordSet {
    match grant {
        Some(keyword) => KeywordSet::spec_none().spec_with(keyword),
        None => KeywordSet::spec_none(),
    }
}

impl PlayerState {
    /// Takes the first card with this id out of one of the zones a card can
    /// be taken from.
    pub fn take_from_zone(&mut self, zone: ZoneKind, id: GameObjectId) -> (taken: Option<CardInstance>)
        ensures
            match zone_cards(old(self)@, zone) {
                None => taken is None && final(self)@ == old(self)@,
                Some(cards) => match card_position(cards, id) {
                    None => taken is None && final(self)@ == old(self)@,
                    Some(i) => taken == Some(cards[i]) && final(self)@ == with_zone(old(self)@, zone, cards.remove(i)),
                },
            },
    {
        match zone {
            ZoneKind::Library => take_card(&mut self.library, id),
            ZoneKind::Hand => take_card(&mut self.hand, id),
            ZoneKind::Graveyard => take_card(&mut self.graveyard, id),
            ZoneKind::Exile => take_card(&mut self.exile, id),
            _ => None,
        }
    }
}

impl GameView {
    /// A card taken out of one of its owner's zones, and the game without it.
    pub open spec fn spec_take_card_from_zone(self, owner: PlayerId, zone: ZoneKind, id: GameObjectId) -> (
        GameView,
        Option<CardInstance>,
    ) {
        match zone_cards(self.player(owner), zone) {
            None => (self, None),
            Some(cards) => match card_position(cards, id) {
                None => (self, None),
                Some(i) => (
                    self.with_player(owner, with_zone(self.player(owner), zone, cards.remove(i))),
                    Some(cards[i]),
                ),
            },
        }
    }

    /// A card in a library, hand or graveyard is exiled as a new object; the
    /// new object's id is returned. A card already in exile stays put.
    pub open spec fn spec_exile_card_returning_card(self, id: GameObjectId) -> (GameView, Option<GameObjectId>) {
        match self.spec_card_in_nonbattlefield_zone(id) {
            None => (self, None),
            Some((zone, card)) => if zone == ZoneKind::Exile {
                (self, None)
            } else {
                let (taken_from, taken) = self.spec_take_card_from_zone(card.owner, zone, id);
                match taken {
                    None => (taken_from, None),
                    Some(found) => {
                        let (spent, moved) = taken_from.zone_change(found);
                        let owner = moved.owner;
                        let state = spent.player(owner);
                        (
                            spent.with_player(owner, PlayerView { exile: state.exile.push(moved), ..state }),
                            Some(moved.id),
                        )
                    },
                }
            },
        }
    }

    /// The player whose exile holds this card, player one first.
    pub open spec fn exile_holder(self, id: GameObjectId) -> Option<PlayerId> {
        if card_with(self.player(PlayerId::One).exile, id) is Some {
            Some(PlayerId::One)
        } else if card_with(self.player(PlayerId::Two).exile, id) is Some {
            Some(PlayerId::Two)
        } else {
            None
        }
    }

    /// A linked exile comes back: onto the battlefield under the arriving
    /// controller (its owner by default) with any granted keyword, or
    /// otherwise to its owner's hand, as a new object either way. A card no
    /// longer in exile is not followed.
    pub open spec fn spec_return_exiled_card(
        self,
        id: GameObjectId,
        zone: ZoneKind,
        grant: Option<KeywordAbility>,
        arriving_controller: Option<PlayerId>,
    ) -> GameView {
        match self.exile_holder(id) {
            None => self,
            Some(owner) => {
                let (taken_from, taken) = self.spec_take_card_from_zone(owner, ZoneKind::Exile, id);
                match taken {
                    None => self,
                    Some(card) => {
                        let (spent, moved) = taken_from.zone_change(card);
                        if zone == ZoneKind::Battlefield {
                            let controller = match arriving_controller {
                                Some(controller) => controller,
                                None => owner,
                            };
                            let entering = Permanent::spec_entering(
                                moved,
                                controller,
                                spent.turns_started[controller.spec_index()],
                            );
                            GameView {
                                battlefield: spent.battlefield.push(
                                    Permanent { granted: granted_keywords(grant), ..entering },
                                ),
                                ..spent
                            }
                        } else {
                            let state = spent.player(owner);
                            spent.with_player(owner, PlayerView { hand: state.hand.push(moved), ..state })
                        }
                    },
                }
            },
        }
    }
}

impl Game {
    /// Removes a card from one of a player's non-battlefield zones.
    pub fn take_card_from_zone(&mut self, owner: PlayerId, zone: ZoneKind, id: GameObjectId) -> (taken: Option<
        CardInstance,
    >)
        requires
            old(self).wf(),
        ensures
            (final(self)@, taken) == old(self)@.spec_take_card_from_zone(owner, zone, id),
            final(self).wf(),
    {
        let index = owner.index();
        let taken = self.players[index].take_from_zone(zone, id);
        proof {
            assert(self@.players =~= old(self)@.players.update(index as int, self.players@[index as int]@));
            if taken is None {
                assert(self@ =~= old(self)@);
            }
        }
        taken
    }

    /// Exiles a card from a library, hand or graveyard and returns the id it
    /// has in exile.
    pub fn exile_card_returning_card(&mut self, id: GameObjectId) -> (exiled: Option<GameObjectId>)
        requires
            old(self).wf(),
            old(self).next_object_id < u32::MAX,
        ensures
            (final(self)@, exiled) == old(self)@.spec_exile_card_returning_card(id),
            final(self).wf(),
    {
        let (zone, card) = match self.card_in_nonbattlefield_zone(id) {
            Some(found) => found,
            None => return None,
        };
        if zone == ZoneKind::Exile {
            return None;
        }
        let found = match self.take_card_from_zone(card.owner, zone, id) {
            Some(found) => found,
            None => return None,
        };
        let moved = self.zone_change_card(found);
        let owner = moved.owner.index();
        let ghost before = self@;
        self.players[owner].exile.push(moved);
        proof {
            let state = before.player(moved.owner);
            assert(self@.players =~= before.players.update(
                owner as int,
                PlayerView { exile: state.exile.push(moved), ..state },
            ));
        }
        Some(moved.id)
    }

    fn exile_holder(&self, id: GameObjectId) -> (holder: Option<PlayerId>)
        requires
            self.wf(),
        ensures
            holder == self@.exile_holder(id),
    {
        if crate::characteristics::find_card(&self.players[0].exile, id).is_some() {
            Some(PlayerId::One)
        } else if crate::characteristics::find_card(&self.players[1].exile, id).is_some() {
            Some(PlayerId::Two)
        } else {
            None
        }
    }

    /// Brings a linked exile back to the battlefield or its owner's hand.
    pub fn return_exiled_card(
        &mut self,
        id: GameObjectId,
        zone: ZoneKind,
        grant: Option<KeywordAbility>,
        arriving_controller: Option<PlayerId>,
    )
        requires
            old(self).wf(),
            old(self).next_object_id < u32::MAX,
        ensures
            final(self)@ == old(self)@.spec_return_exiled_card(id, zone, grant, arriving_controller),
            final(self).wf(),
    {
        let owner = match self.exile_holder(id) {
            Some(owner) => owner,
            None => return,
        };
        let card = match self.take_card_from_zone(owner, ZoneKind::Exile, id) {
            Some(card) => card,
            None => return,
        };
        let moved = self.zone_change_card(card);
        if zone == ZoneKind::Battlefield {
            let controller = match arriving_controller {
                Some(controller) => controller,
                None => owner,
            };
            let turn = self.turns_started[controller.index()];
            let mut permanent = Permanent::entering(moved, controller, turn);
            permanent.granted = match grant {
                Some(keyword) => KeywordSet::none().with(keyword),
                None => KeywordSet::none(),
            };
            let ghost before = self@;
            self.battlefield.push(permanent);
            proof {
                assert(self@.battlefield =~= before.battlefield.push(permanent));
            }
        } else {
            let index = owner.index();
            let ghost before = self@;
            self.players[index].hand.push(moved);
            proof {
                let state = before.player(owner);
                assert(self@.players =~= before.players.update(
                    index as int,
                    PlayerView { hand: state.hand.push(moved), ..state },
                ));
            }
        }
    }
}

} // verus!
