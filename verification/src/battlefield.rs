//! Tapping, regeneration, and permanents leaving the battlefield.
use vstd::prelude::*;

use crate::card::{KeywordAbility, KeywordSet};
use crate::damage::saturating_add_u16;
use crate::ids::{GameObjectId, PlayerId};
use crate::state::{
    lemma_position_is_first, lemma_update_keeps_positions, permanent_with, position_of, remove_card, AssignedCombatDamage, BattlefieldExit, CardInstance,
    EventView, Game, GameEvent, GameView, Permanent, PlayerView, TriggerEvent, ZoneKind,
    ZonePlacement,
};

verus! {

/// One permanent's proposed move off the battlefield.
#[derive(Clone, Copy, Debug, PartialEq, Eq, Structural)]
pub struct PendingBattlefieldExitMove {
    pub object: GameObjectId,
    pub controller: PlayerId,
    pub destination: ZoneKind,
    /// A replacement effect left nothing of the move.
    pub replaced_with_nothing: bool,
}

/// The zones a permanent may leave the battlefield for: a move to the
/// battlefield, the stack or the command zone is not one the engine makes.
pub open spec fn exit_destination(zone: ZoneKind) -> bool {
    zone == ZoneKind::Graveyard || zone == ZoneKind::Exile || zone == ZoneKind::Hand || zone == ZoneKind::Library
}

/// A simultaneous batch of moves off the battlefield.
#[derive(Clone, Debug)]
pub struct PendingBattlefieldExitBatch {
    pub moves: Vec<PendingBattlefieldExitMove>,
}

/// At most as many results as inputs.
pub proof fn lemma_filter_map_len<A, B>(items: Seq<A>, f: spec_fn(A) -> Option<B>)
    ensures
        items.filter_map(f).len() <= items.len(),
    decreases items.len(),
{
    if items.len() > 0 {
        lemma_filter_map_len(items.drop_last(), f);
        assert(items.drop_last() =~= items.take(items.len() - 1));
        items.lemma_filter_map_take_succ(f, items.len() - 1);
        assert(items.take(items.len() as int) =~= items);
    }
}

/// Where a permanent leaving for this zone is recorded as going.
pub open spec fn exit_kind(destination: ZoneKind) -> BattlefieldExit {
    match destination {
        ZoneKind::Exile => BattlefieldExit::Exile,
        ZoneKind::Hand => BattlefieldExit::Hand,
        ZoneKind::Library => BattlefieldExit::LibraryTop,
        _ => BattlefieldExit::Graveyard,
    }
}

/// An assignment made by some other creature than `id`.
pub open spec fn not_from(id: GameObjectId) -> spec_fn(AssignedCombatDamage) -> bool {
    |assigned: AssignedCombatDamage| assigned.source != id
}

/// A permanent out of combat: not attacking, not in a band, not blocked and
/// not blocking.
pub open spec fn out_of_combat(permanent: Permanent) -> Permanent {
    Permanent {
        attacking: false,
        attacking_band: None,
        blocked: false,
        blocking: None,
        ..permanent
    }
}

impl GameView {
    /// The card as the new object it becomes in another zone, and the game
    /// with that object's id spent.
    pub open spec fn zone_change(self, card: CardInstance) -> (GameView, CardInstance) {
        (
            GameView { next_object_id: (self.next_object_id + 1) as u32, ..self },
            CardInstance { id: GameObjectId(self.next_object_id), ..card },
        )
    }

    /// This game with one player's zones replaced.
    pub open spec fn with_player(self, player: PlayerId, state: PlayerView) -> GameView {
        GameView { players: self.players.update(player.spec_index(), state), ..self }
    }

    /// A card put into one of its owner's zones: on top, except a library
    /// placement that names the bottom.
    pub open spec fn put_in_zone(
        self,
        card: CardInstance,
        zone: ZoneKind,
        placement: ZonePlacement,
    ) -> GameView {
        let state = self.player(card.owner);
        self.with_player(
            card.owner,
            match zone {
                ZoneKind::Exile => PlayerView { exile: state.exile.push(card), ..state },
                ZoneKind::Hand => PlayerView { hand: state.hand.push(card), ..state },
                ZoneKind::Library => match placement {
                    ZonePlacement::Top => PlayerView { library: state.library.push(card), ..state },
                    ZonePlacement::Bottom => PlayerView {
                        library: seq![card] + state.library,
                        ..state
                    },
                },
                _ => PlayerView { graveyard: state.graveyard.push(card), ..state },
            },
        )
    }

    /// The permanent at `index` leaves the battlefield for `destination`:
    /// the zone change is published, the exit recorded, and the card becomes
    /// a new object in its owner's zone.
    pub open spec fn leave_battlefield(
        self,
        index: int,
        destination: ZoneKind,
        placement: ZonePlacement,
    ) -> GameView {
        let permanent = self.battlefield[index];
        let removed = GameView {
            battlefield: self.battlefield.remove(index),
            triggers: self.triggers.push(
                TriggerEvent::ZoneChanged {
                    object: permanent.card.id,
                    from: ZoneKind::Battlefield,
                    to: destination,
                },
            ),
            events: self.events.push(
                EventView::PermanentLeftBattlefield {
                    controller: permanent.controller,
                    card: permanent.card.id,
                    definition: permanent.card.definition,
                    destination: exit_kind(destination),
                },
            ),
            ..self
        };
        let (moved, card) = removed.zone_change(permanent.card);
        moved.put_in_zone(card, destination, placement)
    }


    /// Where a permanent goes when it would die.
    pub open spec fn death_destination(permanent: Permanent) -> ZoneKind {
        if permanent.exile_instead_of_dying {
            ZoneKind::Exile
        } else {
            ZoneKind::Graveyard
        }
    }

    /// Undying returns the card that just went to its owner's graveyard as a
    /// new object with a +1/+1 counter.
    pub open spec fn spec_undying_return(self, owner: PlayerId) -> GameView {
        let graveyard = self.player(owner).graveyard;
        if graveyard.len() == 0 {
            self
        } else {
            let lifted = self.with_player(
                owner,
                PlayerView { graveyard: graveyard.drop_last(), ..self.player(owner) },
            );
            let (moved, card) = lifted.zone_change(graveyard.last());
            let permanent = Permanent::spec_entering(card, owner, self.turns_started[owner.spec_index()]);
            moved.with_battlefield(
                moved.battlefield.push(Permanent { plus_one_counters: 1, ..permanent }),
            )
        }
    }

    /// One member of a batch leaves for its destination. A creature put
    /// into a graveyard is counted as having died, and undying brings it
    /// back.
    pub open spec fn commit_exit_to(self, id: GameObjectId, destination: ZoneKind) -> GameView {
        match position_of(self.battlefield, id) {
            None => self,
            Some(i) => {
                let permanent = self.battlefield[i];
                let died = destination == ZoneKind::Graveyard && self.is_creature(permanent);
                let undying = destination == ZoneKind::Graveyard && self.has_keyword(
                    permanent,
                    KeywordAbility::Undying,
                ) && permanent.plus_one_counters == 0;
                let counted = if died {
                    GameView {
                        creature_died_this_turn: true,
                        creatures_died_this_turn: saturating_add_u16(
                            self.creatures_died_this_turn,
                            1,
                        ),
                        ..self
                    }
                } else {
                    self
                };
                let gone = counted.leave_battlefield(i, destination, ZonePlacement::Top);
                if undying {
                    gone.spec_undying_return(permanent.card.owner)
                } else {
                    gone
                }
            },
        }
    }

    /// A proposed move is carried out unless a replacement left nothing of
    /// it.
    pub open spec fn commit_move(self, proposed: PendingBattlefieldExitMove) -> GameView {
        if proposed.replaced_with_nothing {
            self
        } else {
            self.commit_exit_to(proposed.object, proposed.destination)
        }
    }

    pub open spec fn commit_moves(self, moves: Seq<PendingBattlefieldExitMove>, k: int) -> GameView
        decreases k,
    {
        if k <= 0 {
            self
        } else {
            self.commit_moves(moves, k - 1).commit_move(moves[k - 1])
        }
    }

    /// The move proposed for a permanent that would die: to its owner's
    /// graveyard, or to exile when it would be exiled instead.
    pub open spec fn proposal(self) -> spec_fn(GameObjectId) -> Option<PendingBattlefieldExitMove> {
        |id: GameObjectId|
            match permanent_with(self.battlefield, id) {
                Some(permanent) => Some(
                    PendingBattlefieldExitMove {
                        object: id,
                        controller: permanent.controller,
                        destination: Self::death_destination(permanent),
                        replaced_with_nothing: false,
                    },
                ),
                None => None,
            }
    }

    /// The ids of a batch, each once and only those on the battlefield, in the
    /// order they were named.
    pub open spec fn present_distinct(self, ids: Seq<GameObjectId>) -> Seq<GameObjectId>
        decreases ids.len(),
    {
        if ids.len() == 0 {
            Seq::empty()
        } else {
            let rest = self.present_distinct(ids.drop_last());
            let id = ids.last();
            if ids.drop_last().contains(id) || position_of(self.battlefield, id) is None {
                rest
            } else {
                rest.push(id)
            }
        }
    }

    /// The members whose controller is (or is not) the active player, in
    /// order.
    pub open spec fn controlled_by_active(self, ids: Seq<GameObjectId>, active: bool) -> Seq<
        GameObjectId,
    >
        decreases ids.len(),
    {
        if ids.len() == 0 {
            Seq::empty()
        } else {
            let rest = self.controlled_by_active(ids.drop_last(), active);
            let id = ids.last();
            if (permanent_with(self.battlefield, id) matches Some(permanent) && (
            permanent.controller == self.active_player) == active) {
                rest.push(id)
            } else {
                rest
            }
        }
    }

    /// CR 616.1: the active player's objects are dealt with first, each
    /// player's in the batch's order.
    pub open spec fn exit_order(self, ids: Seq<GameObjectId>) -> Seq<GameObjectId> {
        let present = self.present_distinct(ids);
        self.controlled_by_active(present, true) + self.controlled_by_active(present, false)
    }

    /// One simultaneous batch of battlefield-to-graveyard moves, proposed
    /// as the batch begins and committed in order.
    pub open spec fn spec_move_to_graveyard(self, ids: Seq<GameObjectId>) -> GameView {
        let moves = self.exit_order(ids).filter_map(self.proposal());
        self.commit_moves(moves, moves.len() as int)
    }

    /// The destruction pass: each named permanent once; indestructible ones
    /// survive, a regeneration shield replaces the destruction, and the rest
    /// are doomed.
    pub open spec fn destroy_scan(self, ids: Seq<GameObjectId>, can_regenerate: bool, k: int) -> (
        GameView,
        Seq<GameObjectId>,
    )
        decreases k,
    {
        if k <= 0 {
            (self, Seq::empty())
        } else {
            let (game, doomed) = self.destroy_scan(ids, can_regenerate, k - 1);
            let id = ids[k - 1];
            if ids.take(k - 1).contains(id) {
                (game, doomed)
            } else {
                match permanent_with(game.battlefield, id) {
                    None => (game, doomed),
                    Some(permanent) => if game.has_keyword(
                        permanent,
                        KeywordAbility::Indestructible,
                    ) {
                        (game, doomed)
                    } else if can_regenerate && permanent.regeneration_shields > 0 {
                        (game.spec_regenerate(id), doomed)
                    } else {
                        (game, doomed.push(id))
                    },
                }
            }
        }
    }

    pub open spec fn spec_destroy(self, ids: Seq<GameObjectId>, can_regenerate: bool) -> GameView {
        let (game, doomed) = self.destroy_scan(ids, can_regenerate, ids.len() as int);
        game.spec_move_to_graveyard(doomed)
    }

    /// A single permanent leaving for a zone, if it is there.
    pub open spec fn spec_leave(self, id: GameObjectId, destination: ZoneKind, placement: ZonePlacement) -> GameView {
        match position_of(self.battlefield, id) {
            Some(i) => self.leave_battlefield(i, destination, placement),
            None => self,
        }
    }

    pub proof fn lemma_present_distinct_len(self, ids: Seq<GameObjectId>)
        ensures
            self.present_distinct(ids).len() <= ids.len(),
        decreases ids.len(),
    {
        if ids.len() > 0 {
            self.lemma_present_distinct_len(ids.drop_last());
        }
    }

    pub proof fn lemma_controlled_by_active_len(self, ids: Seq<GameObjectId>, active: bool)
        ensures
            self.controlled_by_active(ids, active).len() <= ids.len(),
            self.controlled_by_active(ids, true).len() + self.controlled_by_active(ids, false).len() <= ids.len(),
        decreases ids.len(),
    {
        if ids.len() > 0 {
            self.lemma_controlled_by_active_len(ids.drop_last(), active);
        }
    }

    /// Regeneration leaves the players and the object counter alone.
    pub proof fn lemma_regenerate_keeps_shape(self, id: GameObjectId)
        ensures
            self.spec_regenerate(id).players == self.players,
            self.spec_regenerate(id).turns_started == self.turns_started,
            self.spec_regenerate(id).next_object_id == self.next_object_id,
    {
    }

    pub open spec fn spec_tap(self, id: GameObjectId, for_mana: bool) -> GameView {
        match position_of(self.battlefield, id) {
            Some(i) => if self.battlefield[i].tapped {
                self
            } else {
                GameView {
                    battlefield: self.battlefield.update(
                        i,
                        Permanent { tapped: true, ..self.battlefield[i] },
                    ),
                    triggers: self.triggers.push(TriggerEvent::Tapped { object: id, for_mana }),
                    ..self
                }
            },
            None => self,
        }
    }

    /// CR 506.4: the permanent stops attacking or blocking, anything blocking
    /// it stops blocking it, and its damage assignment is forgotten.
    pub open spec fn spec_remove_from_combat(self, id: GameObjectId) -> GameView {
        match position_of(self.battlefield, id) {
            Some(i) => GameView {
                battlefield: Seq::new(
                    self.battlefield.len(),
                    |j: int|
                        if j == i {
                            out_of_combat(self.battlefield[j])
                        } else if self.battlefield[j].blocking == Some(id) {
                            Permanent { blocking: None, ..self.battlefield[j] }
                        } else {
                            self.battlefield[j]
                        },
                ),
                combat_damage_assignments: self.combat_damage_assignments.filter(not_from(id)),
                ..self
            },
            None => self,
        }
    }

    /// CR 701.15: one shield is spent; the permanent loses its damage, leaves
    /// combat and becomes tapped.
    pub open spec fn spec_regenerate(self, id: GameObjectId) -> GameView {
        match position_of(self.battlefield, id) {
            Some(i) => {
                let permanent = self.battlefield[i];
                let healed = self.with_battlefield(
                    self.battlefield.update(
                        i,
                        Permanent {
                            regeneration_shields: (permanent.regeneration_shields - 1) as u16,
                            damage: 0,
                            deathtouch_damage: false,
                            ..permanent
                        },
                    ),
                );
                healed.spec_remove_from_combat(id).spec_tap(id, false)
            },
            None => self,
        }
    }
}

impl Game {
    /// Spends the next object id on the card's new incarnation.
    pub fn zone_change_card(&mut self, card: CardInstance) -> (moved: CardInstance)
        requires
            old(self).next_object_id < u32::MAX,
        ensures
            (final(self)@, moved) == old(self)@.zone_change(card),
    {
        let moved = CardInstance { id: GameObjectId(self.next_object_id), ..card };
        self.next_object_id = self.next_object_id + 1;
        moved
    }

    /// Puts a card into one of its owner's zones.
    pub fn put_card_in_zone(&mut self, card: CardInstance, zone: ZoneKind, placement: ZonePlacement)
        requires
            old(self).wf(),
        ensures
            final(self)@ == old(self)@.put_in_zone(card, zone, placement),
            final(self).wf(),
    {
        let index = card.owner.index();
        let ghost state = old(self)@.players[index as int];
        match zone {
            ZoneKind::Exile => self.players[index].exile.push(card),
            ZoneKind::Hand => self.players[index].hand.push(card),
            ZoneKind::Library => match placement {
                ZonePlacement::Top => self.players[index].library.push(card),
                ZonePlacement::Bottom => self.players[index].library.insert(0, card),
            },
            _ => self.players[index].graveyard.push(card),
        }
        proof {
            if zone == ZoneKind::Library && placement == ZonePlacement::Bottom {
                assert(self.players@[index as int].library@ =~= seq![card] + state.library);
            }
            assert(self@.players =~= old(self)@.put_in_zone(card, zone, placement).players);
        }
    }

    /// Records a permanent's departure in the public log.
    pub fn record_battlefield_exit(&mut self, permanent: &Permanent, destination: BattlefieldExit)
        ensures
            final(self)@ == (GameView {
                events: old(self)@.events.push(
                    EventView::PermanentLeftBattlefield {
                        controller: permanent.controller,
                        card: permanent.card.id,
                        definition: permanent.card.definition,
                        destination,
                    },
                ),
                ..old(self)@
            }),
    {
        self.events.push(
            GameEvent::PermanentLeftBattlefield {
                controller: permanent.controller,
                card: permanent.card.id,
                definition: permanent.card.definition,
                destination,
            },
        );
        proof {
            assert(self@.events =~= old(self)@.events.push(
                EventView::PermanentLeftBattlefield {
                    controller: permanent.controller,
                    card: permanent.card.id,
                    definition: permanent.card.definition,
                    destination,
                },
            ));
        }
    }

    /// The permanent at `index` leaves the battlefield for its owner's zone
    /// as a new object.
    pub fn leave_battlefield_at(&mut self, index: usize, destination: ZoneKind, placement: ZonePlacement)
        requires
            old(self).wf(),
            index < old(self).battlefield@.len(),
            old(self).next_object_id < u32::MAX,
        ensures
            final(self)@ == old(self)@.leave_battlefield(index as int, destination, placement),
            final(self).wf(),
    {
        let permanent = self.battlefield.remove(index);
        self.triggers.push(
            TriggerEvent::ZoneChanged {
                object: permanent.card.id,
                from: ZoneKind::Battlefield,
                to: destination,
            },
        );
        let exit = match destination {
            ZoneKind::Exile => BattlefieldExit::Exile,
            ZoneKind::Hand => BattlefieldExit::Hand,
            ZoneKind::Library => BattlefieldExit::LibraryTop,
            _ => BattlefieldExit::Graveyard,
        };
        self.record_battlefield_exit(&permanent, exit);
        let card = self.zone_change_card(permanent.card);
        self.put_card_in_zone(card, destination, placement);
    }

    /// Sends the permanent with this id to a zone, if it is on the
    /// battlefield.
    fn leave_for(&mut self, id: GameObjectId, destination: ZoneKind, placement: ZonePlacement)
        requires
            old(self).wf(),
            old(self).next_object_id < u32::MAX,
        ensures
            final(self)@ == old(self)@.spec_leave(id, destination, placement),
            final(self).wf(),
    {
        if let Some(index) = self.permanent_position(id) {
            self.leave_battlefield_at(index, destination, placement);
        }
    }

    /// Exiles a permanent; a card that leaves becomes a new object in exile.
    pub fn exile_permanent(&mut self, id: GameObjectId)
        requires
            old(self).wf(),
            old(self).next_object_id < u32::MAX,
        ensures
            final(self)@ == old(self)@.spec_leave(id, ZoneKind::Exile, ZonePlacement::Top),
            final(self).wf(),
    {
        self.leave_for(id, ZoneKind::Exile, ZonePlacement::Top);
    }

    /// Exiles a permanent and reports the object it became in exile.
    pub fn exile_permanent_returning_card(&mut self, id: GameObjectId) -> (exiled: Option<GameObjectId>)
        requires
            old(self).wf(),
            old(self).next_object_id < u32::MAX,
        ensures
            final(self)@ == old(self)@.spec_leave(id, ZoneKind::Exile, ZonePlacement::Top),
            final(self).wf(),
            exiled == match position_of(old(self)@.battlefield, id) {
                Some(_) => Some(GameObjectId(old(self).next_object_id)),
                None => None,
            },
    {
        match self.permanent_position(id) {
            Some(index) => {
                let exiled = GameObjectId(self.next_object_id);
                self.leave_battlefield_at(index, ZoneKind::Exile, ZonePlacement::Top);
                Some(exiled)
            },
            None => None,
        }
    }

    /// Returns a permanent to its owner's hand.
    pub fn return_permanent_to_hand(&mut self, id: GameObjectId)
        requires
            old(self).wf(),
            old(self).next_object_id < u32::MAX,
        ensures
            final(self)@ == old(self)@.spec_leave(id, ZoneKind::Hand, ZonePlacement::Top),
            final(self).wf(),
    {
        self.leave_for(id, ZoneKind::Hand, ZonePlacement::Top);
    }

    /// Puts a permanent on top of (or under) its owner's library.
    pub fn return_permanent_to_library(&mut self, id: GameObjectId, placement: ZonePlacement)
        requires
            old(self).wf(),
            old(self).next_object_id < u32::MAX,
        ensures
            final(self)@ == old(self)@.spec_leave(id, ZoneKind::Library, placement),
            final(self).wf(),
    {
        self.leave_for(id, ZoneKind::Library, placement);
    }

    /// Spends a regeneration shield: the permanent loses its damage, leaves
    /// combat and becomes tapped.
    pub fn regenerate_permanent(&mut self, id: GameObjectId)
        requires
            permanent_with(old(self)@.battlefield, id) matches Some(permanent) ==> permanent.regeneration_shields > 0,
        ensures
            final(self)@ == old(self)@.spec_regenerate(id),
    {
        let index = match self.permanent_position(id) {
            Some(index) => index,
            None => return,
        };
        let mut permanent = self.battlefield[index];
        permanent.regeneration_shields = permanent.regeneration_shields - 1;
        permanent.damage = 0;
        permanent.deathtouch_damage = false;
        proof {
            lemma_update_keeps_positions(self.battlefield@, index as int, permanent);
        }
        self.battlefield.set(index, permanent);
        self.remove_permanent_from_combat(id);
        let _ = self.tap_permanent(id);
    }

    /// Undying returns the card on top of its owner's graveyard as a new
    /// object under its owner's control, with a +1/+1 counter.
    pub fn return_top_graveyard_card_with_undying(&mut self, owner: PlayerId)
        requires
            old(self).wf(),
            old(self).next_object_id < u32::MAX,
        ensures
            final(self)@ == old(self)@.spec_undying_return(owner),
            final(self).wf(),
    {
        let index = owner.index();
        let card = match self.players[index].graveyard.pop() {
            Some(card) => card,
            None => return,
        };
        proof {
            assert(self@.players =~= old(self)@.players.update(
                index as int,
                PlayerView { graveyard: old(self)@.players[index as int].graveyard.drop_last(), ..old(self)@.players[index as int] },
            ));
        }
        let card = self.zone_change_card(card);
        let turn = self.turns_started[index];
        let mut permanent = Permanent::entering(card, owner, turn);
        permanent.plus_one_counters = 1;
        self.battlefield.push(permanent);
    }

    /// One member of a batch leaves for its destination: a creature put into
    /// a graveyard is counted as having died, and undying brings it back.
    pub fn commit_battlefield_exit_to(&mut self, id: GameObjectId, destination: ZoneKind)
        requires
            old(self).wf(),
            exit_destination(destination),
            old(self).next_object_id < u32::MAX - 1,
        ensures
            final(self)@ == old(self)@.commit_exit_to(id, destination),
            final(self).wf(),
            old(self).next_object_id <= final(self).next_object_id <= old(self).next_object_id + 2,
    {
        let index = match self.permanent_position(id) {
            Some(index) => index,
            None => return,
        };
        let permanent = self.battlefield[index];
        let died = destination == ZoneKind::Graveyard && self.is_creature_permanent(&permanent);
        let undying = destination == ZoneKind::Graveyard && self.has_undying(&permanent)
            && permanent.plus_one_counters == 0;
        if died {
            self.creature_died_this_turn = true;
            self.creatures_died_this_turn = self.creatures_died_this_turn.saturating_add(1);
        }
        self.leave_battlefield_at(index, destination, ZonePlacement::Top);
        if undying {
            self.return_top_graveyard_card_with_undying(permanent.card.owner);
        }
    }

    /// Commits a simultaneous batch of moves off the battlefield, in order;
    /// a move a replacement left nothing of is skipped.
    pub fn commit_battlefield_exit_batch(&mut self, batch: PendingBattlefieldExitBatch)
        requires
            old(self).wf(),
            forall|k: int| 0 <= k < batch.moves@.len() ==> exit_destination(#[trigger] batch.moves@[k].destination),
            old(self).next_object_id + 2 * batch.moves@.len() < u32::MAX,
        ensures
            final(self)@ == old(self)@.commit_moves(batch.moves@, batch.moves@.len() as int),
            final(self).wf(),
            old(self).next_object_id <= final(self).next_object_id <= old(self).next_object_id + 2
                * batch.moves@.len(),
    {
        let ghost start = self@;
        let mut k: usize = 0;
        while k < batch.moves.len()
            invariant
                k <= batch.moves@.len(),
                self.wf(),
                self@ == start.commit_moves(batch.moves@, k as int),
                start.next_object_id <= self.next_object_id <= start.next_object_id + 2 * k,
                start.next_object_id + 2 * batch.moves@.len() < u32::MAX,
                forall|j: int| 0 <= j < batch.moves@.len() ==> exit_destination(#[trigger] batch.moves@[j].destination),
            decreases batch.moves@.len() - k,
        {
            let proposed = batch.moves[k];
            if !proposed.replaced_with_nothing {
                self.commit_battlefield_exit_to(proposed.object, proposed.destination);
            }
            k = k + 1;
        }
    }

    fn proposals(&self, order: &Vec<GameObjectId>) -> (moves: Vec<PendingBattlefieldExitMove>)
        ensures
            moves@ == order@.filter_map(self@.proposal()),
    {
        let mut moves: Vec<PendingBattlefieldExitMove> = Vec::new();
        let mut i: usize = 0;
        while i < order.len()
            invariant
                i <= order@.len(),
                moves@ == order@.take(i as int).filter_map(self@.proposal()),
            decreases order@.len() - i,
        {
            proof {
                order@.lemma_filter_map_take_succ(self@.proposal(), i as int);
            }
            let id = order[i];
            if let Some(index) = self.permanent_position(id) {
                proof {
                    lemma_position_is_first(self@.battlefield, id);
                }
                let permanent = self.battlefield[index];
                moves.push(
                    PendingBattlefieldExitMove {
                        object: id,
                        controller: permanent.controller,
                        destination: if permanent.exile_instead_of_dying {
                            ZoneKind::Exile
                        } else {
                            ZoneKind::Graveyard
                        },
                        replaced_with_nothing: false,
                    },
                );
            }
            i = i + 1;
        }
        proof {
            assert(order@.take(i as int) =~= order@);
        }
        moves
    }

    fn present_distinct_ids(&self, ids: &Vec<GameObjectId>) -> (present: Vec<GameObjectId>)
        ensures
            present@ == self@.present_distinct(ids@),
    {
        let mut present: Vec<GameObjectId> = Vec::new();
        let mut i: usize = 0;
        while i < ids.len()
            invariant
                i <= ids@.len(),
                present@ == self@.present_distinct(ids@.take(i as int)),
            decreases ids@.len() - i,
        {
            proof {
                assert(ids@.take(i + 1).drop_last() =~= ids@.take(i as int));
            }
            let id = ids[i];
            let mut seen = false;
            let mut j: usize = 0;
            while j < i
                invariant
                    j <= i < ids@.len(),
                    seen == exists|k: int| 0 <= k < j && ids@[k] == id,
                    id == ids@[i as int],
                decreases i - j,
            {
                if ids[j] == id {
                    seen = true;
                }
                j = j + 1;
            }
            proof {
                if seen {
                    let k = choose|k: int| 0 <= k < i && ids@[k] == id;
                    assert(ids@.take(i as int)[k] == id);
                } else {
                    assert forall|k: int| 0 <= k < ids@.take(i as int).len() implies ids@.take(i as int)[k] != id by {
                        assert(ids@.take(i as int)[k] == ids@[k]);
                    }
                }
            }
            if !seen && self.permanent_position(id).is_some() {
                present.push(id);
            }
            i = i + 1;
        }
        proof {
            assert(ids@.take(i as int) =~= ids@);
        }
        present
    }

    fn partition_by_active(&self, ids: &Vec<GameObjectId>, active: bool) -> (part: Vec<GameObjectId>)
        ensures
            part@ == self@.controlled_by_active(ids@, active),
    {
        let mut part: Vec<GameObjectId> = Vec::new();
        let mut i: usize = 0;
        while i < ids.len()
            invariant
                i <= ids@.len(),
                part@ == self@.controlled_by_active(ids@.take(i as int), active),
            decreases ids@.len() - i,
        {
            proof {
                assert(ids@.take(i + 1).drop_last() =~= ids@.take(i as int));
            }
            let id = ids[i];
            if let Some(index) = self.permanent_position(id) {
                if (self.battlefield[index].controller == self.active_player) == active {
                    part.push(id);
                }
            }
            i = i + 1;
        }
        proof {
            assert(ids@.take(i as int) =~= ids@);
        }
        part
    }

    /// Proposes one simultaneous batch of battlefield-to-graveyard moves and
    /// commits it, the active player's permanents first.
    pub fn move_permanents_to_graveyard(&mut self, ids: &Vec<GameObjectId>)
        requires
            old(self).wf(),
            old(self).next_object_id + 2 * ids@.len() < u32::MAX,
        ensures
            final(self)@ == old(self)@.spec_move_to_graveyard(ids@),
            final(self).wf(),
            old(self).next_object_id <= final(self).next_object_id <= old(self).next_object_id + 2 * ids@.len(),
    {
        let present = self.present_distinct_ids(ids);
        let mut order = self.partition_by_active(&present, true);
        let mut rest = self.partition_by_active(&present, false);
        order.append(&mut rest);
        let moves = self.proposals(&order);
        proof {
            self@.lemma_present_distinct_len(ids@);
            self@.lemma_controlled_by_active_len(present@, true);
            self@.lemma_controlled_by_active_len(present@, false);
            lemma_filter_map_len(order@, self@.proposal());
        }
        proof {
            assert forall|k: int| 0 <= k < moves@.len() implies exit_destination(#[trigger] moves@[k].destination) by {
                assert(moves@.contains(moves@[k]));
                order@.lemma_filter_map_contains(self@.proposal(), moves@[k]);
            }
        }
        self.commit_battlefield_exit_batch(PendingBattlefieldExitBatch { moves });
    }

    /// Destroys each named permanent once. Indestructible permanents survive
    /// and a regeneration shield replaces the destruction when regeneration
    /// is allowed; the rest leave together as one batch.
    pub fn destroy_permanents(&mut self, ids: &Vec<GameObjectId>, can_regenerate: bool)
        requires
            old(self).wf(),
            old(self).next_object_id + 2 * ids@.len() < u32::MAX,
        ensures
            final(self)@ == old(self)@.spec_destroy(ids@, can_regenerate),
            final(self).wf(),
    {
        let ghost start = self@;
        let mut doomed: Vec<GameObjectId> = Vec::new();
        let mut i: usize = 0;
        while i < ids.len()
            invariant
                i <= ids@.len(),
                self.wf(),
                self.next_object_id == start.next_object_id,
                (self@, doomed@) == start.destroy_scan(ids@, can_regenerate, i as int),
                doomed@.len() <= i,
            decreases ids@.len() - i,
        {
            let id = ids[i];
            let mut seen = false;
            let mut j: usize = 0;
            while j < i
                invariant
                    j <= i < ids@.len(),
                    seen == exists|k: int| 0 <= k < j && ids@[k] == id,
                    id == ids@[i as int],
                decreases i - j,
            {
                if ids[j] == id {
                    seen = true;
                }
                j = j + 1;
            }
            proof {
                if seen {
                    let k = choose|k: int| 0 <= k < i && ids@[k] == id;
                    assert(ids@.take(i as int)[k] == id);
                } else {
                    assert forall|k: int| 0 <= k < ids@.take(i as int).len() implies ids@.take(i as int)[k] != id by {
                        assert(ids@.take(i as int)[k] == ids@[k]);
                    }
                }
            }
            if !seen {
                if let Some(index) = self.permanent_position(id) {
                    if !self.has_indestructible(&self.battlefield[index]) {
                        if can_regenerate && self.battlefield[index].regeneration_shields > 0 {
                            self.regenerate_permanent(id);
                            proof {
                                self@.lemma_regenerate_keeps_shape(id);
                            }
                        } else {
                            doomed.push(id);
                        }
                    }
                }
            }
            i = i + 1;
        }
        self.move_permanents_to_graveyard(&doomed);
    }

    pub fn destroy_permanent(&mut self, id: GameObjectId)
        requires
            old(self).wf(),
            old(self).next_object_id + 2 < u32::MAX,
        ensures
            final(self)@ == old(self)@.spec_destroy(seq![id], true),
            final(self).wf(),
    {
        let mut ids = Vec::new();
        ids.push(id);
        proof {
            assert(ids@ =~= seq![id]);
        }
        self.destroy_permanents(&ids, true);
    }

    pub fn destroy_permanent_without_regeneration(&mut self, id: GameObjectId)
        requires
            old(self).wf(),
            old(self).next_object_id + 2 < u32::MAX,
        ensures
            final(self)@ == old(self)@.spec_destroy(seq![id], false),
            final(self).wf(),
    {
        let mut ids = Vec::new();
        ids.push(id);
        proof {
            assert(ids@ =~= seq![id]);
        }
        self.destroy_permanents(&ids, false);
    }

    pub fn sacrifice_permanent(&mut self, id: GameObjectId)
        requires
            old(self).wf(),
            old(self).next_object_id + 2 < u32::MAX,
        ensures
            final(self)@ == old(self)@.spec_move_to_graveyard(seq![id]),
            final(self).wf(),
    {
        let mut ids = Vec::new();
        ids.push(id);
        proof {
            assert(ids@ =~= seq![id]);
        }
        self.move_permanents_to_graveyard(&ids);
    }

    /// Commits the untapped-to-tapped transition in one place, publishing the
    /// tap. A permanent already tapped is left alone; either way its card is
    /// reported.
    pub fn tap_permanent_with_purpose(&mut self, id: GameObjectId, for_mana: bool) -> (card: Option<
        CardInstance,
    >)
        ensures
            final(self)@ == old(self)@.spec_tap(id, for_mana),
            card == match permanent_with(old(self)@.battlefield, id) {
                Some(permanent) => Some(permanent.card),
                None => None,
            },
    {
        let index = match self.permanent_position(id) {
            Some(index) => index,
            None => return None,
        };
        let card = self.battlefield[index].card;
        if !self.battlefield[index].tapped {
            self.battlefield[index].tapped = true;
            self.triggers.push(TriggerEvent::Tapped { object: id, for_mana });
        }
        Some(card)
    }

    pub fn tap_permanent(&mut self, id: GameObjectId) -> (card: Option<CardInstance>)
        ensures
            final(self)@ == old(self)@.spec_tap(id, false),
            card == match permanent_with(old(self)@.battlefield, id) {
                Some(permanent) => Some(permanent.card),
                None => None,
            },
    {
        self.tap_permanent_with_purpose(id, false)
    }

    pub fn tap_permanent_for_mana(&mut self, id: GameObjectId) -> (card: Option<CardInstance>)
        ensures
            final(self)@ == old(self)@.spec_tap(id, true),
            card == match permanent_with(old(self)@.battlefield, id) {
                Some(permanent) => Some(permanent.card),
                None => None,
            },
    {
        self.tap_permanent_with_purpose(id, true)
    }

    /// Arms one regeneration shield (CR 701.15) on the permanent, if it is
    /// there; the count stops at its largest value.
    pub fn add_regeneration_shield(&mut self, id: GameObjectId)
        ensures
            final(self)@ == match position_of(old(self)@.battlefield, id) {
                Some(i) => old(self)@.with_battlefield(
                    old(self)@.battlefield.update(
                        i,
                        Permanent {
                            regeneration_shields: saturating_add_u16(
                                old(self)@.battlefield[i].regeneration_shields,
                                1,
                            ),
                            ..old(self)@.battlefield[i]
                        },
                    ),
                ),
                None => old(self)@,
            },
    {
        if let Some(index) = self.permanent_position(id) {
            let shields = self.battlefield[index].regeneration_shields.saturating_add(1);
            self.battlefield[index].regeneration_shields = shields;
        }
    }

    pub(crate) fn forget_assignments_of(&mut self, id: GameObjectId)
        ensures
            final(self)@ == (GameView {
                combat_damage_assignments: old(self)@.combat_damage_assignments.filter(not_from(id)),
                ..old(self)@
            }),
    {
        let mut kept: Vec<AssignedCombatDamage> = Vec::new();
        let mut i: usize = 0;
        while i < self.combat_damage_assignments.len()
            invariant
                i <= self.combat_damage_assignments@.len(),
                self.combat_damage_assignments@ == old(self).combat_damage_assignments@,
                kept@ == self.combat_damage_assignments@.take(i as int).filter(not_from(id)),
            decreases self.combat_damage_assignments@.len() - i,
        {
            proof {
                assert(self.combat_damage_assignments@.take(i + 1)
                    =~= self.combat_damage_assignments@.take(i as int).push(
                    self.combat_damage_assignments@[i as int],
                ));
                self.combat_damage_assignments@.take(i as int).lemma_filter_push(
                    self.combat_damage_assignments@[i as int],
                    not_from(id),
                );
            }
            let assigned = self.combat_damage_assignments[i];
            if assigned.source != id {
                kept.push(assigned);
            }
            i = i + 1;
        }
        proof {
            assert(self.combat_damage_assignments@.take(i as int)
                =~= self.combat_damage_assignments@);
        }
        self.combat_damage_assignments = kept;
    }

    /// CR 506.4: the permanent stops attacking or blocking, and nothing is
    /// blocking it any more. The blockers themselves stay blocking creatures;
    /// only the relationship goes.
    pub fn remove_permanent_from_combat(&mut self, id: GameObjectId)
        ensures
            final(self)@ == old(self)@.spec_remove_from_combat(id),
    {
        let index = match self.permanent_position(id) {
            Some(index) => index,
            None => return,
        };
        let ghost start = self@;
        let mut i: usize = 0;
        while i < self.battlefield.len()
            invariant
                i <= self.battlefield@.len(),
                self.battlefield@.len() == start.battlefield.len(),
                index < start.battlefield.len(),
                self@ == start.with_battlefield(self@.battlefield),
                forall|j: int|
                    i <= j < start.battlefield.len() ==> self.battlefield@[j]
                        == start.battlefield[j],
                forall|j: int|
                    0 <= j < i ==> self.battlefield@[j] == if j == index {
                        out_of_combat(start.battlefield[j])
                    } else if start.battlefield[j].blocking == Some(id) {
                        Permanent { blocking: None, ..start.battlefield[j] }
                    } else {
                        start.battlefield[j]
                    },
            decreases self.battlefield@.len() - i,
        {
            if i == index {
                let mut permanent = self.battlefield[i];
                permanent.attacking = false;
                permanent.attacking_band = None;
                permanent.blocked = false;
                permanent.blocking = None;
                self.battlefield.set(i, permanent);
            } else if self.battlefield[i].is_blocking(id) {
                self.battlefield[i].blocking = None;
            }
            i = i + 1;
        }
        let ghost cleared = self@;
        self.forget_assignments_of(id);
        proof {
            assert(cleared.battlefield =~= start.spec_remove_from_combat(id).battlefield);
        }
    }
}

} // verus!
