//! Companions: eligibility is checked before opening hands, one revealed
//! designation grants a once-per-game special action that puts the card
//! into its owner's hand for {3} (CR 103.2b, 702.139).
use vstd::prelude::*;

use crate::card::{card_definition, catalog, CardTypeSet, CompanionRule};
use crate::characteristics::{card_with, find_card};
use crate::ids::{CardDefinitionId, GameObjectId, PlayerId};
use crate::state::{
    actions_view, card_position, take_card, Action, ActionView, CardInstance, CompanionState,
    DecisionContinuation, DecisionView, EventView, Game, GameEvent, GameView, PendingDecision,
    PlayerView, Pregame,
};

verus! {

/// What taking a companion costs: {3}, the same for every card with the
/// keyword.
pub const COMPANION_COST: u16 = 3u16;

/// The most cards an opening hand holds.
pub const OPENING_HAND_SIZE: usize = 7usize;

/// Whether a card of these types is a permanent card.
pub open spec fn is_permanent_card(types: CardTypeSet) -> bool {
    types.creature || types.artifact || types.enchantment || types.land || types.planeswalker
}

/// Whether one card of the starting deck meets a companion condition.
pub open spec fn meets_companion_rule(rule: CompanionRule, card: CardDefinitionId) -> bool {
    match catalog(card) {
        Some(definition) => match rule {
            CompanionRule::PermanentManaValueAtMost(limit) => is_permanent_card(definition.types)
                ==> definition.mana_value <= limit,
        },
        None => false,
    }
}

/// Whether a starting deck meets the companion condition this card prints.
pub open spec fn companion_requirement_met(companion: CardDefinitionId, deck: Seq<CardInstance>) -> bool {
    match catalog(companion) {
        Some(definition) => match definition.companion {
            Some(rule) => forall|i: int| 0 <= i < deck.len() ==> meets_companion_rule(rule, #[trigger] deck[i].definition),
            None => false,
        },
        None => false,
    }
}

/// The starting deck a companion is checked against: the library and the
/// command zone.
pub open spec fn starting_deck(state: PlayerView) -> Seq<CardInstance> {
    state.library + state.command
}

pub open spec fn eligible_for(deck: Seq<CardInstance>) -> spec_fn(CardInstance) -> bool {
    |card: CardInstance| companion_requirement_met(card.definition, deck)
}

pub open spec fn card_id() -> spec_fn(CardInstance) -> GameObjectId {
    |card: CardInstance| card.id
}

/// The outside-game copy of the designated companion offers taking it.
pub open spec fn companion_offer(designated: GameObjectId) -> spec_fn(CardInstance) -> Option<ActionView> {
    |card: CardInstance|
        if card.id == designated {
            Some(ActionView::TakeCompanion { card: card.id })
        } else {
            None
        }
}

fn meets_companion_rule_exec(rule: CompanionRule, card: CardDefinitionId) -> (meets: bool)
    ensures
        meets == meets_companion_rule(rule, card),
{
    match card_definition(card) {
        Some(definition) => match rule {
            CompanionRule::PermanentManaValueAtMost(limit) => {
                let types = definition.types;
                let permanent = types.creature || types.artifact || types.enchantment || types.land
                    || types.planeswalker;
                !permanent || definition.mana_value <= limit
            },
        },
        None => false,
    }
}

fn all_meet(rule: CompanionRule, cards: &Vec<CardInstance>) -> (all: bool)
    ensures
        all == forall|i: int| 0 <= i < cards@.len() ==> meets_companion_rule(rule, #[trigger] cards@[i].definition),
{
    let mut i: usize = 0;
    while i < cards.len()
        invariant
            i <= cards@.len(),
            forall|j: int| 0 <= j < i ==> meets_companion_rule(rule, #[trigger] cards@[j].definition),
        decreases cards@.len() - i,
    {
        if !meets_companion_rule_exec(rule, cards[i].definition) {
            return false;
        }
        i = i + 1;
    }
    true
}

impl GameView {
    /// The outside-game cards whose companion condition the player's
    /// starting deck meets.
    pub open spec fn spec_eligible_companions(self, player: PlayerId) -> Seq<CardInstance> {
        let state = self.player(player);
        state.outside_game.filter(eligible_for(starting_deck(state)))
    }

    /// "As a sorcery": in the player's own main phase with an empty stack,
    /// once per game, when they can pay {3}.
    pub open spec fn spec_companion_actions(self, player: PlayerId) -> Seq<ActionView> {
        let state = self.player(player);
        match state.companion {
            Some(companion) => if !companion.used && player == self.active_player && self.step.spec_is_main()
                && self.stack.len() == 0 && self.available_mana(player) >= COMPANION_COST {
                state.outside_game.filter_map(companion_offer(companion.card))
            } else {
                Seq::empty()
            },
            None => Seq::empty(),
        }
    }

    /// The designated companion, still unused, comes from outside the game
    /// into its owner's hand as a new object: {3} is paid and the special
    /// action is spent. Anything else is refused without change.
    pub open spec fn spec_take_companion(self, player: PlayerId, card: GameObjectId) -> GameView {
        let state = self.player(player);
        match (card_position(state.outside_game, card), state.companion) {
            (Some(i), Some(chosen)) => if !chosen.used && chosen.card == card {
                let paid = self.spec_pay_generic(player, COMPANION_COST as int);
                let removed = paid.with_player(
                    player,
                    PlayerView { outside_game: state.outside_game.remove(i), ..state },
                );
                let (spent, moved) = removed.zone_change(state.outside_game[i]);
                let owner_state = spent.player(moved.owner);
                let arrived = spent.with_player(
                    moved.owner,
                    PlayerView { hand: owner_state.hand.push(moved), ..owner_state },
                );
                let final_state = arrived.player(player);
                arrived.with_player(
                    player,
                    PlayerView { companion: Some(CompanionState { used: true, ..chosen }), ..final_state },
                )
            } else {
                self
            },
            _ => self,
        }
    }

    /// The chosen card, if any, is designated and revealed.
    pub open spec fn designated(self, player: PlayerId, card: Option<GameObjectId>) -> GameView {
        let state = self.player(player);
        match card {
            Some(id) => match card_with(state.outside_game, id) {
                Some(found) => GameView {
                    players: self.players.update(
                        player.spec_index(),
                        PlayerView {
                            companion: Some(CompanionState { card: id, definition: found.definition, used: false }),
                            ..state
                        },
                    ),
                    events: self.events.push(
                        EventView::CardRevealed { player, card: id, definition: found.definition },
                    ),
                    ..self
                },
                None => self,
            },
            None => self,
        }
    }

    /// The top card of the player's library goes to their hand as a new
    /// object.
    pub open spec fn spec_draw_one(self, player: PlayerId) -> GameView {
        let state = self.player(player);
        if state.library.len() == 0 {
            self
        } else {
            let (spent, moved) = self.zone_change(state.library.last());
            spent.with_player(
                player,
                PlayerView { library: state.library.drop_last(), hand: state.hand.push(moved), ..state },
            )
        }
    }

    pub open spec fn spec_draw_cards(self, player: PlayerId, count: int) -> GameView
        decreases count,
    {
        if count <= 0 {
            self
        } else {
            self.spec_draw_cards(player, count - 1).spec_draw_one(player)
        }
    }

    /// How many cards the player's opening hand holds.
    pub open spec fn opening_hand_count(self, player: PlayerId) -> int {
        let available = self.player(player).library.len();
        if available < OPENING_HAND_SIZE {
            available as int
        } else {
            OPENING_HAND_SIZE as int
        }
    }

    /// Both opening hands are drawn, player one's first, and the mulligan
    /// begins with the starting player.
    pub open spec fn spec_deal_opening_hands(self) -> GameView {
        let first = self.spec_draw_cards(PlayerId::One, self.opening_hand_count(PlayerId::One));
        let both = first.spec_draw_cards(PlayerId::Two, first.opening_hand_count(PlayerId::Two));
        GameView { pregame: Some(Pregame::Mulligan(self.starting_player)), priority: self.starting_player, ..both }
    }

    /// The player is asked to reveal a companion among the eligible cards,
    /// or continues without one when there is none.
    pub open spec fn spec_begin_companion_selection(self, player: PlayerId) -> GameView
        decreases (if player == self.starting_player {
            3int
        } else {
            1int
        }),
    {
        let candidates = self.spec_eligible_companions(player);
        if candidates.len() == 0 {
            self.spec_finish_companion_selection(player, None)
        } else {
            GameView {
                pregame: Some(Pregame::Companion(player)),
                priority: player,
                pending_decisions: self.pending_decisions.push(
                    DecisionView {
                        player,
                        minimum: 0,
                        maximum: 1,
                        options: candidates.map_values(card_id()),
                        continuation: DecisionContinuation::ChooseCompanion { player },
                    },
                ),
                ..self
            }
        }
    }

    /// The choice is recorded; the other player chooses next, and after
    /// both the opening hands are drawn.
    pub open spec fn spec_finish_companion_selection(self, player: PlayerId, card: Option<GameObjectId>) -> GameView
        decreases (if player == self.starting_player {
            2int
        } else {
            0int
        }),
    {
        let revealed = self.designated(player, card);
        if player == self.starting_player {
            revealed.spec_begin_companion_selection(player.spec_opponent())
        } else {
            revealed.spec_deal_opening_hands()
        }
    }

    /// Why the companion checkpoint is inconsistent, if it is.
    pub open spec fn companion_checkpoint_error(self) -> Option<Seq<char>> {
        match self.pregame {
            Some(Pregame::Companion(player)) => if self.players[0].hand.len() > 0
                || self.players[1].hand.len() > 0 || self.player(player).companion is Some {
                Some("companion selection must precede opening hands and designation"@)
            } else if self.pending_decisions.len() == 0 {
                Some("missing companion selection decision"@)
            } else {
                let pending = self.pending_decisions[0];
                let expected = self.spec_eligible_companions(player).map_values(card_id());
                if pending.continuation == (DecisionContinuation::ChooseCompanion { player })
                    && pending.options == expected && pending.minimum == 0 && pending.maximum == 1
                    && expected.len() > 0 {
                    None
                } else {
                    Some("companion selection disagrees with starting-deck eligibility"@)
                }
            },
            _ => None,
        }
    }
}

impl Game {
    fn deck_meets(&self, player: PlayerId, companion: CardDefinitionId) -> (meets: bool)
        requires
            self.wf(),
        ensures
            meets == companion_requirement_met(companion, starting_deck(self@.player(player))),
    {
        let rule = match card_definition(companion) {
            Some(definition) => match definition.companion {
                Some(rule) => rule,
                None => return false,
            },
            None => return false,
        };
        let state = &self.players[player.index()];
        let library = all_meet(rule, &state.library);
        let command = all_meet(rule, &state.command);
        proof {
            let deck = starting_deck(self@.player(player));
            assert(deck =~= state.library@ + state.command@);
            if library && command {
                assert forall|i: int| 0 <= i < deck.len() implies meets_companion_rule(rule, #[trigger] deck[i].definition) by {
                    if i < state.library@.len() {
                        assert(deck[i] == state.library@[i]);
                    } else {
                        assert(deck[i] == state.command@[i - state.library@.len()]);
                    }
                }
            } else if !library {
                let j = choose|j: int| 0 <= j < state.library@.len() && !meets_companion_rule(rule, #[trigger] state.library@[j].definition);
                assert(deck[j] == state.library@[j]);
            } else {
                let j = choose|j: int| 0 <= j < state.command@.len() && !meets_companion_rule(rule, #[trigger] state.command@[j].definition);
                assert(deck[state.library@.len() + j] == state.command@[j]);
            }
        }
        library && command
    }

    /// The outside-game cards that could be revealed as the player's
    /// companion.
    pub fn eligible_companions(&self, player: PlayerId) -> (eligible: Vec<CardInstance>)
        requires
            self.wf(),
        ensures
            eligible@ == self@.spec_eligible_companions(player),
    {
        let state = &self.players[player.index()];
        let ghost deck = starting_deck(self@.player(player));
        let mut eligible: Vec<CardInstance> = Vec::new();
        let mut i: usize = 0;
        while i < state.outside_game.len()
            invariant
                self.wf(),
                state@ == self@.player(player),
                deck == starting_deck(state@),
                i <= state.outside_game@.len(),
                eligible@ == state.outside_game@.take(i as int).filter(eligible_for(deck)),
            decreases state.outside_game@.len() - i,
        {
            proof {
                assert(state.outside_game@.take(i + 1) =~= state.outside_game@.take(i as int).push(
                    state.outside_game@[i as int],
                ));
                state.outside_game@.take(i as int).lemma_filter_push(
                    state.outside_game@[i as int],
                    eligible_for(deck),
                );
            }
            let card = state.outside_game[i];
            if self.deck_meets(player, card.definition) {
                eligible.push(card);
            }
            i = i + 1;
        }
        proof {
            assert(state.outside_game@.take(i as int) =~= state.outside_game@);
        }
        eligible
    }

    /// Adds the special action of taking the designated companion.
    pub fn add_companion_actions(&self, player: PlayerId, actions: &mut Vec<Action>)
        requires
            self.wf(),
        ensures
            actions_view(final(actions)@) == actions_view(old(actions)@) + self@.spec_companion_actions(player),
    {
        let ghost start = actions@;
        let state = &self.players[player.index()];
        let companion = match state.companion {
            Some(companion) => companion,
            None => {
                proof {
                    assert(actions_view(actions@) =~= actions_view(start) + self@.spec_companion_actions(player));
                }
                return;
            },
        };
        if companion.used || player != self.active_player || !self.step.is_main() || self.stack.len() > 0
            || self.available_mana(player) < COMPANION_COST as usize {
            proof {
                assert(actions_view(actions@) =~= actions_view(start) + self@.spec_companion_actions(player));
            }
            return;
        }
        let mut i: usize = 0;
        while i < state.outside_game.len()
            invariant
                state@ == self@.player(player),
                i <= state.outside_game@.len(),
                actions_view(actions@) == actions_view(start) + state.outside_game@.take(i as int).filter_map(
                    companion_offer(companion.card),
                ),
            decreases state.outside_game@.len() - i,
        {
            proof {
                state.outside_game@.lemma_filter_map_take_succ(companion_offer(companion.card), i as int);
            }
            let card = state.outside_game[i];
            if card.id == companion.card {
                let ghost before = actions@;
                let action = Action::TakeCompanion { card: card.id };
                actions.push(action);
                proof {
                    assert(actions_view(actions@) =~= actions_view(before).push(action@));
                }
            }
            i = i + 1;
        }
        proof {
            assert(state.outside_game@.take(i as int) =~= state.outside_game@);
        }
    }

    /// Puts the designated companion into its owner's hand for {3}.
    pub fn take_companion(&mut self, player: PlayerId, card: GameObjectId)
        requires
            old(self).wf(),
            old(self).next_object_id < u32::MAX,
        ensures
            final(self)@ == old(self)@.spec_take_companion(player, card),
            final(self).wf(),
    {
        let index = player.index();
        let chosen = match self.players[index].companion {
            Some(chosen) => chosen,
            None => return,
        };
        let present = find_card(&self.players[index].outside_game, card).is_some();
        if !present || chosen.used || chosen.card != card {
            proof {
                if !present {
                    assert(card_position(old(self)@.player(player).outside_game, card) is None);
                }
            }
            return;
        }
        let ghost state = self@.player(player);
        self.pay_generic(player, COMPANION_COST);
        let ghost paid = self@;
        let taken = take_card(&mut self.players[index].outside_game, card);
        let found = match taken {
            Some(found) => found,
            None => return,
        };
        proof {
            assert(self@ =~= paid.with_player(
                player,
                PlayerView {
                    outside_game: state.outside_game.remove(card_position(state.outside_game, card)->0),
                    ..state
                },
            ));
        }
        assert(self.players@.len() == 2);
        let moved = self.zone_change_card(found);
        assert(self@.players.len() == 2);
        assert(self.players@.len() == 2);
        let owner = moved.owner.index();
        let ghost before = self@;
        self.players[owner].hand.push(moved);
        proof {
            let owner_state = before.player(moved.owner);
            assert(self@ =~= before.with_player(
                moved.owner,
                PlayerView { hand: owner_state.hand.push(moved), ..owner_state },
            ));
        }
        let ghost arrived = self@;
        self.players[index].companion = Some(CompanionState { used: true, ..chosen });
        proof {
            assert(self@ =~= arrived.with_player(
                player,
                PlayerView {
                    companion: Some(CompanionState { used: true, ..chosen }),
                    ..arrived.player(player)
                },
            ));
        }
    }
}


pub fn same_ids(a: &Vec<GameObjectId>, b: &Vec<GameObjectId>) -> (same: bool)
    ensures
        same == (a@ == b@),
{
    if a.len() != b.len() {
        return false;
    }
    let mut i: usize = 0;
    while i < a.len()
        invariant
            i <= a@.len(),
            a@.len() == b@.len(),
            forall|j: int| 0 <= j < i ==> a@[j] == b@[j],
        decreases a@.len() - i,
    {
        if a[i] != b[i] {
            return false;
        }
        i = i + 1;
    }
    proof {
        assert(a@ =~= b@);
    }
    true
}

fn card_ids(cards: &Vec<CardInstance>) -> (ids: Vec<GameObjectId>)
    ensures
        ids@ == cards@.map_values(card_id()),
{
    let mut ids: Vec<GameObjectId> = Vec::new();
    let mut i: usize = 0;
    while i < cards.len()
        invariant
            i <= cards@.len(),
            ids@ == cards@.take(i as int).map_values(card_id()),
        decreases cards@.len() - i,
    {
        ids.push(cards[i].id);
        proof {
            assert(cards@.take(i + 1).map_values(card_id()) =~= cards@.take(i as int).map_values(card_id()).push(
                cards@[i as int].id,
            ));
        }
        i = i + 1;
    }
    proof {
        assert(cards@.take(i as int) =~= cards@);
    }
    ids
}

impl Game {
    fn draw_one(&mut self, player: PlayerId)
        requires
            old(self).wf(),
            old(self).next_object_id < u32::MAX,
        ensures
            final(self)@ == old(self)@.spec_draw_one(player),
            final(self).wf(),
            final(self).next_object_id <= old(self).next_object_id + 1,
            final(self).starting_player == old(self).starting_player,
    {
        let index = player.index();
        let count = self.players[index].library.len();
        if count == 0 {
            return;
        }
        let ghost state = old(self)@.player(player);
        let card = self.players[index].library[count - 1];
        let moved = self.zone_change_card(card);
        assert(self.players@.len() == 2);
        self.players[index].library.pop();
        self.players[index].hand.push(moved);
        proof {
            assert(self@.players[index as int].library =~= state.library.drop_last());
            assert(self@.players =~= old(self)@.players.update(
                player.spec_index(),
                PlayerView { library: state.library.drop_last(), hand: state.hand.push(moved), ..state },
            ));
        }
    }

    fn draw_cards(&mut self, player: PlayerId, count: usize)
        requires
            old(self).wf(),
            old(self).next_object_id + count < u32::MAX,
        ensures
            final(self)@ == old(self)@.spec_draw_cards(player, count as int),
            final(self).wf(),
            final(self).next_object_id <= old(self).next_object_id + count,
            final(self).starting_player == old(self).starting_player,
    {
        let ghost start = self@;
        let mut k: usize = 0;
        while k < count
            invariant
                k <= count,
                self.wf(),
                self@ == start.spec_draw_cards(player, k as int),
                self.next_object_id <= start.next_object_id + k,
                start.next_object_id + count < u32::MAX,
                self.starting_player == start.starting_player,
            decreases count - k,
        {
            self.draw_one(player);
            k = k + 1;
        }
    }

    fn opening_hand_count(&self, player: PlayerId) -> (count: usize)
        requires
            self.wf(),
        ensures
            count == self@.opening_hand_count(player),
            count <= OPENING_HAND_SIZE,
    {
        let available = self.players[player.index()].library.len();
        if available < OPENING_HAND_SIZE {
            available
        } else {
            OPENING_HAND_SIZE
        }
    }

    fn deal_opening_hands(&mut self)
        requires
            old(self).wf(),
            old(self).next_object_id + 2 * OPENING_HAND_SIZE < u32::MAX,
        ensures
            final(self)@ == old(self)@.spec_deal_opening_hands(),
            final(self).wf(),
    {
        let first = self.opening_hand_count(PlayerId::One);
        self.draw_cards(PlayerId::One, first);
        let second = self.opening_hand_count(PlayerId::Two);
        self.draw_cards(PlayerId::Two, second);
        self.pregame = Some(Pregame::Mulligan(self.starting_player));
        self.priority = self.starting_player;
    }

    /// Asks the player to reveal a companion among the eligible cards, or
    /// moves on when there is none.
    pub fn begin_companion_selection(&mut self, player: PlayerId)
        requires
            old(self).wf(),
            old(self).next_object_id + 2 * OPENING_HAND_SIZE < u32::MAX,
        ensures
            final(self)@ == old(self)@.spec_begin_companion_selection(player),
            final(self).wf(),
        decreases (if player == old(self).starting_player {
            3int
        } else {
            1int
        }),
    {
        let candidates = self.eligible_companions(player);
        if candidates.len() == 0 {
            self.finish_companion_selection(player, None);
            return;
        }
        let options = card_ids(&candidates);
        let ghost decisions = self@.pending_decisions;
        let decision = PendingDecision {
            player,
            minimum: 0,
            maximum: 1,
            options,
            continuation: DecisionContinuation::ChooseCompanion { player },
        };
        self.pregame = Some(Pregame::Companion(player));
        self.priority = player;
        self.pending_decisions.push(decision);
        proof {
            assert(self@.pending_decisions =~= decisions.push(decision@));
        }
    }

    /// Records the player's companion choice, then asks the other player or,
    /// once both have chosen, draws the opening hands.
    pub fn finish_companion_selection(&mut self, player: PlayerId, card: Option<GameObjectId>)
        requires
            old(self).wf(),
            old(self).next_object_id + 2 * OPENING_HAND_SIZE < u32::MAX,
            card matches Some(id) ==> card_with(old(self)@.player(player).outside_game, id) is Some,
        ensures
            final(self)@ == old(self)@.spec_finish_companion_selection(player, card),
            final(self).wf(),
        decreases (if player == old(self).starting_player {
            2int
        } else {
            0int
        }),
    {
        let index = player.index();
        if let Some(id) = card {
            if let Some(found) = find_card(&self.players[index].outside_game, id) {
                let ghost state = self@.player(player);
                let ghost events = self@.events;
                self.players[index].companion = Some(
                    CompanionState { card: id, definition: found.definition, used: false },
                );
                self.events.push(GameEvent::CardRevealed { player, card: id, definition: found.definition });
                proof {
                    assert(self@.players =~= old(self)@.players.update(
                        player.spec_index(),
                        PlayerView {
                            companion: Some(CompanionState { card: id, definition: found.definition, used: false }),
                            ..state
                        },
                    ));
                    assert(self@.events =~= events.push(
                        EventView::CardRevealed { player, card: id, definition: found.definition },
                    ));
                }
            }
        }
        if player == self.starting_player {
            self.begin_companion_selection(player.opponent());
        } else {
            self.deal_opening_hands();
        }
    }

    /// Checks that a game stopped at companion selection is consistent:
    /// no opening hand or designation yet, and the pending decision offers
    /// exactly the eligible cards.
    pub fn validate_companion_checkpoint(&self) -> (result: Result<(), String>)
        requires
            self.wf(),
        ensures
            match result {
                Ok(()) => self@.companion_checkpoint_error() is None,
                Err(message) => self@.companion_checkpoint_error() == Some(message@),
            },
    {
        let player = match self.pregame {
            Some(Pregame::Companion(player)) => player,
            _ => return Ok(()),
        };
        if self.players[0].hand.len() > 0 || self.players[1].hand.len() > 0
            || self.players[player.index()].companion.is_some() {
            return Err("companion selection must precede opening hands and designation".to_owned());
        }
        if self.pending_decisions.len() == 0 {
            return Err("missing companion selection decision".to_owned());
        }
        let pending = &self.pending_decisions[0];
        let expected = card_ids(&self.eligible_companions(player));
        let chooser_matches = match pending.continuation {
            DecisionContinuation::ChooseCompanion { player: chooser } => chooser == player,
            DecisionContinuation::CleanupDiscard { .. } => false,
        };
        if chooser_matches && same_ids(&pending.options, &expected) && pending.minimum == 0 && pending.maximum == 1
            && expected.len() > 0 {
            Ok(())
        } else {
            Err("companion selection disagrees with starting-deck eligibility".to_owned())
        }
    }
}

} // verus!
