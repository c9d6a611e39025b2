//! The game's entry points: the actions a player may take now, and taking
//! one. A game changes only through these actions.
use vstd::prelude::*;

use crate::card::{card_definition, catalog, CardBehavior};
use crate::characteristics::{card_with, find_card};
use crate::ids::{GameObjectId, PlayerId};
use crate::state::{
    actions_view, card_position, take_card, AbilityOrigin, Action, ActionView, CardInstance,
    CombatDamageAssignment, EventView, Game, GameEvent, GameView, Permanent, PlayerState, PlayerView, Pregame, Step,
    Target,
};

verus! {

/// Why an action was refused.
#[derive(Clone, Copy, Debug, PartialEq, Eq, Structural)]
pub enum ActionError {
    /// The game is over.
    GameOver,
    /// Another player is the one to act.
    NotYourDecision,
    /// The action is not among the legal actions.
    IllegalAction,
    /// The game has used up its object ids.
    ObjectIdsExhausted,
}

/// An eligible card offers revealing it as the companion.
pub open spec fn companion_choice() -> spec_fn(CardInstance) -> ActionView {
    |card: CardInstance| ActionView::ChooseCompanion { card: Some(card.id) }
}

/// A land card in hand offers a land play.
pub open spec fn land_play() -> spec_fn(CardInstance) -> Option<ActionView> {
    |card: CardInstance|
        if catalog(card.definition) matches Some(definition) && definition.types.land {
            Some(ActionView::PlayLand { card: card.id })
        } else {
            None
        }
}

impl GameView {
    /// Whether the game has object ids to spare for one more action.
    pub open spec fn ids_available(self) -> bool {
        self.next_object_id + 4 * self.battlefield.len() + self.players[0].hand.len() + self.players[1].hand.len() + 16
            < u32::MAX
    }

    /// The player whose decision the game waits on: before the game, the
    /// player choosing a companion or keeping a hand; then the player
    /// assigning the next pending attacker's damage, the active player
    /// declaring attackers, the defending player declaring blockers, or
    /// otherwise the player with priority.
    pub open spec fn spec_acting_player(self) -> PlayerId {
        if self.pregame is Some {
            match self.pregame->0 {
                Pregame::Companion(player) => player,
                Pregame::Mulligan(player) => player,
            }
        } else if self.awaiting_cleanup_discard() {
            self.pending_decisions[0].player
        } else if self.pending_combat_attackers.len() > 0 {
            self.spec_combat_damage_assigner(self.pending_combat_attackers[0])
        } else if self.step == Step::DeclareAttackers && !self.attackers_declared {
            self.active_player
        } else if self.step == Step::DeclareBlockers && !self.blockers_declared {
            self.active_player.spec_opponent()
        } else {
            self.priority
        }
    }

    /// A land play is a special action of the active player in their main
    /// phase with an empty stack, once per turn.
    pub open spec fn spec_land_actions(self, player: PlayerId) -> Seq<ActionView> {
        if player != self.active_player || !self.step.spec_is_main() || self.stack.len() > 0
            || self.player(player).lands_played_this_turn > 0 {
            Seq::empty()
        } else {
            self.player(player).hand.filter_map(land_play())
        }
    }

    /// Every action the player may take now.
    #[verifier::opaque]
    pub open spec fn spec_legal_actions(self, player: PlayerId) -> Seq<ActionView> {
        if self.winner is Some || player != self.spec_acting_player() {
            Seq::empty()
        } else if self.pregame is Some {
            match self.pregame->0 {
                Pregame::Companion(_) => seq![ActionView::ChooseCompanion { card: None }]
                    + self.spec_eligible_companions(player).map_values(companion_choice()),
                Pregame::Mulligan(_) => seq![ActionView::KeepHand],
            }
        } else if self.awaiting_cleanup_discard() {
            self.spec_cleanup_discard_actions(player)
        } else if self.pending_combat_attackers.len() > 0 {
            self.spec_combat_assignment_actions(self.pending_combat_attackers[0])
        } else if self.step == Step::DeclareAttackers && !self.attackers_declared {
            self.spec_attacker_actions(player, self.behavior_count(self.battlefield, CardBehavior::Moat) > 0)
                + self.spec_band_actions(player) + seq![ActionView::PassPriority]
        } else if self.step == Step::DeclareBlockers && !self.blockers_declared {
            self.spec_blocker_actions(player) + if self.spec_block_requirement_outstanding(
                self.spec_blocker_actions(player),
            ) {
                Seq::empty()
            } else {
                seq![ActionView::PassPriority]
            }
        } else {
            seq![ActionView::PassPriority] + self.spec_land_actions(player) + self.spec_companion_actions(player)
                + self.spec_loyalty_actions(player) + self.spec_spell_actions(player)
        }
    }

    /// A land is played from its owner's hand: it enters the battlefield
    /// under their control as a new object, their land drop is spent, and
    /// the run of passes starts over. A card that is not a land is not
    /// played.
    pub open spec fn spec_play_land(self, player: PlayerId, card: GameObjectId) -> GameView {
        let state = self.player(player);
        match card_position(state.hand, card) {
            None => self,
            Some(i) => if !(catalog(state.hand[i].definition) matches Some(definition) && definition.types.land) {
                self
            } else {
                let (spent, moved) = self.zone_change(state.hand[i]);
                GameView {
                    players: spent.players.update(
                        player.spec_index(),
                        PlayerView {
                            hand: state.hand.remove(i),
                            lands_played_this_turn: if state.lands_played_this_turn < u8::MAX {
                                (state.lands_played_this_turn + 1) as u8
                            } else {
                                state.lands_played_this_turn
                            },
                            ..state
                        },
                    ),
                    battlefield: spent.battlefield.push(
                        Permanent::spec_entering(moved, player, self.turns_started[player.spec_index()]),
                    ),
                    events: spent.events.push(EventView::LandPlayed { player, card: moved.id }),
                    consecutive_passes: 0,
                    ..spent
                }
            },
        }
    }

    /// What taking an action does.
    #[verifier::opaque]
    pub open spec fn spec_apply(self, player: PlayerId, action: ActionView) -> GameView {
        match action {
            ActionView::PassPriority => if self.step == Step::DeclareAttackers && !self.attackers_declared {
                self.spec_finish_declaring_attackers()
            } else if self.step == Step::DeclareBlockers && !self.blockers_declared {
                self.spec_finish_declaring_blockers()
            } else {
                self.spec_pass_priority()
            },
            ActionView::DeclareAttacker { attacker, defender } => self.spec_declare_attacker(attacker, defender),
            ActionView::BandAttackers { first, second } => self.spec_form_band(first, second),
            ActionView::DeclareBlocker { blocker, attacker } => self.spec_declare_blocker(blocker, attacker),
            ActionView::AssignCombatDamage { attacker, assignments } => if self.pending_combat_attackers.len()
                > 0 {
                self.spec_assign_combat_damage(attacker, assignments)
            } else {
                self
            },
            ActionView::ActivateAbility { source, ability, targets, .. } => match ability {
                AbilityOrigin::Printed { ability, .. } => self.spec_activate_loyalty(
                    player,
                    source,
                    ability.0 as int,
                    targets,
                ),
            },
            ActionView::PlayLand { card } => self.spec_play_land(player, card),
            ActionView::TakeCompanion { card } => self.spec_take_companion(player, card),
            ActionView::ChooseCompanion { card } => self.spec_choose_companion(player, card),
            ActionView::KeepHand => self.spec_keep_hand(player),
            ActionView::CastSpell { card, targets, x } => self.spec_cast_spell(player, card, targets, x),
            ActionView::ChooseDecision { options } => self.spec_choose_decision(player, options),
        }
    }

    /// Answering the companion question: the decision is settled and the
    /// choice recorded. A card that is no longer outside the game cannot be
    /// chosen.
    pub open spec fn spec_choose_companion(self, player: PlayerId, card: Option<GameObjectId>) -> GameView {
        if self.pregame == Some(Pregame::Companion(player)) && (card matches Some(id) ==> card_with(
            self.player(player).outside_game,
            id,
        ) is Some) {
            GameView {
                pending_decisions: if self.pending_decisions.len() > 0 {
                    self.pending_decisions.drop_first()
                } else {
                    self.pending_decisions
                },
                pregame: None,
                ..self
            }.spec_finish_companion_selection(player, card)
        } else {
            self
        }
    }

    /// Keeping an opening hand: the other player decides next, and once both
    /// have kept, the game begins with the starting player holding priority.
    pub open spec fn spec_keep_hand(self, player: PlayerId) -> GameView {
        if self.pregame == Some(Pregame::Mulligan(player)) {
            if player == self.starting_player {
                GameView {
                    pregame: Some(Pregame::Mulligan(player.spec_opponent())),
                    priority: player.spec_opponent(),
                    ..self
                }
            } else {
                GameView { pregame: None, priority: self.active_player, consecutive_passes: 0, ..self }
            }
        } else {
            self
        }
    }

    /// Why an action that is not taken is refused.
    pub open spec fn spec_refusal(self, player: PlayerId) -> ActionError {
        if !self.ids_available() {
            ActionError::ObjectIdsExhausted
        } else if self.winner is Some {
            ActionError::GameOver
        } else if player != self.spec_acting_player() {
            ActionError::NotYourDecision
        } else {
            ActionError::IllegalAction
        }
    }

    /// Two passes of priority in a row, each by the player holding it,
    /// when both are legal.
    pub open spec fn spec_pass_priority_pair(self) -> Option<GameView> {
        let first_legal = self.ids_available() && self.spec_legal_actions(self.priority).contains(
            ActionView::PassPriority,
        );
        let middle = self.spec_apply(self.priority, ActionView::PassPriority);
        if !first_legal {
            None
        } else if middle.ids_available() && middle.spec_legal_actions(middle.priority).contains(
            ActionView::PassPriority,
        ) {
            Some(middle.spec_apply(middle.priority, ActionView::PassPriority))
        } else {
            None
        }
    }
}

fn same_targets(a: &Vec<Target>, b: &Vec<Target>) -> (same: bool)
    ensures
        same == (a@ == b@),
{
    if a.len() != b.len() {
        return false;
    }
    let mut i: usize = 0;
    while i < a.len()
        invariant
            i <= a@.len(),
            a@.len() == b@.len(),
            forall|j: int| 0 <= j < i ==> a@[j] == b@[j],
        decreases a@.len() - i,
    {
        if a[i] != b[i] {
            return false;
        }
        i = i + 1;
    }
    proof {
        assert(a@ =~= b@);
    }
    true
}

fn same_assignments(a: &Vec<CombatDamageAssignment>, b: &Vec<CombatDamageAssignment>) -> (same: bool)
    ensures
        same == (a@ == b@),
{
    if a.len() != b.len() {
        return false;
    }
    let mut i: usize = 0;
    while i < a.len()
        invariant
            i <= a@.len(),
            a@.len() == b@.len(),
            forall|j: int| 0 <= j < i ==> a@[j] == b@[j],
        decreases a@.len() - i,
    {
        if a[i] != b[i] {
            return false;
        }
        i = i + 1;
    }
    proof {
        assert(a@ =~= b@);
    }
    true
}

fn same_id_option(a: Option<GameObjectId>, b: Option<GameObjectId>) -> (same: bool)
    ensures
        same == (a == b),
{
    match (a, b) {
        (Some(x), Some(y)) => x == y,
        (None, None) => true,
        _ => false,
    }
}

/// Whether two actions are the same action.
pub fn same_action(a: &Action, b: &Action) -> (same: bool)
    ensures
        same == (a@ == b@),
{
    match (a, b) {
        (Action::PassPriority, Action::PassPriority) => true,
        (Action::KeepHand, Action::KeepHand) => true,
        (Action::ChooseCompanion { card: x }, Action::ChooseCompanion { card: y }) => same_id_option(*x, *y),
        (Action::PlayLand { card: x }, Action::PlayLand { card: y }) => *x == *y,
        (
            Action::ActivateAbility { source: s1, ability: a1, targets: t1, sacrifice: c1, x: x1 },
            Action::ActivateAbility { source: s2, ability: a2, targets: t2, sacrifice: c2, x: x2 },
        ) => *s1 == *s2 && *a1 == *a2 && same_targets(t1, t2) && same_id_option(*c1, *c2) && *x1 == *x2,
        (Action::TakeCompanion { card: x }, Action::TakeCompanion { card: y }) => *x == *y,
        (
            Action::DeclareAttacker { attacker: a1, defender: d1 },
            Action::DeclareAttacker { attacker: a2, defender: d2 },
        ) => *a1 == *a2 && *d1 == *d2,
        (Action::BandAttackers { first: f1, second: s1 }, Action::BandAttackers { first: f2, second: s2 }) =>
            *f1 == *f2 && *s1 == *s2,
        (
            Action::DeclareBlocker { blocker: b1, attacker: a1 },
            Action::DeclareBlocker { blocker: b2, attacker: a2 },
        ) => *b1 == *b2 && *a1 == *a2,
        (
            Action::AssignCombatDamage { attacker: a1, assignments: s1 },
            Action::AssignCombatDamage { attacker: a2, assignments: s2 },
        ) => *a1 == *a2 && same_assignments(s1, s2),
        (
            Action::CastSpell { card: c1, targets: t1, x: x1 },
            Action::CastSpell { card: c2, targets: t2, x: x2 },
        ) => *c1 == *c2 && same_targets(t1, t2) && *x1 == *x2,
        (Action::ChooseDecision { options: o1 }, Action::ChooseDecision { options: o2 }) => crate::companion::same_ids(
            o1,
            o2,
        ),
        _ => false,
    }
}

/// Whether the list holds this action.
pub fn contains_action(actions: &Vec<Action>, action: &Action) -> (found: bool)
    ensures
        found == actions_view(actions@).contains(action@),
{
    let mut i: usize = 0;
    while i < actions.len()
        invariant
            i <= actions@.len(),
            forall|j: int| 0 <= j < i ==> actions@[j]@ != action@,
        decreases actions@.len() - i,
    {
        if same_action(&actions[i], action) {
            proof {
                assert(actions_view(actions@)[i as int] == action@);
            }
            return true;
        }
        i = i + 1;
    }
    proof {
        if actions_view(actions@).contains(action@) {
            let k = choose|k: int| 0 <= k < actions_view(actions@).len() && actions_view(actions@)[k] == action@;
            assert(actions@[k]@ == action@);
        }
    }
    false
}

impl PlayerState {
    /// Takes a card out of the hand to play it as the turn's land, spending
    /// the land drop.
    pub fn take_land_from_hand(&mut self, card: GameObjectId) -> (found: Option<CardInstance>)
        ensures
            match card_position(old(self)@.hand, card) {
                None => found is None && final(self)@ == old(self)@,
                Some(i) => found == Some(old(self)@.hand[i]) && final(self)@ == (PlayerView {
                    hand: old(self)@.hand.remove(i),
                    lands_played_this_turn: if old(self)@.lands_played_this_turn < u8::MAX {
                        (old(self)@.lands_played_this_turn + 1) as u8
                    } else {
                        old(self)@.lands_played_this_turn
                    },
                    ..old(self)@
                }),
            },
    {
        let taken = take_card(&mut self.hand, card);
        if taken.is_some() && self.lands_played_this_turn < 255 {
            self.lands_played_this_turn = self.lands_played_this_turn + 1;
        }
        taken
    }
}

impl Game {
    /// Whose decision the game waits on.
    pub fn acting_player(&self) -> (player: PlayerId)
        ensures
            player == self@.spec_acting_player(),
    {
        if let Some(stage) = self.pregame {
            return match stage {
                Pregame::Companion(player) => player,
                Pregame::Mulligan(player) => player,
            };
        }
        if self.awaiting_cleanup_discard() {
            self.pending_decisions[0].player
        } else if self.pending_combat_attackers.len() > 0 {
            self.combat_damage_assigner(self.pending_combat_attackers[0])
        } else if self.step == Step::DeclareAttackers && !self.attackers_declared {
            self.active_player
        } else if self.step == Step::DeclareBlockers && !self.blockers_declared {
            self.active_player.opponent()
        } else {
            self.priority
        }
    }

    /// Adds the player's land plays to `actions`.
    pub fn add_land_actions(&self, player: PlayerId, actions: &mut Vec<Action>)
        requires
            self.wf(),
        ensures
            actions_view(final(actions)@) == actions_view(old(actions)@) + self@.spec_land_actions(player),
    {
        let ghost start = actions@;
        let index = player.index();
        if player != self.active_player || !self.step.is_main() || self.stack.len() > 0
            || self.players[index].lands_played_this_turn > 0 {
            proof {
                assert(actions_view(actions@) =~= actions_view(start) + self@.spec_land_actions(player));
            }
            return;
        }
        let ghost hand = self@.player(player).hand;
        let mut i: usize = 0;
        while i < self.players[index].hand.len()
            invariant
                self.wf(),
                index == player.spec_index(),
                hand == self@.player(player).hand,
                i <= hand.len(),
                actions_view(actions@) == actions_view(start) + hand.take(i as int).filter_map(land_play()),
            decreases hand.len() - i,
        {
            proof {
                hand.lemma_filter_map_take_succ(land_play(), i as int);
            }
            let card = self.players[index].hand[i];
            let land = match card_definition(card.definition) {
                Some(definition) => definition.types.land,
                None => false,
            };
            if land {
                let ghost before = actions@;
                let action = Action::PlayLand { card: card.id };
                actions.push(action);
                proof {
                    assert(actions_view(actions@) =~= actions_view(before).push(action@));
                }
            }
            i = i + 1;
        }
        proof {
            assert(hand.take(i as int) =~= hand);
        }
    }

    /// Every action the player may take now.
    pub fn legal_actions(&self, player: PlayerId) -> (actions: Vec<Action>)
        requires
            self.wf(),
        ensures
            actions_view(actions@) == self@.spec_legal_actions(player),
    {
        reveal(GameView::spec_legal_actions);
        let mut actions: Vec<Action> = Vec::new();
        if self.winner.is_some() || player != self.acting_player() {
            proof {
                assert(actions_view(actions@) =~= Seq::empty());
            }
            return actions;
        }
        if let Some(stage) = self.pregame {
            match stage {
                Pregame::Companion(_) => {
                    actions.push(Action::ChooseCompanion { card: None });
                    let eligible = self.eligible_companions(player);
                    let mut i: usize = 0;
                    while i < eligible.len()
                        invariant
                            i <= eligible@.len(),
                            actions_view(actions@) == seq![ActionView::ChooseCompanion { card: None }] + eligible@.take(
                                i as int,
                            ).map_values(companion_choice()),
                        decreases eligible@.len() - i,
                    {
                        let ghost before = actions@;
                        let action = Action::ChooseCompanion { card: Some(eligible[i].id) };
                        actions.push(action);
                        proof {
                            assert(actions_view(actions@) =~= actions_view(before).push(action@));
                            assert(eligible@.take(i + 1).map_values(companion_choice()) =~= eligible@.take(
                                i as int,
                            ).map_values(companion_choice()).push(action@));
                        }
                        i = i + 1;
                    }
                    proof {
                        assert(eligible@.take(i as int) =~= eligible@);
                    }
                },
                Pregame::Mulligan(_) => {
                    actions.push(Action::KeepHand);
                    proof {
                        assert(actions_view(actions@) =~= seq![ActionView::KeepHand]);
                    }
                },
            }
            return actions;
        }
        if self.awaiting_cleanup_discard() {
            return self.cleanup_discard_actions(player);
        }
        if self.pending_combat_attackers.len() > 0 {
            return self.combat_assignment_actions(self.pending_combat_attackers[0]);
        }
        if self.step == Step::DeclareAttackers && !self.attackers_declared {
            let moat = self.count_behavior(CardBehavior::Moat) > 0;
            let mut declared = self.attacker_actions(player, moat);
            let mut bands = self.band_actions(player);
            let ghost declared_view = actions_view(declared@);
            let ghost bands_view = actions_view(bands@);
            declared.append(&mut bands);
            declared.push(Action::PassPriority);
            proof {
                assert(actions_view(declared@) =~= declared_view + bands_view + seq![ActionView::PassPriority]);
            }
            return declared;
        }
        if self.step == Step::DeclareBlockers && !self.blockers_declared {
            let mut blocks = self.blocker_actions(player);
            let ghost blocks_view = actions_view(blocks@);
            if self.block_requirement_outstanding(&blocks) {
                proof {
                    assert(blocks_view =~= blocks_view + Seq::<ActionView>::empty());
                }
                return blocks;
            }
            blocks.push(Action::PassPriority);
            proof {
                assert(actions_view(blocks@) =~= blocks_view + seq![ActionView::PassPriority]);
            }
            return blocks;
        }
        actions.push(Action::PassPriority);
        proof {
            assert(actions_view(actions@) =~= seq![ActionView::PassPriority]);
        }
        self.add_land_actions(player, &mut actions);
        self.add_companion_actions(player, &mut actions);
        let mut loyalty = self.loyalty_actions(player);
        let ghost so_far = actions_view(actions@);
        let ghost loyalty_view = actions_view(loyalty@);
        actions.append(&mut loyalty);
        proof {
            assert(actions_view(actions@) =~= so_far + loyalty_view);
        }
        self.add_spell_actions(player, &mut actions);
        actions
    }

    /// Plays a land from the player's hand.
    pub fn play_land(&mut self, player: PlayerId, card: GameObjectId)
        requires
            old(self).wf(),
            old(self).next_object_id < u32::MAX,
        ensures
            final(self)@ == old(self)@.spec_play_land(player, card),
            final(self).wf(),
            final(self).battlefield@.len() <= old(self).battlefield@.len() + 1,
            final(self).next_object_id <= old(self).next_object_id + 1,
    {
        let index = player.index();
        let is_land = match find_card(&self.players[index].hand, card) {
            Some(found) => match card_definition(found.definition) {
                Some(definition) => definition.types.land,
                None => false,
            },
            None => false,
        };
        if !is_land {
            return;
        }
        let found = self.players[index].take_land_from_hand(card);
        let found = match found {
            Some(found) => found,
            None => {
                proof {
                    assert(self@.players =~= old(self)@.players);
                    assert(self@ =~= old(self)@);
                }
                return;
            },
        };
        proof {
            assert(self@.players =~= old(self)@.players.update(index as int, self.players@[index as int]@));
        }
        let moved = self.zone_change_card(found);
        let turn = self.turns_started[index];
        let permanent = Permanent::entering(moved, player, turn);
        let ghost events_before = self@.events;
        self.battlefield.push(permanent);
        self.events.push(GameEvent::LandPlayed { player, card: moved.id });
        self.consecutive_passes = 0;
        proof {
            assert(self@.battlefield =~= old(self)@.battlefield.push(permanent));
            assert(self@.events =~= events_before.push(EventView::LandPlayed { player, card: moved.id }));
        }
    }

    /// Answers the companion question for the player.
    pub fn choose_companion(&mut self, player: PlayerId, card: Option<GameObjectId>)
        requires
            old(self).wf(),
            old(self).next_object_id + 2 * crate::companion::OPENING_HAND_SIZE < u32::MAX,
        ensures
            final(self)@ == old(self)@.spec_choose_companion(player, card),
            final(self).wf(),
    {
        let asked = match self.pregame {
            Some(Pregame::Companion(asked)) => asked == player,
            _ => false,
        };
        if !asked {
            return;
        }
        if let Some(id) = card {
            if find_card(&self.players[player.index()].outside_game, id).is_none() {
                return;
            }
        }
        if self.pending_decisions.len() > 0 {
            let ghost before = self@.pending_decisions;
            self.pending_decisions.remove(0);
            proof {
                assert(self@.pending_decisions =~= before.drop_first());
            }
        }
        self.pregame = None;
        self.finish_companion_selection(player, card);
    }

    /// Keeps the player's opening hand.
    pub fn keep_hand(&mut self, player: PlayerId)
        ensures
            final(self)@ == old(self)@.spec_keep_hand(player),
    {
        let deciding = match self.pregame {
            Some(Pregame::Mulligan(deciding)) => deciding == player,
            _ => false,
        };
        if !deciding {
            return;
        }
        if player == self.starting_player {
            self.pregame = Some(Pregame::Mulligan(player.opponent()));
            self.priority = player.opponent();
        } else {
            self.pregame = None;
            self.priority = self.active_player;
            self.consecutive_passes = 0;
        }
    }

    /// Takes an action for a player. It is taken exactly when it is among
    /// the player's legal actions and the game has object ids to spare;
    /// otherwise nothing changes and the refusal says why.
    pub fn apply(&mut self, player: PlayerId, action: Action) -> (result: Result<(), ActionError>)
        requires
            old(self).wf(),
        ensures
            final(self).wf(),
            match result {
                Ok(()) => {
                    &&& old(self)@.ids_available()
                    &&& old(self)@.spec_legal_actions(player).contains(action@)
                    &&& final(self)@ == old(self)@.spec_apply(player, action@)
                },
                Err(error) => {
                    &&& !(old(self)@.ids_available() && old(self)@.spec_legal_actions(player).contains(
                        action@,
                    ))
                    &&& error == old(self)@.spec_refusal(player)
                    &&& final(self)@ == old(self)@
                },
            },
    {
        let count = self.battlefield.len();
        let first_hand = self.players[0].hand.len();
        let second_hand = self.players[1].hand.len();
        if count >= 1073741824 || first_hand >= 4294967295 || second_hand >= 4294967295 || self.next_object_id as u64 + 4
            * (count as u64) + first_hand as u64 + second_hand as u64 + 16 >= 4294967295u64 {
            proof {
                assert(self@.players[0].hand.len() == first_hand);
                assert(self@.players[1].hand.len() == second_hand);
            }
            return Err(ActionError::ObjectIdsExhausted);
        }
        proof {
            assert(self@.players[0].hand.len() == first_hand);
            assert(self@.players[1].hand.len() == second_hand);
        }
        let legal = self.legal_actions(player);
        if !contains_action(&legal, &action) {
            if self.winner.is_some() {
                return Err(ActionError::GameOver);
            }
            if player != self.acting_player() {
                return Err(ActionError::NotYourDecision);
            }
            return Err(ActionError::IllegalAction);
        }
        self.dispatch(player, action);
        Ok(())
    }

    #[verifier::spinoff_prover]
    #[verifier::rlimit(60)]
    fn dispatch(&mut self, player: PlayerId, action: Action)
        requires
            old(self).wf(),
            old(self)@.ids_available(),
        ensures
            final(self).wf(),
            final(self)@ == old(self)@.spec_apply(player, action@),
    {
        reveal(GameView::spec_apply);
        match action {
            Action::PassPriority => {
                if self.step == Step::DeclareAttackers && !self.attackers_declared {
                    self.finish_declaring_attackers();
                } else if self.step == Step::DeclareBlockers && !self.blockers_declared {
                    self.finish_declaring_blockers();
                } else {
                    self.pass_priority();
                }
            },
            Action::DeclareAttacker { attacker, defender } => self.declare_attacker(attacker, defender),
            Action::BandAttackers { first, second } => self.form_band(first, second),
            Action::DeclareBlocker { blocker, attacker } => self.declare_blocker(blocker, attacker),
            Action::AssignCombatDamage { attacker, assignments } => {
                if self.pending_combat_attackers.len() > 0 {
                    self.assign_combat_damage(attacker, assignments);
                }
            },
            Action::ActivateAbility { source, ability, targets, .. } => match ability {
                AbilityOrigin::Printed { ability, .. } => {
                    self.activate_loyalty_ability(player, source, ability.0 as usize, targets);
                },
            },
            Action::PlayLand { card } => self.play_land(player, card),
            Action::TakeCompanion { card } => self.take_companion(player, card),
            Action::ChooseCompanion { card } => self.choose_companion(player, card),
            Action::KeepHand => self.keep_hand(player),
            Action::CastSpell { card, targets, x } => self.cast_spell(player, card, targets, x),
            Action::ChooseDecision { options } => self.choose_decision(player, &options),
        }
    }
}

/// Both players pass priority in turn, each while holding it.
pub fn pass_priority_pair(game: &mut Game) -> (result: Result<(), ActionError>)
    requires
        old(game).wf(),
    ensures
        final(game).wf(),
        match result {
            Ok(()) => old(game)@.spec_pass_priority_pair() == Some(final(game)@),
            Err(_) => old(game)@.spec_pass_priority_pair() is None,
        },
{
    let first = game.priority;
    match game.apply(first, Action::PassPriority) {
        Ok(()) => {},
        Err(error) => {
            return Err(error);
        },
    }
    let second = game.priority;
    game.apply(second, Action::PassPriority)
}

} // verus!
