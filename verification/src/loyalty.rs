//! Planeswalker loyalty abilities: which may be activated, what they cost,
//! and what they do when they resolve.
use vstd::prelude::*;

use crate::card::{card_definition, catalog, cards, KeywordSet};
use crate::damage_delivery::{amount_of, clamp_amount};
use crate::ids::{AbilityId, CardDefinitionId, CardPartId, GameObjectId, PlayerId};
use crate::state::{
    permanent_with, AbilityOrigin, Action, ActionView, CardInstance, Emblem, EventView, Game,
    GameEvent, GameView, Permanent, PlayerView, StackObject, StackView, Target,
};

verus! {

/// What a loyalty ability does.
#[derive(Clone, Copy, Debug, PartialEq, Eq, Structural)]
pub enum LoyaltyEffect {
    /// Look at the top card of your library; a creature card there is
    /// revealed and put into your hand.
    RevealTopCreature,
    /// Target creature you control fights another target creature.
    Fight,
    /// You get an emblem: creatures you control have double strike,
    /// trample, hexproof, and haste.
    Emblem,
}

/// A loyalty ability: its cost, +N or -N loyalty, and its effect.
#[derive(Clone, Copy, Debug, PartialEq, Eq, Structural)]
pub struct LoyaltyAbility {
    pub adds: bool,
    pub amount: u16,
    pub effect: LoyaltyEffect,
}

/// The loyalty abilities a card prints, in printed order.
pub open spec fn spec_loyalty_abilities(definition: CardDefinitionId) -> Seq<LoyaltyAbility> {
    if definition == cards::DOMRI_RADE {
        seq![
            LoyaltyAbility { adds: true, amount: 1, effect: LoyaltyEffect::RevealTopCreature },
            LoyaltyAbility { adds: false, amount: 2, effect: LoyaltyEffect::Fight },
            LoyaltyAbility { adds: false, amount: 7, effect: LoyaltyEffect::Emblem },
        ]
    } else {
        Seq::empty()
    }
}

/// The keywords of the emblem a loyalty ultimate grants.
pub open spec fn ultimate_emblem_keywords() -> KeywordSet {
    KeywordSet {
        double_strike: true,
        trample: true,
        hexproof: true,
        haste: true,
        ..KeywordSet::spec_none()
    }
}

pub fn loyalty_abilities(definition: CardDefinitionId) -> (abilities: Vec<LoyaltyAbility>)
    ensures
        abilities@ == spec_loyalty_abilities(definition),
        abilities@.len() <= 3,
{
    if definition == cards::DOMRI_RADE {
        let abilities = vec![
            LoyaltyAbility { adds: true, amount: 1, effect: LoyaltyEffect::RevealTopCreature },
            LoyaltyAbility { adds: false, amount: 2, effect: LoyaltyEffect::Fight },
            LoyaltyAbility { adds: false, amount: 7, effect: LoyaltyEffect::Emblem },
        ];
        proof {
            assert(abilities@ =~= spec_loyalty_abilities(definition));
        }
        abilities
    } else {
        let abilities: Vec<LoyaltyAbility> = Vec::new();
        proof {
            assert(abilities@ =~= spec_loyalty_abilities(definition));
        }
        abilities
    }
}

fn ultimate_keywords() -> (keywords: KeywordSet)
    ensures
        keywords == ultimate_emblem_keywords(),
{
    KeywordSet { double_strike: true, trample: true, hexproof: true, haste: true, ..KeywordSet::none() }
}

/// The ability a stack object resolves, when its card prints one there.
pub open spec fn loyalty_ability_of(definition: CardDefinitionId, ability: AbilityId) -> Option<LoyaltyAbility> {
    if (ability.0 as int) < spec_loyalty_abilities(definition).len() {
        Some(spec_loyalty_abilities(definition)[ability.0 as int])
    } else {
        None
    }
}

/// Whether the permanent's loyalty can pay the cost (and, for a gain, hold
/// the new total).
pub open spec fn loyalty_payable(permanent: Permanent, ability: LoyaltyAbility) -> bool {
    if ability.adds {
        permanent.loyalty + ability.amount <= u16::MAX
    } else {
        permanent.loyalty >= ability.amount
    }
}

/// The permanent after paying a loyalty cost, with its once-per-turn
/// activation spent.
pub open spec fn paid_loyalty(permanent: Permanent, ability: LoyaltyAbility) -> Permanent {
    Permanent {
        loyalty: if ability.adds {
            (permanent.loyalty + ability.amount) as u16
        } else {
            (permanent.loyalty - ability.amount) as u16
        },
        loyalty_ability_activated: true,
        ..permanent
    }
}

/// The action activating ability `index` of `source` with these targets.
pub open spec fn activation(source: Permanent, index: int, targets: Seq<Target>) -> ActionView {
    ActionView::ActivateAbility {
        source: source.card.id,
        ability: AbilityOrigin::Printed {
            definition: source.card.definition,
            part: CardPartId::PRIMARY,
            ability: AbilityId(index as u8),
        },
        targets,
        sacrifice: None,
        x: 0,
    }
}

pub open spec fn activation_with(source: Permanent, index: int) -> spec_fn(Seq<Target>) -> ActionView {
    |targets: Seq<Target>| activation(source, index, targets)
}

/// The target lists as mathematical values.
pub open spec fn target_lists(lists: Seq<Vec<Target>>) -> Seq<Seq<Target>> {
    lists.map_values(|targets: Vec<Target>| targets@)
}

impl GameView {
    /// Loyalty abilities are activated at sorcery speed, once per turn per
    /// planeswalker, by its controller.
    pub open spec fn loyalty_timing(self, player: PlayerId, permanent: Permanent) -> bool {
        &&& permanent.controller == player
        &&& self.is_planeswalker(permanent)
        &&& !permanent.loyalty_ability_activated
        &&& self.active_player == player
        &&& self.step.spec_is_main()
        &&& self.stack.len() == 0
    }

    /// A legal first target of a fight: a creature of the activating player
    /// that the source can target.
    pub open spec fn fight_first(self, player: PlayerId, source: GameObjectId, first: Permanent) -> bool {
        self.is_creature(first) && first.controller == player && self.spec_can_be_targeted_by(
            first,
            player,
            source,
        )
    }

    /// A legal second target: another creature the source can target.
    pub open spec fn fight_second(
        self,
        player: PlayerId,
        source: GameObjectId,
        first: Permanent,
        second: Permanent,
    ) -> bool {
        self.is_creature(second) && second.card.id != first.card.id && self.spec_can_be_targeted_by(
            second,
            player,
            source,
        )
    }

    /// Target pairs with this first target, over the first `k` permanents.
    pub open spec fn fight_pairs_with(
        self,
        player: PlayerId,
        source: GameObjectId,
        first: Permanent,
        k: int,
    ) -> Seq<Seq<Target>>
        decreases k,
    {
        if k <= 0 {
            Seq::empty()
        } else {
            let earlier = self.fight_pairs_with(player, source, first, k - 1);
            let second = self.battlefield[k - 1];
            if self.fight_second(player, source, first, second) {
                earlier.push(seq![Target::Permanent(first.card.id), Target::Permanent(second.card.id)])
            } else {
                earlier
            }
        }
    }

    /// Every legal pair of fight targets whose first target is among the
    /// first `k` permanents.
    pub open spec fn fight_pairs(self, player: PlayerId, source: GameObjectId, k: int) -> Seq<Seq<Target>>
        decreases k,
    {
        if k <= 0 {
            Seq::empty()
        } else {
            let earlier = self.fight_pairs(player, source, k - 1);
            let first = self.battlefield[k - 1];
            if self.fight_first(player, source, first) {
                earlier + self.fight_pairs_with(player, source, first, self.battlefield.len() as int)
            } else {
                earlier
            }
        }
    }

    /// The target lists an ability may be activated with.
    pub open spec fn target_choices(self, player: PlayerId, source: Permanent, ability: LoyaltyAbility) -> Seq<
        Seq<Target>,
    > {
        match ability.effect {
            LoyaltyEffect::Fight => self.fight_pairs(player, source.card.id, self.battlefield.len() as int),
            _ => seq![Seq::empty()],
        }
    }

    /// The activations of the permanent's ability `index`.
    pub open spec fn ability_activations(self, player: PlayerId, permanent: Permanent, index: int) -> Seq<
        ActionView,
    > {
        let ability = spec_loyalty_abilities(permanent.card.definition)[index];
        if loyalty_payable(permanent, ability) {
            self.target_choices(player, permanent, ability).map_values(activation_with(permanent, index))
        } else {
            Seq::empty()
        }
    }

    pub open spec fn activations_upto(self, player: PlayerId, permanent: Permanent, k: int) -> Seq<ActionView>
        decreases k,
    {
        if k <= 0 {
            Seq::empty()
        } else {
            self.activations_upto(player, permanent, k - 1) + self.ability_activations(player, permanent, k - 1)
        }
    }

    /// The loyalty activations this permanent offers its controller now.
    pub open spec fn permanent_activations(self, player: PlayerId, permanent: Permanent) -> Seq<ActionView> {
        if self.loyalty_timing(player, permanent) {
            self.activations_upto(
                player,
                permanent,
                spec_loyalty_abilities(permanent.card.definition).len() as int,
            )
        } else {
            Seq::empty()
        }
    }

    pub open spec fn loyalty_actions_upto(self, player: PlayerId, k: int) -> Seq<ActionView>
        decreases k,
    {
        if k <= 0 {
            Seq::empty()
        } else {
            self.loyalty_actions_upto(player, k - 1) + self.permanent_activations(player, self.battlefield[k - 1])
        }
    }

    /// Every loyalty activation open to the player, in battlefield order,
    /// then printed order, then target order.
    pub open spec fn spec_loyalty_actions(self, player: PlayerId) -> Seq<ActionView> {
        self.loyalty_actions_upto(player, self.battlefield.len() as int)
    }

    /// Activating ability `index` of `source`: the cost is paid, the
    /// ability goes on the stack as a new object, the activating player
    /// keeps priority, and state-based actions are checked.
    #[verifier::opaque]
    pub open spec fn spec_activate_loyalty(
        self,
        player: PlayerId,
        source: GameObjectId,
        index: int,
        targets: Seq<Target>,
    ) -> GameView {
        match crate::state::position_of(self.battlefield, source) {
            None => self,
            Some(i) => {
                let abilities = spec_loyalty_abilities(self.battlefield[i].card.definition);
                if 0 <= index < abilities.len() && loyalty_payable(self.battlefield[i], abilities[index]) {
                    self.spec_capture_crime(player, targets).stacked_activation(player, i, index, targets).spec_state_based_actions()
                } else {
                    self
                }
            },
        }
    }

    /// The permanent at `i` pays for its ability `index`, which goes on the
    /// stack as a new object.
    pub open spec fn stacked_activation(self, player: PlayerId, i: int, index: int, targets: Seq<Target>) -> GameView {
        let permanent = self.battlefield[i];
        let ability = spec_loyalty_abilities(permanent.card.definition)[index];
        let stacked = StackView {
            id: GameObjectId(self.next_object_id),
            source: permanent.card.id,
            definition: permanent.card.definition,
            ability: AbilityId(index as u8),
            controller: player,
            targets,
            spell: None,
            x: 0,
        };
        GameView {
            battlefield: self.battlefield.update(i, paid_loyalty(permanent, ability)),
            stack: self.stack.push(stacked),
            next_object_id: (self.next_object_id + 1) as u32,
            consecutive_passes: 0,
            ..self
        }
    }

    /// The top card of the player's library, when it is a creature card,
    /// is revealed and put into their hand as a new object.
    pub open spec fn spec_reveal_top_creature(self, player: PlayerId) -> GameView {
        let state = self.player(player);
        if state.library.len() > 0 && (catalog(state.library.last().definition) matches Some(
            definition,
        ) && definition.types.creature) {
            let card = state.library.last();
            let (spent, moved) = self.zone_change(card);
            GameView {
                players: spent.players.update(
                    player.spec_index(),
                    PlayerView {
                        library: state.library.drop_last(),
                        hand: state.hand.push(moved),
                        ..state
                    },
                ),
                events: spent.events.push(
                    EventView::CardRevealed { player, card: card.id, definition: card.definition },
                ),
                ..spent
            }
        } else {
            self
        }
    }

    /// Two creatures fight: each deals damage equal to its power to the
    /// other. Nothing happens unless both are still legal targets.
    pub open spec fn spec_fight(self, player: PlayerId, source: GameObjectId, targets: Seq<Target>) -> GameView {
        if targets.len() == 2 && targets[0] is Permanent && targets[1] is Permanent {
            let first_id = targets[0]->Permanent_0;
            let second_id = targets[1]->Permanent_0;
            match (permanent_with(self.battlefield, first_id), permanent_with(self.battlefield, second_id)) {
                (Some(first), Some(second)) => if self.fight_first(player, source, first)
                    && self.fight_second(player, source, first, second) {
                    let first_power = amount_of(self.power_of(first));
                    let second_power = amount_of(self.power_of(second));
                    let struck = self.spec_damage(Some(first_id), Some(targets[1]), first_power, false).0;
                    struck.spec_damage(Some(second_id), Some(targets[0]), second_power, false).0
                } else {
                    self
                },
                _ => self,
            }
        } else {
            self
        }
    }

    /// The effect of a loyalty ability on the stack.
    pub open spec fn loyalty_effect(self, top: StackView) -> GameView {
        match loyalty_ability_of(top.definition, top.ability) {
            Some(ability) => match ability.effect {
                LoyaltyEffect::RevealTopCreature => self.spec_reveal_top_creature(top.controller),
                LoyaltyEffect::Fight => self.spec_fight(top.controller, top.source, top.targets),
                LoyaltyEffect::Emblem => GameView {
                    emblems: self.emblems.push(
                        Emblem {
                            controller: top.controller,
                            source: top.definition,
                            keywords: ultimate_emblem_keywords(),
                        },
                    ),
                    events: self.events.push(
                        EventView::EmblemCreated { player: top.controller, source: top.definition },
                    ),
                    ..self
                },
            },
            None => self,
        }
    }

    /// The top of the stack resolves, the active player receives priority,
    /// and state-based actions are checked.
    pub open spec fn spec_resolve_top(self) -> GameView {
        let resolved = self.popped_and_resolved();
        GameView {
            priority: resolved.active_player,
            consecutive_passes: 0,
            ..resolved
        }.spec_state_based_actions()
    }

    /// The top of the stack resolves: a spell as `spell_resolves` says, an
    /// ability by leaving the stack and having its effect.
    pub open spec fn popped_and_resolved(self) -> GameView {
        match self.stack.last().spell {
            Some(card) => self.spell_resolves(self.stack.last(), card),
            None => GameView { stack: self.stack.drop_last(), ..self }.loyalty_effect(self.stack.last()),
        }
    }
}

fn target_pair(first: GameObjectId, second: GameObjectId) -> (pair: Vec<Target>)
    ensures
        pair@ == seq![Target::Permanent(first), Target::Permanent(second)],
{
    let mut pair: Vec<Target> = Vec::new();
    pair.push(Target::Permanent(first));
    pair.push(Target::Permanent(second));
    proof {
        assert(pair@ =~= seq![Target::Permanent(first), Target::Permanent(second)]);
    }
    pair
}

impl Game {
    fn is_fight_first(&self, player: PlayerId, source: GameObjectId, first: &Permanent) -> (legal: bool)
        requires
            self.wf(),
        ensures
            legal == self@.fight_first(player, source, *first),
    {
        self.is_creature_permanent(first) && first.controller == player && self.permanent_can_be_targeted_by(
            first,
            player,
            source,
        )
    }

    fn is_fight_second(&self, player: PlayerId, source: GameObjectId, first: &Permanent, second: &Permanent) -> (legal:
        bool)
        requires
            self.wf(),
        ensures
            legal == self@.fight_second(player, source, *first, *second),
    {
        self.is_creature_permanent(second) && second.card.id != first.card.id
            && self.permanent_can_be_targeted_by(second, player, source)
    }

    fn fight_pairs_with(&self, player: PlayerId, source: GameObjectId, first: &Permanent) -> (pairs: Vec<
        Vec<Target>,
    >)
        requires
            self.wf(),
        ensures
            target_lists(pairs@) == self@.fight_pairs_with(
                player,
                source,
                *first,
                self@.battlefield.len() as int,
            ),
    {
        let mut pairs: Vec<Vec<Target>> = Vec::new();
        let mut k: usize = 0;
        while k < self.battlefield.len()
            invariant
                self.wf(),
                k <= self.battlefield@.len(),
                target_lists(pairs@) == self@.fight_pairs_with(
                    player,
                    source,
                    *first,
                    k as int,
                ),
            decreases self.battlefield@.len() - k,
        {
            let second = &self.battlefield[k];
            if self.is_fight_second(player, source, first, second) {
                let pair = target_pair(first.card.id, second.card.id);
                let ghost before = pairs@;
                pairs.push(pair);
                proof {
                    assert(target_lists(pairs@) =~= target_lists(before).push(pair@));
                }
            }
            k = k + 1;
        }
        pairs
    }

    fn fight_pairs(&self, player: PlayerId, source: GameObjectId) -> (pairs: Vec<Vec<Target>>)
        requires
            self.wf(),
        ensures
            target_lists(pairs@) == self@.fight_pairs(
                player,
                source,
                self@.battlefield.len() as int,
            ),
    {
        let mut pairs: Vec<Vec<Target>> = Vec::new();
        let mut k: usize = 0;
        while k < self.battlefield.len()
            invariant
                self.wf(),
                k <= self.battlefield@.len(),
                target_lists(pairs@) == self@.fight_pairs(player, source, k as int),
            decreases self.battlefield@.len() - k,
        {
            let first = &self.battlefield[k];
            if self.is_fight_first(player, source, first) {
                let mut more = self.fight_pairs_with(player, source, first);
                let ghost before = pairs@;
                let ghost added = more@;
                pairs.append(&mut more);
                proof {
                    assert(target_lists(pairs@) =~= target_lists(before) + target_lists(added));
                }
            }
            k = k + 1;
        }
        pairs
    }

    fn ability_activations(&self, player: PlayerId, permanent: &Permanent, index: usize, ability: LoyaltyAbility) -> (actions:
        Vec<Action>)
        requires
            self.wf(),
            index < spec_loyalty_abilities(permanent.card.definition).len(),
            ability == spec_loyalty_abilities(permanent.card.definition)[index as int],
        ensures
            crate::state::actions_view(actions@) == self@.ability_activations(player, *permanent, index as int),
    {
        let mut actions: Vec<Action> = Vec::new();
        let payable = if ability.adds {
            (permanent.loyalty as u32) + (ability.amount as u32) <= 65535
        } else {
            permanent.loyalty >= ability.amount
        };
        if !payable {
            proof {
                assert(crate::state::actions_view(actions@) =~= Seq::empty());
            }
            return actions;
        }
        let choices: Vec<Vec<Target>> = match ability.effect {
            LoyaltyEffect::Fight => self.fight_pairs(player, permanent.card.id),
            _ => {
                let mut none: Vec<Vec<Target>> = Vec::new();
                none.push(Vec::new());
                proof {
                    assert(target_lists(none@) =~= seq![Seq::<Target>::empty()]);
                }
                none
            },
        };
        let ghost choice_views = target_lists(choices@);
        assert(choice_views == self@.target_choices(player, *permanent, ability));
        let mut k: usize = 0;
        while k < choices.len()
            invariant
                k <= choices@.len(),
                index < 3,
                choice_views == target_lists(choices@),
                crate::state::actions_view(actions@) == choice_views.take(k as int).map_values(
                    activation_with(*permanent, index as int),
                ),
            decreases choices@.len() - k,
        {
            let action = Action::ActivateAbility {
                source: permanent.card.id,
                ability: AbilityOrigin::Printed {
                    definition: permanent.card.definition,
                    part: CardPartId::PRIMARY,
                    ability: AbilityId(index as u8),
                },
                targets: choices[k].clone(),
                sacrifice: None,
                x: 0,
            };
            let ghost before = actions@;
            actions.push(action);
            proof {
                assert(choice_views[k as int] == choices@[k as int]@);
                assert(crate::state::actions_view(actions@) =~= crate::state::actions_view(before).push(action@));
                assert(choice_views.take(k + 1) =~= choice_views.take(k as int).push(choice_views[k as int]));
                assert(choice_views.take(k + 1).map_values(activation_with(*permanent, index as int))
                    =~= choice_views.take(k as int).map_values(activation_with(*permanent, index as int)).push(
                    activation(*permanent, index as int, choice_views[k as int]),
                ));
            }
            k = k + 1;
        }
        proof {
            assert(choice_views.take(k as int) =~= choice_views);
        }
        actions
    }

    fn permanent_activations(&self, player: PlayerId, permanent: &Permanent) -> (actions: Vec<Action>)
        requires
            self.wf(),
        ensures
            crate::state::actions_view(actions@) == self@.permanent_activations(player, *permanent),
    {
        let mut actions: Vec<Action> = Vec::new();
        if !(permanent.controller == player && self.is_planeswalker_permanent(permanent)
            && !permanent.loyalty_ability_activated && self.active_player == player && self.step.is_main()
            && self.stack.len() == 0) {
            proof {
                assert(crate::state::actions_view(actions@) =~= Seq::empty());
            }
            return actions;
        }
        let abilities = loyalty_abilities(permanent.card.definition);
        let mut j: usize = 0;
        proof {
            assert(crate::state::actions_view(actions@) =~= Seq::empty());
        }
        while j < abilities.len()
            invariant
                self.wf(),
                j <= abilities@.len(),
                abilities@ == spec_loyalty_abilities(permanent.card.definition),
                abilities@.len() <= 3,
                crate::state::actions_view(actions@) == self@.activations_upto(player, *permanent, j as int),
            decreases abilities@.len() - j,
        {
            let mut more = self.ability_activations(player, permanent, j, abilities[j]);
            let ghost before = actions@;
            let ghost added = more@;
            actions.append(&mut more);
            proof {
                assert(crate::state::actions_view(actions@) =~= crate::state::actions_view(before)
                    + crate::state::actions_view(added));
            }
            j = j + 1;
        }
        actions
    }

    /// Every loyalty activation open to the player now.
    pub fn loyalty_actions(&self, player: PlayerId) -> (actions: Vec<Action>)
        requires
            self.wf(),
        ensures
            crate::state::actions_view(actions@) == self@.spec_loyalty_actions(player),
    {
        let mut actions: Vec<Action> = Vec::new();
        let mut k: usize = 0;
        proof {
            assert(crate::state::actions_view(actions@) =~= Seq::empty());
        }
        while k < self.battlefield.len()
            invariant
                self.wf(),
                k <= self.battlefield@.len(),
                crate::state::actions_view(actions@) == self@.loyalty_actions_upto(player, k as int),
            decreases self.battlefield@.len() - k,
        {
            let mut more = self.permanent_activations(player, &self.battlefield[k]);
            let ghost before = actions@;
            let ghost added = more@;
            actions.append(&mut more);
            proof {
                assert(crate::state::actions_view(actions@) =~= crate::state::actions_view(before)
                    + crate::state::actions_view(added));
            }
            k = k + 1;
        }
        actions
    }
}


impl Game {
    /// Activates ability `index` of the permanent `source`: its loyalty cost
    /// is paid, the ability goes on the stack as a new object, the player
    /// keeps priority, and state-based actions are checked.
    pub fn activate_loyalty_ability(
        &mut self,
        player: PlayerId,
        source: GameObjectId,
        index: usize,
        targets: Vec<Target>,
    )
        requires
            old(self).wf(),
            old(self).next_object_id + 4 * old(self).battlefield@.len() + 1 < u32::MAX,
        ensures
            final(self)@ == old(self)@.spec_activate_loyalty(player, source, index as int, targets@),
            final(self).wf(),
    {
        reveal(GameView::spec_activate_loyalty);
        let i = match self.permanent_position(source) {
            Some(i) => i,
            None => return,
        };
        let permanent = self.battlefield[i];
        let abilities = loyalty_abilities(permanent.card.definition);
        if index >= abilities.len() {
            return;
        }
        let ability = abilities[index];
        let payable = if ability.adds {
            (permanent.loyalty as u32) + (ability.amount as u32) <= 65535
        } else {
            permanent.loyalty >= ability.amount
        };
        if !payable {
            return;
        }
        self.capture_crime_triggers(player, &targets);
        self.stack_activation(player, i, index, targets);
        self.check_state_based_actions();
    }

    fn stack_activation(&mut self, player: PlayerId, i: usize, index: usize, targets: Vec<Target>)
        requires
            old(self).wf(),
            i < old(self).battlefield@.len(),
            index < spec_loyalty_abilities(old(self)@.battlefield[i as int].card.definition).len(),
            loyalty_payable(
                old(self)@.battlefield[i as int],
                spec_loyalty_abilities(old(self)@.battlefield[i as int].card.definition)[index as int],
            ),
            old(self).next_object_id < u32::MAX,
        ensures
            final(self)@ == old(self)@.stacked_activation(player, i as int, index as int, targets@),
            final(self).wf(),
            final(self).battlefield@.len() == old(self).battlefield@.len(),
            final(self).next_object_id == old(self).next_object_id + 1,
    {
        let permanent = self.battlefield[i];
        let abilities = loyalty_abilities(permanent.card.definition);
        let ability = abilities[index];
        let mut paid = permanent;
        if ability.adds {
            paid.loyalty = permanent.loyalty + ability.amount;
        } else {
            paid.loyalty = permanent.loyalty - ability.amount;
        }
        paid.loyalty_ability_activated = true;
        self.battlefield.set(i, paid);
        let id = GameObjectId(self.next_object_id);
        self.next_object_id = self.next_object_id + 1;
        let ghost stack_before = self@.stack;
        let stacked = StackObject {
            id,
            source: permanent.card.id,
            definition: permanent.card.definition,
            ability: AbilityId(index as u8),
            controller: player,
            targets,
            spell: None,
            x: 0,
        };
        self.stack.push(stacked);
        self.consecutive_passes = 0;
        proof {
            assert(self@.stack =~= stack_before.push(stacked@));
            assert(self@.battlefield =~= old(self)@.battlefield.update(
                i as int,
                paid_loyalty(permanent, ability),
            ));
        }
    }

    fn reveal_top_creature(&mut self, player: PlayerId)
        requires
            old(self).wf(),
            old(self).next_object_id < u32::MAX,
        ensures
            final(self)@ == old(self)@.spec_reveal_top_creature(player),
            final(self).wf(),
            final(self).battlefield@ == old(self).battlefield@,
            final(self).next_object_id <= old(self).next_object_id + 1,
    {
        let index = player.index();
        let count = self.players[index].library.len();
        if count == 0 {
            return;
        }
        let card = self.players[index].library[count - 1];
        let creature = match card_definition(card.definition) {
            Some(definition) => definition.types.creature,
            None => false,
        };
        if !creature {
            return;
        }
        let ghost state = old(self)@.player(player);
        let moved = self.zone_change_card(card);
        self.players[index].library.pop();
        self.players[index].hand.push(moved);
        self.events.push(GameEvent::CardRevealed { player, card: card.id, definition: card.definition });
        proof {
            assert(self@.players[index as int].library =~= state.library.drop_last());
            assert(self@.players =~= old(self)@.players.update(
                player.spec_index(),
                PlayerView { library: state.library.drop_last(), hand: state.hand.push(moved), ..state },
            ));
            assert(self@.events =~= old(self)@.events.push(
                EventView::CardRevealed { player, card: card.id, definition: card.definition },
            ));
        }
    }

    fn fight(&mut self, player: PlayerId, source: GameObjectId, targets: &Vec<Target>)
        requires
            old(self).wf(),
        ensures
            final(self)@ == old(self)@.spec_fight(player, source, targets@),
            final(self).wf(),
            final(self).battlefield@.len() == old(self).battlefield@.len(),
            final(self).next_object_id == old(self).next_object_id,
    {
        if targets.len() != 2 {
            return;
        }
        let (first_id, second_id) = match (targets[0], targets[1]) {
            (Target::Permanent(first_id), Target::Permanent(second_id)) => (first_id, second_id),
            _ => return,
        };
        let first = match self.permanent_position(first_id) {
            Some(i) => self.battlefield[i],
            None => return,
        };
        let second = match self.permanent_position(second_id) {
            Some(i) => self.battlefield[i],
            None => return,
        };
        if !(self.is_fight_first(player, source, &first) && self.is_fight_second(player, source, &first, &second)) {
            return;
        }
        let first_power = clamp_amount(self.power(&first));
        let second_power = clamp_amount(self.power(&second));
        self.damage_target_from_kind(Some(first_id), Some(targets[1]), first_power, false);
        self.damage_target_from_kind(Some(second_id), Some(targets[0]), second_power, false);
    }

    #[verifier::spinoff_prover]
    #[verifier::rlimit(80)]
    fn pop_and_resolve(&mut self)
        requires
            old(self).wf(),
            old(self).stack@.len() > 0,
            old(self).next_object_id < u32::MAX,
        ensures
            final(self)@ == old(self)@.popped_and_resolved(),
            final(self).wf(),
            final(self).battlefield@.len() <= old(self).battlefield@.len() + 1,
            final(self).next_object_id <= old(self).next_object_id + 1,
    {
        let last = self.stack.len() - 1;
        if let Some(card) = self.stack[last].spell {
            proof {
                assert(self.stack@[last as int]@ == self@.stack.last());
            }
            self.resolve_spell(card);
            return;
        }
        proof {
            assert(self.stack@[last as int]@ == self@.stack.last());
        }
        let ghost stack_before = self@.stack;
        let top = match self.stack.pop() {
            Some(top) => top,
            None => return,
        };
        proof {
            assert(self@.stack =~= stack_before.drop_last());
            assert(top@ == stack_before.last());
        }
        let abilities = loyalty_abilities(top.definition);
        let which = top.ability.0 as usize;
        if which < abilities.len() {
            match abilities[which].effect {
                LoyaltyEffect::RevealTopCreature => self.reveal_top_creature(top.controller),
                LoyaltyEffect::Fight => self.fight(top.controller, top.source, &top.targets),
                LoyaltyEffect::Emblem => {
                    let ghost emblems_before = self@.emblems;
                    let ghost events_before = self@.events;
                    let emblem = Emblem {
                        controller: top.controller,
                        source: top.definition,
                        keywords: ultimate_keywords(),
                    };
                    self.emblems.push(emblem);
                    self.events.push(GameEvent::EmblemCreated { player: top.controller, source: top.definition });
                    proof {
                        assert(self@.emblems =~= emblems_before.push(emblem));
                        assert(self@.events =~= events_before.push(
                            EventView::EmblemCreated { player: top.controller, source: top.definition },
                        ));
                    }
                },
            }
        }
    }

    /// The top of the stack resolves; the active player then receives
    /// priority, and state-based actions are checked.
    pub fn resolve_top_of_stack(&mut self)
        requires
            old(self).wf(),
            old(self).stack@.len() > 0,
            old(self).next_object_id + 4 * old(self).battlefield@.len() + 5 < u32::MAX,
        ensures
            final(self)@ == old(self)@.spec_resolve_top(),
            final(self).wf(),
    {
        self.pop_and_resolve();
        self.priority = self.active_player;
        self.consecutive_passes = 0;
        self.check_state_based_actions();
    }
}

} // verus!
