//! Casting spells from a hand: which spells may be cast and at what, what
//! casting one pays, and what it does when it resolves.
use vstd::prelude::*;

use crate::card::{card_definition, cards, ManaColor};
use crate::characteristics::{card_with, find_card};
use crate::decisions::{combinations_from, id_lists};
use crate::ids::{AbilityId, CardDefinitionId, GameObjectId, PlayerId};
use crate::mana::{is_untapped_source, land_mana, tapped_for};
use crate::state::{
    actions_view, card_position, permanent_with, take_card, Action, ActionView, CardInstance, Game,
    GameView, Permanent, PlayerView, StackObject, StackView, Target, ZoneKind, ZonePlacement,
};

verus! {

/// What a spell does when it resolves.
#[derive(Clone, Copy, Debug, PartialEq, Eq, Structural)]
pub enum SpellEffect {
    /// It deals this much damage to any target.
    DamageAnyTarget(u16),
    /// A permanent spell: the card enters the battlefield.
    Permanent,
    /// X damage divided evenly, rounded down, among any number of targets;
    /// each target beyond the first costs {1} more.
    DividedDamage,
}

/// A mana cost: coloured mana symbols of each colour, and generic mana.
#[derive(Clone, Copy, Debug, PartialEq, Eq, Structural)]
pub struct SpellCost {
    pub white: u16,
    pub blue: u16,
    pub black: u16,
    pub red: u16,
    pub green: u16,
    pub generic: u16,
}

/// A spell the engine can cast: its mana cost, whether it may be cast at
/// instant speed, and its effect.
#[derive(Clone, Copy, Debug, PartialEq, Eq, Structural)]
pub struct SpellDefinition {
    pub cost: SpellCost,
    pub instant: bool,
    pub effect: SpellEffect,
}

pub open spec fn cost(white: u16, blue: u16, black: u16, red: u16, green: u16, generic: u16) -> SpellCost {
    SpellCost { white, blue, black, red, green, generic }
}

pub open spec fn permanent_spell(cost: SpellCost) -> Option<SpellDefinition> {
    Some(SpellDefinition { cost, instant: false, effect: SpellEffect::Permanent })
}

/// The spell behind a catalog entry, if it is a spell the engine casts:
/// every card but the lands and Lurrus, whose hybrid cost is not modelled.
pub open spec fn spec_spell_definition(definition: CardDefinitionId) -> Option<SpellDefinition> {
    if definition == cards::LIGHTNING_BOLT {
        Some(SpellDefinition { cost: cost(0, 0, 0, 1, 0, 0), instant: true, effect: SpellEffect::DamageAnyTarget(3) })
    } else if definition == cards::SAVANNAH_LIONS { permanent_spell(cost(1, 0, 0, 0, 0, 0))
    } else if definition == cards::GRIZZLY_BEARS { permanent_spell(cost(0, 0, 0, 0, 1, 1))
    } else if definition == cards::SERRA_ANGEL { permanent_spell(cost(2, 0, 0, 0, 0, 3))
    } else if definition == cards::BALL_LIGHTNING { permanent_spell(cost(0, 0, 0, 3, 0, 0))
    } else if definition == cards::WALL_OF_STONE { permanent_spell(cost(0, 0, 0, 2, 0, 1))
    } else if definition == cards::GIANT_SPIDER { permanent_spell(cost(0, 0, 0, 0, 1, 3))
    } else if definition == cards::BENALISH_HERO { permanent_spell(cost(1, 0, 0, 0, 0, 0))
    } else if definition == cards::MESA_PEGASUS { permanent_spell(cost(1, 0, 0, 0, 0, 1))
    } else if definition == cards::WOLVES_OF_THE_HUNT { permanent_spell(cost(0, 0, 0, 0, 1, 2))
    } else if definition == cards::IRONCLAW_ORCS { permanent_spell(cost(0, 0, 0, 1, 0, 1))
    } else if definition == cards::MOAT { permanent_spell(cost(2, 0, 0, 0, 0, 2))
    } else if definition == cards::DOMRI_RADE { permanent_spell(cost(0, 0, 0, 1, 1, 1))
    } else if definition == cards::TOBIAS_ANDRION { permanent_spell(cost(1, 1, 0, 0, 0, 3))
    } else if definition == cards::TYPHOID_RATS { permanent_spell(cost(0, 0, 1, 0, 0, 0))
    } else if definition == cards::WHITE_KNIGHT { permanent_spell(cost(2, 0, 0, 0, 0, 0))
    } else if definition == cards::YOUNG_WOLF { permanent_spell(cost(0, 0, 0, 0, 1, 0))
    } else if definition == cards::DARKSTEEL_MYR { permanent_spell(cost(0, 0, 0, 0, 0, 3))
    } else if definition == cards::FIREBALL {
        Some(SpellDefinition { cost: cost(0, 0, 0, 1, 0, 0), instant: false, effect: SpellEffect::DividedDamage })
    } else {
        None
    }
}

fn make_cost(white: u16, blue: u16, black: u16, red: u16, green: u16, generic: u16) -> (made: SpellCost)
    ensures
        made == cost(white, blue, black, red, green, generic),
{
    SpellCost { white, blue, black, red, green, generic }
}

fn make_permanent_spell(cost: SpellCost) -> (spell: Option<SpellDefinition>)
    ensures
        spell == permanent_spell(cost),
{
    Some(SpellDefinition { cost, instant: false, effect: SpellEffect::Permanent })
}

#[verifier::when_used_as_spec(spec_spell_definition)]
pub fn spell_definition(definition: CardDefinitionId) -> (spell: Option<SpellDefinition>)
    ensures
        spell == spec_spell_definition(definition),
{
    if definition == cards::LIGHTNING_BOLT {
        Some(SpellDefinition { cost: make_cost(0, 0, 0, 1, 0, 0), instant: true, effect: SpellEffect::DamageAnyTarget(3) })
    } else if definition == cards::SAVANNAH_LIONS { make_permanent_spell(make_cost(1, 0, 0, 0, 0, 0))
    } else if definition == cards::GRIZZLY_BEARS { make_permanent_spell(make_cost(0, 0, 0, 0, 1, 1))
    } else if definition == cards::SERRA_ANGEL { make_permanent_spell(make_cost(2, 0, 0, 0, 0, 3))
    } else if definition == cards::BALL_LIGHTNING { make_permanent_spell(make_cost(0, 0, 0, 3, 0, 0))
    } else if definition == cards::WALL_OF_STONE { make_permanent_spell(make_cost(0, 0, 0, 2, 0, 1))
    } else if definition == cards::GIANT_SPIDER { make_permanent_spell(make_cost(0, 0, 0, 0, 1, 3))
    } else if definition == cards::BENALISH_HERO { make_permanent_spell(make_cost(1, 0, 0, 0, 0, 0))
    } else if definition == cards::MESA_PEGASUS { make_permanent_spell(make_cost(1, 0, 0, 0, 0, 1))
    } else if definition == cards::WOLVES_OF_THE_HUNT { make_permanent_spell(make_cost(0, 0, 0, 0, 1, 2))
    } else if definition == cards::IRONCLAW_ORCS { make_permanent_spell(make_cost(0, 0, 0, 1, 0, 1))
    } else if definition == cards::MOAT { make_permanent_spell(make_cost(2, 0, 0, 0, 0, 2))
    } else if definition == cards::DOMRI_RADE { make_permanent_spell(make_cost(0, 0, 0, 1, 1, 1))
    } else if definition == cards::TOBIAS_ANDRION { make_permanent_spell(make_cost(1, 1, 0, 0, 0, 3))
    } else if definition == cards::TYPHOID_RATS { make_permanent_spell(make_cost(0, 0, 1, 0, 0, 0))
    } else if definition == cards::WHITE_KNIGHT { make_permanent_spell(make_cost(2, 0, 0, 0, 0, 0))
    } else if definition == cards::YOUNG_WOLF { make_permanent_spell(make_cost(0, 0, 0, 0, 1, 0))
    } else if definition == cards::DARKSTEEL_MYR { make_permanent_spell(make_cost(0, 0, 0, 0, 0, 3))
    } else if definition == cards::FIREBALL {
        Some(SpellDefinition { cost: make_cost(0, 0, 0, 1, 0, 0), instant: false, effect: SpellEffect::DividedDamage })
    } else {
        None
    }
}

/// The coloured symbols of this colour in a cost.
pub open spec fn pips(cost: SpellCost, color: ManaColor) -> u16 {
    match color {
        ManaColor::White => cost.white,
        ManaColor::Blue => cost.blue,
        ManaColor::Black => cost.black,
        ManaColor::Red => cost.red,
        ManaColor::Green => cost.green,
        ManaColor::Colorless => 0,
    }
}

/// The mana value of a cost (CR 202.3).
pub open spec fn total_mana(cost: SpellCost) -> int {
    cost.white + cost.blue + cost.black + cost.red + cost.green + cost.generic
}

/// The generic mana a cast adds to the printed cost: X, and {1} for each
/// target of a divided spell beyond the first.
pub open spec fn added_generic(spell: SpellDefinition, x: u16, target_count: int) -> int {
    match spell.effect {
        SpellEffect::DividedDamage => x + if target_count > 1 {
            target_count - 1
        } else {
            0
        },
        _ => 0,
    }
}

/// The casts of a card at these targets with each X from 0 to `n - 1`.
pub open spec fn x_casts(card: GameObjectId, targets: Seq<Target>, n: int) -> Seq<ActionView>
    decreases n,
{
    if n <= 0 {
        Seq::empty()
    } else {
        x_casts(card, targets, n - 1).push(ActionView::CastSpell { card, targets, x: (n - 1) as u16 })
    }
}

/// An untapped land of the player that taps for this colour.
pub open spec fn is_untapped_source_of(player: PlayerId, color: ManaColor, permanent: Permanent) -> bool {
    is_untapped_source(player, permanent) && land_mana(permanent.card.definition) == Some(color)
}

pub open spec fn untapped_source_of(player: PlayerId, color: ManaColor) -> spec_fn(Permanent) -> Option<
    GameObjectId,
> {
    |permanent: Permanent|
        if is_untapped_source_of(player, color, permanent) {
            Some(permanent.card.id)
        } else {
            None
        }
}

/// The permanents with the first `amount` of the player's untapped sources
/// of this colour tapped, in battlefield order.
pub open spec fn tapped_for_color(player: PlayerId, color: ManaColor, permanents: Seq<Permanent>, amount: int) -> Seq<
    Permanent,
>
    decreases permanents.len(),
{
    if permanents.len() == 0 {
        Seq::empty()
    } else {
        let first = permanents[0];
        if amount > 0 && is_untapped_source_of(player, color, first) {
            seq![Permanent { tapped: true, ..first }] + tapped_for_color(player, color, permanents.drop_first(), amount - 1)
        } else {
            seq![first] + tapped_for_color(player, color, permanents.drop_first(), amount)
        }
    }
}

/// A cast of this card at this one target.
pub open spec fn cast_at(card: GameObjectId) -> spec_fn(Target) -> ActionView {
    |target: Target| ActionView::CastSpell { card, targets: seq![target], x: 0 }
}

impl GameView {
    /// How many untapped lands of the player tap for this colour.
    pub open spec fn sources_of(self, player: PlayerId, color: ManaColor) -> nat {
        self.battlefield.filter_map(untapped_source_of(player, color)).len()
    }

    /// Whether the player's untapped lands can pay the spell's cost: enough
    /// sources of each colour (each land taps for one colour), and enough
    /// lands in all.
    pub open spec fn spec_can_pay(self, player: PlayerId, spell: SpellDefinition) -> bool {
        self.spec_colors_available(player, spell) && self.available_mana(player) >= total_mana(spell.cost)
    }

    /// Enough sources of each colour the cost names.
    pub open spec fn spec_colors_available(self, player: PlayerId, spell: SpellDefinition) -> bool {
        &&& self.sources_of(player, ManaColor::White) >= spell.cost.white
        &&& self.sources_of(player, ManaColor::Blue) >= spell.cost.blue
        &&& self.sources_of(player, ManaColor::Black) >= spell.cost.black
        &&& self.sources_of(player, ManaColor::Red) >= spell.cost.red
        &&& self.sources_of(player, ManaColor::Green) >= spell.cost.green
    }

    /// The greatest X the player can pay for a divided spell with this many
    /// targets (negative when none), and that a cost can record.
    pub open spec fn max_x(self, player: PlayerId, spell: SpellDefinition, target_count: int) -> int {
        let by_mana = self.available_mana(player) - total_mana(spell.cost) - (target_count - 1);
        let by_record = u16::MAX - spell.cost.generic - (target_count - 1);
        if by_mana <= by_record {
            by_mana
        } else {
            by_record
        }
    }

    /// The casts of a divided spell at each choice of `k` targets.
    pub open spec fn divided_casts_of(
        self,
        player: PlayerId,
        card: GameObjectId,
        spell: SpellDefinition,
        choices: Seq<Seq<Target>>,
        n: int,
    ) -> Seq<ActionView>
        decreases n,
    {
        if n <= 0 {
            Seq::empty()
        } else {
            self.divided_casts_of(player, card, spell, choices, n - 1) + x_casts(
                card,
                choices[n - 1],
                self.max_x(player, spell, choices[n - 1].len() as int) + 1,
            )
        }
    }

    /// The casts of a divided spell at one to `k` targets, fewer targets
    /// first, each with every X the player can pay.
    pub open spec fn divided_casts_upto(
        self,
        player: PlayerId,
        card: GameObjectId,
        spell: SpellDefinition,
        targets: Seq<Target>,
        k: int,
    ) -> Seq<ActionView>
        decreases k,
    {
        if k <= 0 {
            Seq::empty()
        } else {
            self.divided_casts_upto(player, card, spell, targets, k - 1) + self.divided_casts_of(
                player,
                card,
                spell,
                crate::decisions::combinations(targets, k as nat),
                crate::decisions::combinations(targets, k as nat).len() as int,
            )
        }
    }

    /// This game with the first `amount` untapped sources of the colour tapped.
    pub open spec fn paid_color(self, player: PlayerId, color: ManaColor, amount: u16) -> GameView {
        self.with_battlefield(tapped_for_color(player, color, self.battlefield, amount as int))
    }

    /// CR 307.1: a spell that is not an instant is cast only by the active
    /// player, in a main phase, with an empty stack.
    pub open spec fn spec_may_cast_now(self, player: PlayerId, spell: SpellDefinition) -> bool {
        spell.instant || (player == self.active_player && self.step.spec_is_main() && self.stack.len() == 0)
    }

    /// Whether a permanent is a creature or planeswalker this player's
    /// spell from `source` may target.
    pub open spec fn damageable(self, player: PlayerId, source: GameObjectId, permanent: Permanent) -> bool {
        (self.is_creature(permanent) || self.is_planeswalker(permanent)) && self.spec_can_be_targeted_by(
            permanent,
            player,
            source,
        )
    }

    pub open spec fn damageable_target(self, player: PlayerId, source: GameObjectId) -> spec_fn(Permanent) -> Option<
        Target,
    > {
        |permanent: Permanent|
            if self.damageable(player, source, permanent) {
                Some(Target::Permanent(permanent.card.id))
            } else {
                None
            }
    }

    /// "Any target": each player, then each creature and planeswalker the
    /// spell may target, in battlefield order.
    pub open spec fn spec_any_targets(self, player: PlayerId, source: GameObjectId) -> Seq<Target> {
        seq![Target::Player(PlayerId::One), Target::Player(PlayerId::Two)] + self.battlefield.filter_map(
            self.damageable_target(player, source),
        )
    }

    /// The casts of one card in hand the player may make now: one per
    /// legal target, when the spell may be cast now and paid for.
    pub open spec fn spell_choices(self, player: PlayerId, card: CardInstance) -> Seq<ActionView> {
        match spec_spell_definition(card.definition) {
            Some(spell) => if !self.spec_may_cast_now(player, spell) {
                Seq::empty()
            } else {
                match spell.effect {
                    SpellEffect::DamageAnyTarget(_) => if self.spec_can_pay(player, spell) {
                        self.spec_any_targets(player, card.id).map_values(cast_at(card.id))
                    } else {
                        Seq::empty()
                    },
                    SpellEffect::Permanent => if self.spec_can_pay(player, spell) {
                        seq![ActionView::CastSpell { card: card.id, targets: Seq::empty(), x: 0 }]
                    } else {
                        Seq::empty()
                    },
                    SpellEffect::DividedDamage => if self.spec_colors_available(player, spell) {
                        let targets = self.spec_any_targets(player, card.id);
                        self.divided_casts_upto(player, card.id, spell, targets, targets.len() as int)
                    } else {
                        Seq::empty()
                    },
                }
            },
            None => Seq::empty(),
        }
    }

    pub open spec fn spells_upto(self, player: PlayerId, hand: Seq<CardInstance>, n: int) -> Seq<ActionView>
        decreases n,
    {
        if n <= 0 {
            Seq::empty()
        } else {
            self.spells_upto(player, hand, n - 1) + self.spell_choices(player, hand[n - 1])
        }
    }

    /// Every spell cast the player may make now, card by card in hand order.
    pub open spec fn spec_spell_actions(self, player: PlayerId) -> Seq<ActionView> {
        self.spells_upto(player, self.player(player).hand, self.player(player).hand.len() as int)
    }

    /// The player pays the spell's cost: each colour from their first
    /// untapped sources of it, then generic mana from their first untapped
    /// lands.
    pub open spec fn spec_pay_spell(self, player: PlayerId, spell: SpellDefinition, added: int) -> GameView {
        self.paid_color(player, ManaColor::White, spell.cost.white).paid_color(player, ManaColor::Blue, spell.cost.blue)
            .paid_color(player, ManaColor::Black, spell.cost.black).paid_color(player, ManaColor::Red, spell.cost.red)
            .paid_color(player, ManaColor::Green, spell.cost.green).spec_pay_generic(player, spell.cost.generic + added)
    }

    /// Casting a spell (CR 601.2): the card leaves its owner's hand for the
    /// stack as a new object with its targets, the cost is paid, and the
    /// run of passes starts over. A card that is not a castable spell in
    /// the player's hand, or a cost over what a cost records, is not cast.
    pub open spec fn spec_cast_spell(self, player: PlayerId, card: GameObjectId, targets: Seq<Target>, x: u16) -> GameView {
        let state = self.player(player);
        match card_position(state.hand, card) {
            None => self,
            Some(i) => match spec_spell_definition(state.hand[i].definition) {
                None => self,
                Some(spell) => if spell.cost.generic + added_generic(spell, x, targets.len() as int) > u16::MAX {
                    self
                } else {
                    let paid = self.spec_pay_spell(player, spell, added_generic(spell, x, targets.len() as int));
                    let (spent, moved) = paid.zone_change(state.hand[i]);
                    GameView {
                        players: spent.players.update(
                            player.spec_index(),
                            PlayerView { hand: state.hand.remove(i), ..state },
                        ),
                        stack: spent.stack.push(
                            StackView {
                                id: moved.id,
                                source: moved.id,
                                definition: moved.definition,
                                ability: AbilityId(0),
                                controller: player,
                                targets,
                                spell: Some(moved),
                                x,
                            },
                        ),
                        consecutive_passes: 0,
                        ..spent
                    }
                },
            },
        }
    }

    /// Whether these are targets the spell may be cast with: one legal
    /// "any target" for a damage spell, none for a permanent spell.
    pub open spec fn spec_targets_valid(self, player: PlayerId, source: GameObjectId, spell: SpellDefinition, targets: Seq<
        Target,
    >, x: u16) -> bool {
        match spell.effect {
            SpellEffect::DamageAnyTarget(_) => self.spec_can_pay(player, spell) && x == 0 && targets.len() == 1
                && self.spec_any_targets(player, source).contains(targets[0]),
            SpellEffect::Permanent => self.spec_can_pay(player, spell) && x == 0 && targets.len() == 0,
            SpellEffect::DividedDamage => {
                &&& self.spec_colors_available(player, spell)
                &&& targets.len() >= 1
                &&& targets.no_duplicates()
                &&& forall|i: int| 0 <= i < targets.len() ==> self.spec_any_targets(player, source).contains(
                    #[trigger] targets[i],
                )
                &&& x <= self.max_x(player, spell, targets.len() as int)
            },
        }
    }

    /// Cast validation: the spell a cast of this card with these targets
    /// would be, when the card is a castable spell in the player's hand that
    /// may be cast now, its cost can be paid, and its targets are legal.
    pub open spec fn spec_validated_cast(self, player: PlayerId, card: GameObjectId, targets: Seq<Target>, x: u16) -> Option<
        SpellDefinition,
    > {
        match card_with(self.player(player).hand, card) {
            Some(found) => match spec_spell_definition(found.definition) {
                Some(spell) => if self.spec_may_cast_now(player, spell) && self.spec_targets_valid(
                    player,
                    found.id,
                    spell,
                    targets,
                    x,
                ) {
                    Some(spell)
                } else {
                    None
                },
                None => None,
            },
            None => None,
        }
    }

    /// Whether a spell's target is still legal as it resolves (CR 608.2b).
    pub open spec fn target_still_legal(self, player: PlayerId, source: GameObjectId, target: Target) -> bool {
        match target {
            Target::Player(_) => true,
            Target::Permanent(id) => match permanent_with(self.battlefield, id) {
                Some(permanent) => self.damageable(player, source, permanent),
                None => false,
            },
            _ => false,
        }
    }

    /// A spell on top of the stack resolves. A permanent spell enters the
    /// battlefield under its controller as a new object (CR 608.3); any
    /// other has its effect if its target is still legal, then leaves the
    /// stack for its owner's graveyard as a new object.
    pub open spec fn spell_resolves(self, top: StackView, card: CardInstance) -> GameView {
        if spec_spell_definition(card.definition) matches Some(spell) && spell.effect == SpellEffect::Permanent {
            let (spent, moved) = GameView { stack: self.stack.drop_last(), ..self }.zone_change(card);
            GameView {
                battlefield: spent.battlefield.push(
                    Permanent::spec_entering(moved, top.controller, self.turns_started[top.controller.spec_index()]),
                ),
                ..spent
            }
        } else {
            self.nonpermanent_resolves(top, card)
        }
    }

    /// Each of the first `n` targets, in order, is dealt its share if it was
    /// still legal as the spell began to resolve (`origin`).
    pub open spec fn divided_hits(self, origin: GameView, top: StackView, share: u16, n: int) -> GameView
        decreases n,
    {
        if n <= 0 {
            self
        } else {
            let before = self.divided_hits(origin, top, share, n - 1);
            if origin.target_still_legal(top.controller, top.id, top.targets[n - 1]) {
                before.spec_damage(Some(top.id), Some(top.targets[n - 1]), share, false).0
            } else {
                before
            }
        }
    }

    pub open spec fn nonpermanent_resolves(self, top: StackView, card: CardInstance) -> GameView {
        let hit = self.spell_effect(top, card);
        let (spent, moved) = GameView { stack: hit.stack.drop_last(), ..hit }.zone_change(card);
        spent.put_in_zone(moved, ZoneKind::Graveyard, ZonePlacement::Top)
    }

    /// What a spell that is not a permanent spell does as it resolves.
    pub open spec fn spell_effect(self, top: StackView, card: CardInstance) -> GameView {
        match spec_spell_definition(card.definition) {
            Some(spell) => match spell.effect {
                SpellEffect::DamageAnyTarget(amount) => if top.targets.len() == 1 && self.target_still_legal(
                    top.controller,
                    top.id,
                    top.targets[0],
                ) {
                    self.spec_damage(Some(top.id), Some(top.targets[0]), amount, false).0
                } else {
                    self
                },
                SpellEffect::Permanent => self,
                SpellEffect::DividedDamage => if top.targets.len() > 0 {
                    self.divided_hits(self, top, ((top.x as int) / (top.targets.len() as int)) as u16, top.targets.len() as int)
                } else {
                    self
                },
            },
            None => self,
        }
    }
}

fn is_untapped_source_of_exec(player: PlayerId, color: ManaColor, permanent: &Permanent) -> (source: bool)
    ensures
        source == is_untapped_source_of(player, color, *permanent),
{
    let land = match card_definition(permanent.card.definition) {
        Some(definition) => definition.types.land,
        None => false,
    };
    let makes = (permanent.card.definition == cards::MOUNTAIN && color == ManaColor::Red) || (
    permanent.card.definition == cards::PLAINS && color == ManaColor::White);
    permanent.controller == player && !permanent.tapped && land && makes
}

/// The casts of a card at each of these targets.
fn casts_at(card: GameObjectId, targets: &Vec<Target>, actions: &mut Vec<Action>)
    ensures
        actions_view(final(actions)@) == actions_view(old(actions)@) + targets@.map_values(cast_at(card)),
{
    let ghost start = actions_view(actions@);
    let mut j: usize = 0;
    while j < targets.len()
        invariant
            j <= targets@.len(),
            actions_view(actions@) == start + targets@.take(j as int).map_values(cast_at(card)),
        decreases targets@.len() - j,
    {
        let mut chosen: Vec<Target> = Vec::new();
        chosen.push(targets[j]);
        let ghost before = actions_view(actions@);
        actions.push(Action::CastSpell { card, targets: chosen, x: 0 });
        proof {
            assert(chosen@ =~= seq![targets@[j as int]]);
            assert(actions_view(actions@) =~= before.push(cast_at(card)(targets@[j as int])));
            assert(targets@.take(j + 1).map_values(cast_at(card)) =~= targets@.take(j as int).map_values(
                cast_at(card),
            ).push(cast_at(card)(targets@[j as int])));
        }
        j = j + 1;
    }
    proof {
        assert(targets@.take(j as int) =~= targets@);
    }
}

/// Whether the chosen targets are all legal and none is chosen twice.
fn distinct_legal_targets(legal: &Vec<Target>, chosen: &Vec<Target>) -> (ok: bool)
    ensures
        ok == (chosen@.no_duplicates() && forall|i: int| 0 <= i < chosen@.len() ==> legal@.contains(#[trigger] chosen@[i])),
{
    let mut i: usize = 0;
    while i < chosen.len()
        invariant
            i <= chosen@.len(),
            forall|a: int, b: int| 0 <= a < b < i ==> chosen@[a] != chosen@[b],
            forall|a: int| 0 <= a < i ==> legal@.contains(#[trigger] chosen@[a]),
        decreases chosen@.len() - i,
    {
        if !contains_target(legal, chosen[i]) {
            return false;
        }
        let mut j: usize = 0;
        while j < i
            invariant
                j <= i,
                i < chosen@.len(),
                forall|a: int| 0 <= a < j ==> chosen@[a] != chosen@[i as int],
            decreases i - j,
        {
            if chosen[j] == chosen[i] {
                proof {
                    assert(!chosen@.no_duplicates());
                }
                return false;
            }
            j = j + 1;
        }
        i = i + 1;
    }
    true
}

/// A copy of a list of targets.
fn copy_targets(targets: &Vec<Target>) -> (copy: Vec<Target>)
    ensures
        copy@ == targets@,
{
    let mut copy: Vec<Target> = Vec::new();
    let mut i: usize = 0;
    while i < targets.len()
        invariant
            i <= targets@.len(),
            copy@ == targets@.take(i as int),
        decreases targets@.len() - i,
    {
        copy.push(targets[i]);
        proof {
            assert(targets@.take(i + 1) =~= targets@.take(i as int).push(targets@[i as int]));
        }
        i = i + 1;
    }
    proof {
        assert(targets@.take(i as int) =~= targets@);
    }
    copy
}

/// Whether the list holds this target.
fn contains_target(targets: &Vec<Target>, target: Target) -> (found: bool)
    ensures
        found == targets@.contains(target),
{
    let mut i: usize = 0;
    while i < targets.len()
        invariant
            i <= targets@.len(),
            forall|j: int| 0 <= j < i ==> targets@[j] != target,
        decreases targets@.len() - i,
    {
        if targets[i] == target {
            proof {
                assert(targets@[i as int] == target);
            }
            return true;
        }
        i = i + 1;
    }
    false
}

impl Game {
    /// How many untapped lands of the player tap for this colour.
    pub fn sources_of(&self, player: PlayerId, color: ManaColor) -> (count: usize)
        ensures
            count == self@.sources_of(player, color),
    {
        let mut count: usize = 0;
        let mut i: usize = 0;
        while i < self.battlefield.len()
            invariant
                i <= self.battlefield@.len(),
                count == self.battlefield@.take(i as int).filter_map(untapped_source_of(player, color)).len(),
                count <= i,
            decreases self.battlefield@.len() - i,
        {
            proof {
                self.battlefield@.lemma_filter_map_take_succ(untapped_source_of(player, color), i as int);
            }
            if is_untapped_source_of_exec(player, color, &self.battlefield[i]) {
                count = count + 1;
            }
            i = i + 1;
        }
        proof {
            assert(self.battlefield@.take(i as int) =~= self.battlefield@);
        }
        count
    }

    /// Whether the player's untapped lands can pay the spell's cost.
    pub fn can_pay(&self, player: PlayerId, spell: SpellDefinition) -> (can: bool)
        ensures
            can == self@.spec_can_pay(player, spell),
    {
        let c = spell.cost;
        let all = self.available_mana(player);
        let total: u64 = c.white as u64 + c.blue as u64 + c.black as u64 + c.red as u64 + c.green as u64
            + c.generic as u64;
        self.colors_available(player, spell) && all as u64 >= total
    }

    /// Enough sources of each colour the cost names.
    pub fn colors_available(&self, player: PlayerId, spell: SpellDefinition) -> (can: bool)
        ensures
            can == self@.spec_colors_available(player, spell),
    {
        let c = spell.cost;
        let white = self.sources_of(player, ManaColor::White);
        let blue = self.sources_of(player, ManaColor::Blue);
        let black = self.sources_of(player, ManaColor::Black);
        let red = self.sources_of(player, ManaColor::Red);
        let green = self.sources_of(player, ManaColor::Green);
        white >= c.white as usize && blue >= c.blue as usize && black >= c.black as usize && red >= c.red as usize
            && green >= c.green as usize
    }

    /// The greatest X the player can pay for a divided spell with this many
    /// targets, when there is one.
    pub fn max_x(&self, player: PlayerId, spell: SpellDefinition, target_count: usize) -> (max: Option<u16>)
        requires
            target_count >= 1,
        ensures
            match max {
                Some(m) => m == self@.max_x(player, spell, target_count as int),
                None => self@.max_x(player, spell, target_count as int) < 0,
            },
    {
        let c = spell.cost;
        let all = self.available_mana(player) as u128;
        let total: u128 = c.white as u128 + c.blue as u128 + c.black as u128 + c.red as u128 + c.green as u128
            + c.generic as u128;
        let extra = (target_count - 1) as u128;
        let record: u128 = 65535;
        if all < total + extra || record < c.generic as u128 + extra {
            return None;
        }
        let by_mana = all - total - extra;
        let by_record = record - c.generic as u128 - extra;
        if by_mana <= by_record {
            Some(by_mana as u16)
        } else {
            Some(by_record as u16)
        }
    }

    /// Whether the spell may be cast now (CR 307.1).
    pub fn may_cast_now(&self, player: PlayerId, spell: SpellDefinition) -> (may: bool)
        ensures
            may == self@.spec_may_cast_now(player, spell),
    {
        spell.instant || (player == self.active_player && self.step.is_main() && self.stack.len() == 0)
    }

    /// Whether a permanent is a creature or planeswalker this player's
    /// spell from `source` may target.
    pub fn damageable(&self, player: PlayerId, source: GameObjectId, permanent: &Permanent) -> (can: bool)
        requires
            self.wf(),
        ensures
            can == self@.damageable(player, source, *permanent),
    {
        (self.is_creature_permanent(permanent) || self.is_planeswalker_permanent(permanent))
            && self.permanent_can_be_targeted_by(permanent, player, source)
    }

    /// "Any target" for this player's spell from `source`.
    pub fn any_targets(&self, player: PlayerId, source: GameObjectId) -> (targets: Vec<Target>)
        requires
            self.wf(),
        ensures
            targets@ == self@.spec_any_targets(player, source),
    {
        let mut targets: Vec<Target> = Vec::new();
        targets.push(Target::Player(PlayerId::One));
        targets.push(Target::Player(PlayerId::Two));
        let ghost players = targets@;
        let mut i: usize = 0;
        while i < self.battlefield.len()
            invariant
                self.wf(),
                i <= self.battlefield@.len(),
                players == seq![Target::Player(PlayerId::One), Target::Player(PlayerId::Two)],
                targets@ == players + self.battlefield@.take(i as int).filter_map(self@.damageable_target(player, source)),
            decreases self.battlefield@.len() - i,
        {
            proof {
                self.battlefield@.lemma_filter_map_take_succ(self@.damageable_target(player, source), i as int);
            }
            if self.damageable(player, source, &self.battlefield[i]) {
                targets.push(Target::Permanent(self.battlefield[i].card.id));
            }
            i = i + 1;
        }
        proof {
            assert(self.battlefield@.take(i as int) =~= self.battlefield@);
            assert(players =~= seq![Target::Player(PlayerId::One), Target::Player(PlayerId::Two)]);
        }
        targets
    }

    /// The casts of one card the player may make now.
    fn add_spell_choices(&self, player: PlayerId, card: CardInstance, actions: &mut Vec<Action>)
        requires
            self.wf(),
        ensures
            actions_view(final(actions)@) == actions_view(old(actions)@) + self@.spell_choices(player, card),
    {
        let ghost start = actions_view(actions@);
        let spell = match spell_definition(card.definition) {
            Some(spell) => spell,
            None => {
                proof {
                    assert(start =~= start + Seq::<ActionView>::empty());
                }
                return;
            },
        };
        if !self.may_cast_now(player, spell) {
            proof {
                assert(start =~= start + Seq::<ActionView>::empty());
            }
            return;
        }
        match spell.effect {
            SpellEffect::DamageAnyTarget(_) => {
                if !self.can_pay(player, spell) {
                    proof {
                        assert(start =~= start + Seq::<ActionView>::empty());
                    }
                    return;
                }
                let targets = self.any_targets(player, card.id);
                casts_at(card.id, &targets, actions);
            },
            SpellEffect::Permanent => {
                if !self.can_pay(player, spell) {
                    proof {
                        assert(start =~= start + Seq::<ActionView>::empty());
                    }
                    return;
                }
                actions.push(Action::CastSpell { card: card.id, targets: Vec::new(), x: 0 });
                proof {
                    assert(actions_view(actions@) =~= start + seq![
                        ActionView::CastSpell { card: card.id, targets: Seq::empty(), x: 0 },
                    ]);
                }
            },
            SpellEffect::DividedDamage => {
                if !self.colors_available(player, spell) {
                    proof {
                        assert(start =~= start + Seq::<ActionView>::empty());
                    }
                    return;
                }
                self.add_divided_casts(player, card.id, spell, actions);
            },
        }
    }

    /// Adds the casts of a divided spell: at one to every legal target,
    /// fewer targets first, each with every X the player can pay.
    fn add_divided_casts(&self, player: PlayerId, card: GameObjectId, spell: SpellDefinition, actions: &mut Vec<Action>)
        requires
            self.wf(),
        ensures
            actions_view(final(actions)@) == actions_view(old(actions)@) + self@.divided_casts_upto(
                player,
                card,
                spell,
                self@.spec_any_targets(player, card),
                self@.spec_any_targets(player, card).len() as int,
            ),
    {
        let ghost start = actions_view(actions@);
        let targets = self.any_targets(player, card);
        let mut done: usize = 0;
        proof {
            assert(start =~= start + self@.divided_casts_upto(player, card, spell, targets@, 0));
        }
        while done < targets.len()
            invariant
                self.wf(),
                done <= targets@.len(),
                targets@ == self@.spec_any_targets(player, card),
                actions_view(actions@) == start + self@.divided_casts_upto(player, card, spell, targets@, done as int),
            decreases targets@.len() - done,
        {
            let k = done + 1;
            let choices = combinations_from(&targets, 0, k);
            proof {
                assert(targets@.subrange(0, targets@.len() as int) =~= targets@);
            }
            let ghost all = id_lists(choices@);
            let ghost before_k = actions_view(actions@);
            let mut j: usize = 0;
            while j < choices.len()
                invariant
                    self.wf(),
                    1 <= k <= targets@.len(),
                    j <= choices@.len(),
                    all == id_lists(choices@),
                    all == crate::decisions::combinations(targets@, k as nat),
                    actions_view(actions@) == before_k + self@.divided_casts_of(player, card, spell, all, j as int),
                decreases choices@.len() - j,
            {
                let chosen = &choices[j];
                proof {
                    assert(all[j as int] == chosen@);
                    crate::decisions::lemma_combination_shape(targets@, k as nat, j as int);
                }
                let ghost before_j = actions_view(actions@);
                match self.max_x(player, spell, chosen.len()) {
                    Some(max) => {
                        let mut x: u32 = 0;
                        while x <= max as u32
                            invariant
                                x <= max + 1,
                                actions_view(actions@) == before_j + x_casts(card, chosen@, x as int),
                            decreases max + 1 - x,
                        {
                            let copy = copy_targets(chosen);
                            let ghost pushed = actions_view(actions@);
                            actions.push(Action::CastSpell { card, targets: copy, x: x as u16 });
                            proof {
                                assert(actions_view(actions@) =~= pushed.push(
                                    ActionView::CastSpell { card, targets: chosen@, x: x as u16 },
                                ));
                            }
                            x = x + 1;
                        }
                        proof {
                            assert(x == max + 1);
                        }
                    },
                    None => {
                        proof {
                            assert(x_casts(card, chosen@, self@.max_x(player, spell, chosen@.len() as int) + 1)
                                =~= Seq::<ActionView>::empty());
                        }
                    },
                }
                proof {
                    assert(actions_view(actions@) =~= before_k + self@.divided_casts_of(
                        player,
                        card,
                        spell,
                        all,
                        j + 1,
                    ));
                }
                j = j + 1;
            }
            proof {
                assert(all.len() == choices@.len());
            }
            done = k;
        }
    }

    /// Adds every spell cast the player may make now, card by card in hand
    /// order, one per legal target.
    pub fn add_spell_actions(&self, player: PlayerId, actions: &mut Vec<Action>)
        requires
            self.wf(),
        ensures
            actions_view(final(actions)@) == actions_view(old(actions)@) + self@.spec_spell_actions(player),
    {
        let ghost start = actions_view(actions@);
        let index = player.index();
        let ghost hand = self@.player(player).hand;
        let mut i: usize = 0;
        while i < self.players[index].hand.len()
            invariant
                self.wf(),
                index == player.spec_index(),
                hand == self@.player(player).hand,
                i <= hand.len(),
                actions_view(actions@) == start + self@.spells_upto(player, hand, i as int),
            decreases hand.len() - i,
        {
            let card = self.players[index].hand[i];
            self.add_spell_choices(player, card, actions);
            proof {
                assert(start + self@.spells_upto(player, hand, i as int) + self@.spell_choices(player, hand[i as int])
                    =~= start + self@.spells_upto(player, hand, i + 1));
            }
            i = i + 1;
        }
    }

    /// Cast validation: the spell a cast of this card with these targets
    /// would be, or `None` when the cast is not one the player may make.
    pub fn validated_cast_signature(&self, player: PlayerId, card: GameObjectId, targets: &Vec<Target>, x: u16) -> (spell:
        Option<SpellDefinition>)
        requires
            self.wf(),
        ensures
            spell == self@.spec_validated_cast(player, card, targets@, x),
    {
        let found = match find_card(&self.players[player.index()].hand, card) {
            Some(found) => found,
            None => return None,
        };
        let spell = match spell_definition(found.definition) {
            Some(spell) => spell,
            None => return None,
        };
        if !self.may_cast_now(player, spell) {
            return None;
        }
        let valid = match spell.effect {
            SpellEffect::DamageAnyTarget(_) => {
                if !self.can_pay(player, spell) || x != 0 || targets.len() != 1 {
                    false
                } else {
                    let legal = self.any_targets(player, found.id);
                    contains_target(&legal, targets[0])
                }
            },
            SpellEffect::Permanent => self.can_pay(player, spell) && x == 0 && targets.len() == 0,
            SpellEffect::DividedDamage => {
                if !self.colors_available(player, spell) || targets.len() == 0 {
                    false
                } else {
                    let legal = self.any_targets(player, found.id);
                    let chosen_legal = distinct_legal_targets(&legal, targets);
                    match self.max_x(player, spell, targets.len()) {
                        Some(max) => chosen_legal && x <= max,
                        None => false,
                    }
                }
            },
        };
        if valid {
            Some(spell)
        } else {
            None
        }
    }

    /// Pays mana of one colour by tapping the player's first untapped
    /// sources of it.
    #[verifier::spinoff_prover]
    #[verifier::rlimit(40)]
    pub fn pay_color(&mut self, player: PlayerId, color: ManaColor, amount: u16)
        ensures
            final(self)@ == old(self)@.paid_color(player, color, amount),
    {
        let mut field: Vec<Permanent> = Vec::new();
        std::mem::swap(&mut field, &mut self.battlefield);
        let ghost initial = field@;
        let mut paid: Vec<Permanent> = Vec::new();
        let mut remaining: u16 = amount;
        let mut i: usize = 0;
        proof {
            assert(initial.subrange(0, initial.len() as int) =~= initial);
        }
        while i < field.len()
            invariant
                field@ == initial,
                i <= initial.len(),
                remaining <= amount,
                paid@ + tapped_for_color(
                    player,
                    color,
                    initial.subrange(i as int, initial.len() as int),
                    remaining as int,
                ) == tapped_for_color(player, color, initial, amount as int),
            decreases initial.len() - i,
        {
            let permanent = field[i];
            let ghost rest = initial.subrange(i as int, initial.len() as int);
            let ghost after = initial.subrange(i + 1, initial.len() as int);
            proof {
                assert(rest[0] == permanent);
                assert(rest.drop_first() =~= after);
            }
            if remaining > 0 && is_untapped_source_of_exec(player, color, &permanent) {
                let mut tapped = permanent;
                tapped.tapped = true;
                let ghost before = paid@;
                paid.push(tapped);
                remaining = remaining - 1;
                proof {
                    assert(paid@ =~= before + seq![tapped]);
                    assert(before + (seq![tapped] + tapped_for_color(player, color, after, remaining as int))
                        =~= paid@ + tapped_for_color(player, color, after, remaining as int));
                }
            } else {
                let ghost before = paid@;
                paid.push(permanent);
                proof {
                    assert(paid@ =~= before + seq![permanent]);
                    assert(before + (seq![permanent] + tapped_for_color(
                        player,
                        color,
                        after,
                        remaining as int,
                    )) =~= paid@ + tapped_for_color(player, color, after, remaining as int));
                }
            }
            i = i + 1;
        }
        proof {
            assert(initial.subrange(i as int, initial.len() as int) =~= Seq::<Permanent>::empty());
            assert(paid@ + Seq::<Permanent>::empty() =~= paid@);
        }
        self.battlefield = paid;
    }

    /// Casts a spell from the player's hand (CR 601.2): the card goes to
    /// the stack as a new object with its targets and its cost is paid.
    #[verifier::spinoff_prover]
    #[verifier::rlimit(60)]
    pub fn cast_spell(&mut self, player: PlayerId, card: GameObjectId, targets: Vec<Target>, x: u16)
        requires
            old(self).wf(),
            old(self).next_object_id < u32::MAX,
        ensures
            final(self)@ == old(self)@.spec_cast_spell(player, card, targets@, x),
            final(self).wf(),
            final(self).next_object_id <= old(self).next_object_id + 1,
    {
        let index = player.index();
        let ghost state = old(self)@.player(player);
        let found = match find_card(&self.players[index].hand, card) {
            Some(found) => found,
            None => return,
        };
        let ghost i = card_position(state.hand, card)->0;
        let spell = match spell_definition(found.definition) {
            Some(spell) => spell,
            None => return,
        };
        let added: u128 = match spell.effect {
            SpellEffect::DividedDamage => x as u128 + if targets.len() > 1 {
                (targets.len() - 1) as u128
            } else {
                0
            },
            _ => 0,
        };
        if spell.cost.generic as u128 + added > 65535 {
            return;
        }
        let generic = (spell.cost.generic as u128 + added) as u16;
        self.pay_color(player, ManaColor::White, spell.cost.white);
        self.pay_color(player, ManaColor::Blue, spell.cost.blue);
        self.pay_color(player, ManaColor::Black, spell.cost.black);
        self.pay_color(player, ManaColor::Red, spell.cost.red);
        self.pay_color(player, ManaColor::Green, spell.cost.green);
        self.pay_generic(player, generic);
        let ghost paid = self@;
        proof {
            assert(added == added_generic(spell, x, targets@.len() as int));
            assert(paid == old(self)@.spec_pay_spell(player, spell, added_generic(spell, x, targets@.len() as int)));
        }
        let taken = take_card(&mut self.players[index].hand, card);
        proof {
            assert(self@.players =~= paid.players.update(index as int, PlayerView { hand: state.hand.remove(i), ..state }));
        }
        let moved = self.zone_change_card(found);
        let ghost stack_before = self@.stack;
        let stacked = StackObject {
            id: moved.id,
            source: moved.id,
            definition: moved.definition,
            ability: AbilityId(0),
            controller: player,
            targets,
            spell: Some(moved),
            x,
        };
        self.stack.push(stacked);
        self.consecutive_passes = 0;
        proof {
            assert(self@.stack =~= stack_before.push(stacked@));
        }
    }

    /// The spell on top of the stack resolves: its effect happens if its
    /// target is still legal, then the card goes to its owner's graveyard.
    pub fn resolve_spell(&mut self, card: CardInstance)
        requires
            old(self).wf(),
            old(self).stack@.len() > 0,
            old(self).stack@.last().spell == Some(card),
            old(self).next_object_id < u32::MAX,
        ensures
            final(self)@ == old(self)@.spell_resolves(old(self)@.stack.last(), card),
            final(self).wf(),
            final(self).battlefield@.len() <= old(self).battlefield@.len() + 1,
            final(self).next_object_id <= old(self).next_object_id + 1,
    {
        if let Some(spell) = spell_definition(card.definition) {
            if spell.effect == SpellEffect::Permanent {
                let last = self.stack.len() - 1;
                let controller = self.stack[last].controller;
                proof {
                    assert(self.stack@[last as int]@ == self@.stack.last());
                }
                let ghost stack_before = self@.stack;
                self.stack.pop();
                proof {
                    assert(self@.stack =~= stack_before.drop_last());
                }
                let moved = self.zone_change_card(card);
                let turn = self.turns_started[controller.index()];
                let entering = Permanent::entering(moved, controller, turn);
                let ghost field_before = self@.battlefield;
                self.battlefield.push(entering);
                proof {
                    assert(self@.battlefield =~= field_before.push(entering));
                }
                return;
            }
        }
        self.resolve_nonpermanent(card);
    }

    #[verifier::spinoff_prover]
    #[verifier::rlimit(60)]
    fn resolve_nonpermanent(&mut self, card: CardInstance)
        requires
            old(self).wf(),
            old(self).stack@.len() > 0,
            old(self).stack@.last().spell == Some(card),
            old(self).next_object_id < u32::MAX,
        ensures
            final(self)@ == old(self)@.nonpermanent_resolves(old(self)@.stack.last(), card),
            final(self).wf(),
            final(self).battlefield@.len() == old(self).battlefield@.len(),
            final(self).next_object_id <= old(self).next_object_id + 1,
    {
        self.apply_spell_effect(card);
        let ghost hit = self@;
        let ghost stack_before = self@.stack;
        self.stack.pop();
        proof {
            assert(self@.stack =~= stack_before.drop_last());
            assert(self@ == GameView { stack: hit.stack.drop_last(), ..hit });
        }
        let moved = self.zone_change_card(card);
        self.put_card_in_zone(moved, ZoneKind::Graveyard, ZonePlacement::Top);
    }

    fn apply_spell_effect(&mut self, card: CardInstance)
        requires
            old(self).wf(),
            old(self).stack@.len() > 0,
        ensures
            final(self)@ == old(self)@.spell_effect(old(self)@.stack.last(), card),
            final(self).wf(),
            final(self).battlefield@.len() == old(self).battlefield@.len(),
            final(self).next_object_id == old(self).next_object_id,
            final(self)@.stack.len() == old(self)@.stack.len(),
            final(self).stack@.len() > 0,
    {
        let ghost top = self@.stack.last();
        let last = self.stack.len() - 1;
        let id = self.stack[last].id;
        let controller = self.stack[last].controller;
        let target = if self.stack[last].targets.len() == 1 {
            Some(self.stack[last].targets[0])
        } else {
            None
        };
        proof {
            assert(self.stack@[last as int]@ == top);
        }
        match spell_definition(card.definition) {
            Some(spell) => match spell.effect {
                SpellEffect::DamageAnyTarget(amount) => {
                    if let Some(target) = target {
                        if self.still_legal(controller, id, target) {
                            self.damage_target_from_kind(Some(id), Some(target), amount, false);
                        }
                    }
                },
                SpellEffect::Permanent => {},
                SpellEffect::DividedDamage => self.resolve_divided(),
            },
            None => {},
        }
    }

    /// A divided spell on top of the stack deals each target it still may
    /// its share: X divided by the number of targets, rounded down.
    fn resolve_divided(&mut self)
        requires
            old(self).wf(),
            old(self).stack@.len() > 0,
        ensures
            final(self)@ == (if old(self)@.stack.last().targets.len() > 0 {
                old(self)@.divided_hits(
                    old(self)@,
                    old(self)@.stack.last(),
                    ((old(self)@.stack.last().x as int) / (old(self)@.stack.last().targets.len() as int)) as u16,
                    old(self)@.stack.last().targets.len() as int,
                )
            } else {
                old(self)@
            }),
            final(self).wf(),
            final(self).battlefield@.len() == old(self).battlefield@.len(),
            final(self).next_object_id == old(self).next_object_id,
            final(self)@.stack.len() == old(self)@.stack.len(),
    {
        let ghost origin = self@;
        let ghost top = self@.stack.last();
        let last = self.stack.len() - 1;
        proof {
            assert(self.stack@[last as int]@ == top);
        }
        let count = self.stack[last].targets.len();
        if count == 0 {
            return;
        }
        let id = self.stack[last].id;
        let controller = self.stack[last].controller;
        let x = self.stack[last].x;
        let share: u16 = if count > 65535 {
            0
        } else {
            x / (count as u16)
        };
        proof {
            assert(share == ((x as int) / (count as int)) as u16) by (nonlinear_arith)
                requires
                    count >= 1,
                    count > 65535 ==> share == 0,
                    count <= 65535 ==> share == x / (count as u16),
                    x <= 65535,
            ;
        }
        let chosen = copy_targets(&self.stack[last].targets);
        let mut legal: Vec<bool> = Vec::new();
        let mut i: usize = 0;
        while i < count
            invariant
                self@ == origin,
                self.wf(),
                count == top.targets.len(),
                chosen@ == top.targets,
                i <= count,
                legal@.len() == i,
                forall|j: int| 0 <= j < i ==> legal@[j] == origin.target_still_legal(controller, id, top.targets[j]),
            decreases count - i,
        {
            let target = chosen[i];
            legal.push(self.still_legal(controller, id, target));
            i = i + 1;
        }
        let mut targets: Vec<Target> = Vec::new();
        let mut n: usize = 0;
        while n < count
            invariant
                self.wf(),
                n <= count,
                count == top.targets.len(),
                legal@.len() == count,
                chosen@ == top.targets,
                id == top.id,
                controller == top.controller,
                forall|j: int| 0 <= j < count ==> legal@[j] == origin.target_still_legal(controller, id, top.targets[j]),
                self@ == origin.divided_hits(origin, top, share, n as int),
                self@.stack.len() == origin.stack.len(),
                self.battlefield@.len() == origin.battlefield.len(),
                self.next_object_id == origin.next_object_id,
            decreases count - n,
        {
            let target = chosen[n];
            if legal[n] {
                self.damage_target_from_kind(Some(id), Some(target), share, false);
            }
            n = n + 1;
        }
    }

    /// Whether a spell's target is still legal as it resolves.
    pub fn still_legal(&self, player: PlayerId, source: GameObjectId, target: Target) -> (legal: bool)
        requires
            self.wf(),
        ensures
            legal == self@.target_still_legal(player, source, target),
    {
        match target {
            Target::Player(_) => true,
            Target::Permanent(id) => match self.permanent_position(id) {
                Some(i) => self.damageable(player, source, &self.battlefield[i]),
                None => false,
            },
            _ => false,
        }
    }
}

} // verus!
