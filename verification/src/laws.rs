//! What holds of the engine as a whole: properties of every input, stated
//! over the same models the operations' contracts use.
use vstd::prelude::*;

use crate::damage_delivery::{amount_of, distributions, distributions_upto, prefixed, zip_assignments};
use crate::ids::{GameObjectId, PlayerId};
use crate::card::{KeywordAbility, KeywordSet};
use crate::damage::{life_after_gain, life_after_loss};
use crate::mana_payments::{life_upto, phyrexian_upto, FlexibleManaPayment};
use crate::banding::{attacking_with, band_member, banded, highest_band, next_band};
use crate::characteristics::card_with;
use crate::loyalty::LoyaltyEffect;
use crate::mana::{is_untapped_source, tapped_for};
use crate::state::{
    card_position, first_card_index, is_first_match, lemma_first_card_index_unique, lemma_first_match_found, ActionView, CardInstance, CombatDamageAssignment, CompanionState,
    GameView, Permanent, StackView, StageView, Target,
};

verus! {

/// The total of a list of damage amounts.
pub open spec fn total_of(amounts: Seq<u16>) -> int
    decreases amounts.len(),
{
    if amounts.len() == 0 {
        0
    } else {
        amounts[0] + total_of(amounts.drop_first())
    }
}

/// The total damage a list of assignments hands out.
pub open spec fn assigned_total(assignments: Seq<CombatDamageAssignment>) -> int
    decreases assignments.len(),
{
    if assignments.len() == 0 {
        0
    } else {
        assignments[0].amount + assigned_total(assignments.drop_first())
    }
}

proof fn lemma_prefixed_sound(amount: u16, tails: Seq<Seq<u16>>, count: nat, total: nat)
    requires
        amount <= total,
        forall|j: int| 0 <= j < tails.len() ==> (#[trigger] tails[j]).len() == count && total_of(tails[j]) == total
            - amount,
    ensures
        forall|j: int|
            0 <= j < prefixed(amount, tails).len() ==> (#[trigger] prefixed(amount, tails)[j]).len() == count + 1
                && total_of(prefixed(amount, tails)[j]) == total,
{
    assert forall|j: int| 0 <= j < prefixed(amount, tails).len() implies (#[trigger] prefixed(
        amount,
        tails,
    )[j]).len() == count + 1 && total_of(prefixed(amount, tails)[j]) == total by {
        let d = prefixed(amount, tails)[j];
        assert(d == seq![amount] + tails[j]);
        assert(d[0] == amount);
        assert(d.drop_first() =~= tails[j]);
    }
}

proof fn lemma_distributions_upto_sound(count: nat, total: nat, k: nat)
    requires
        total <= u16::MAX,
    ensures
        forall|j: int|
            0 <= j < distributions_upto(count, total, k).len() ==> (#[trigger] distributions_upto(
                count,
                total,
                k,
            )[j]).len() == count && total_of(distributions_upto(count, total, k)[j]) == total,
    decreases count, k,
{
    if count == 0 || k == 0 || k > total + 1 {
    } else {
        lemma_distributions_upto_sound(count, total, (k - 1) as nat);
        distributions_are_divisions((count - 1) as nat, (total - (k - 1)) as nat);
        let earlier = distributions_upto(count, total, (k - 1) as nat);
        let tails = distributions((count - 1) as nat, (total - (k - 1)) as nat);
        assert(((k - 1) as u16) == k - 1);
        assert forall|j: int| 0 <= j < tails.len() implies (#[trigger] tails[j]).len() == (count - 1) as nat
            && total_of(tails[j]) == total - ((k - 1) as u16) by {}
        lemma_prefixed_sound((k - 1) as u16, tails, (count - 1) as nat, total);
        let all = distributions_upto(count, total, k);
        assert(all == earlier + prefixed((k - 1) as u16, tails));
        assert forall|j: int| 0 <= j < all.len() implies (#[trigger] all[j]).len() == count && total_of(all[j])
            == total by {
            if j < earlier.len() {
                assert(all[j] == earlier[j]);
            } else {
                assert(all[j] == prefixed((k - 1) as u16, tails)[j - earlier.len()]);
            }
        }
    }
}

/// Every division of `total` damage among `count` recipients has one
/// amount per recipient, and the amounts add up to `total`.
pub proof fn distributions_are_divisions(count: nat, total: nat)
    requires
        total <= u16::MAX,
    ensures
        forall|j: int|
            0 <= j < distributions(count, total).len() ==> (#[trigger] distributions(count, total)[j]).len()
                == count && total_of(distributions(count, total)[j]) == total,
    decreases count, total + 2,
{
    if count == 0 {
        if total == 0 {
            assert(distributions(count, total)[0] =~= Seq::<u16>::empty());
        }
    } else {
        lemma_distributions_upto_sound(count, total, total + 1);
        assert(distributions(count, total) == distributions_upto(count, total, total + 1));
    }
}

proof fn lemma_upto_complete(count: nat, total: nat, k: nat, division: Seq<u16>)
    requires
        count > 0,
        total <= u16::MAX,
        division.len() == count,
        total_of(division) == total,
        division[0] < k <= total + 1,
    ensures
        distributions_upto(count, total, k).contains(division),
    decreases count, k,
{
    let earlier = distributions_upto(count, total, (k - 1) as nat);
    let tails = distributions((count - 1) as nat, (total - (k - 1)) as nat);
    let all = distributions_upto(count, total, k);
    assert(all == earlier + prefixed((k - 1) as u16, tails));
    if division[0] < k - 1 {
        lemma_upto_complete(count, total, (k - 1) as nat, division);
        let j = choose|j: int| 0 <= j < earlier.len() && earlier[j] == division;
        assert(all[j] == division);
    } else {
        let tail = division.drop_first();
        assert(total_of(division) == division[0] + total_of(tail));
        every_division_is_listed((count - 1) as nat, (total - (k - 1)) as nat, tail);
        let j = choose|j: int| 0 <= j < tails.len() && tails[j] == tail;
        assert(prefixed((k - 1) as u16, tails)[j] == seq![(k - 1) as u16] + tail);
        assert(seq![(k - 1) as u16] + tail =~= division);
        assert(all[earlier.len() + j] == division);
    }
}

/// Every division of `total` among `count` recipients is listed: no way
/// of dividing the damage is missing.
pub proof fn every_division_is_listed(count: nat, total: nat, division: Seq<u16>)
    requires
        total <= u16::MAX,
        division.len() == count,
        total_of(division) == total,
    ensures
        distributions(count, total).contains(division),
    decreases count, total + 2,
{
    if count == 0 {
        assert(division =~= Seq::<u16>::empty());
        assert(distributions(count, total)[0] == division);
    } else {
        assert(total_of(division) == division[0] + total_of(division.drop_first()));
        lemma_total_nonnegative(division.drop_first());
        lemma_upto_complete(count, total, total + 1, division);
        assert(distributions(count, total) == distributions_upto(count, total, total + 1));
    }
}

proof fn lemma_total_nonnegative(amounts: Seq<u16>)
    ensures
        total_of(amounts) >= 0,
    decreases amounts.len(),
{
    if amounts.len() > 0 {
        lemma_total_nonnegative(amounts.drop_first());
    }
}

proof fn lemma_zip_total(recipients: Seq<Target>, amounts: Seq<u16>)
    requires
        recipients.len() == amounts.len(),
    ensures
        assigned_total(zip_assignments(recipients, amounts)) == total_of(amounts),
        zip_assignments(recipients, amounts).len() == recipients.len(),
    decreases amounts.len(),
{
    if amounts.len() > 0 {
        lemma_zip_total(recipients.drop_first(), amounts.drop_first());
        assert(zip_assignments(recipients, amounts).drop_first() =~= zip_assignments(
            recipients.drop_first(),
            amounts.drop_first(),
        ));
    }
}

/// Every legal division of an attacker's combat damage hands each
/// recipient (its blockers in id order, then, with trample, its defender)
/// one share, the shares add up to exactly the attacker's power, and
/// damage reaches the defender only once every blocker has lethal damage
/// (CR 702.19b).
pub proof fn combat_assignments_divide_power(game: GameView, attacker: GameObjectId, action: ActionView)
    requires
        game.spec_combat_assignment_actions(attacker).contains(action),
    ensures
        crate::state::permanent_with(game.battlefield, attacker) matches Some(permanent) && (action matches ActionView::AssignCombatDamage { attacker: named, assignments } && named == attacker
            && assignments.len() == game.assignment_recipients(permanent).len() && assigned_total(
            assignments,
        ) == amount_of(game.power_of(permanent)) as int && exists|amounts: Seq<u16>|
            assignments == zip_assignments(game.assignment_recipients(permanent), amounts)
                && #[trigger] game.division_allowed(permanent, amounts)),
{
    let permanent = crate::state::permanent_with(game.battlefield, attacker)->0;
    let recipients = game.assignment_recipients(permanent);
    let all = distributions(recipients.len(), amount_of(game.power_of(permanent)) as nat);
    all.lemma_filter_map_contains(game.assignment_choice(permanent), action);
    let amounts = choose|amounts: Seq<u16>| #[trigger] all.contains(amounts) && game.assignment_choice(
        permanent,
    )(amounts) == Some(action);
    distributions_are_divisions(recipients.len(), amount_of(game.power_of(permanent)) as nat);
    let j = choose|j: int| 0 <= j < all.len() && all[j] == amounts;
    assert(all[j].len() == recipients.len());
    lemma_zip_total(recipients, amounts);
}


proof fn lemma_no_loyalty_while_stack_used(game: GameView, player: PlayerId, k: int)
    requires
        game.stack.len() > 0,
    ensures
        game.loyalty_actions_upto(player, k) =~= Seq::<ActionView>::empty(),
    decreases k,
{
    if k > 0 {
        lemma_no_loyalty_while_stack_used(game, player, k - 1);
        assert(game.permanent_activations(player, game.battlefield[k - 1]) =~= Seq::<ActionView>::empty());
    }
}

/// Loyalty abilities are activated only as a sorcery: while anything is on
/// the stack, no player can activate one.
pub proof fn no_loyalty_activation_while_stack_is_used(game: GameView, player: PlayerId)
    requires
        game.stack.len() > 0,
    ensures
        game.spec_loyalty_actions(player) =~= Seq::<ActionView>::empty(),
{
    lemma_no_loyalty_while_stack_used(game, player, game.battlefield.len() as int);
}

/// A planeswalker's loyalty ability is activated once per turn: the
/// planeswalker that just paid offers no activation until the turn resets,
/// and nothing else can be activated while its ability is on the stack.
pub proof fn loyalty_once_per_turn(game: GameView, player: PlayerId, i: int, index: int, targets: Seq<Target>)
    requires
        0 <= i < game.battlefield.len(),
        0 <= index < crate::loyalty::spec_loyalty_abilities(game.battlefield[i].card.definition).len(),
    ensures
        ({
            let after = game.stacked_activation(player, i, index, targets);
            &&& after.battlefield[i].loyalty_ability_activated
            &&& after.permanent_activations(player, after.battlefield[i]) =~= Seq::<ActionView>::empty()
            &&& after.spec_loyalty_actions(player) =~= Seq::<ActionView>::empty()
        }),
{
    let after = game.stacked_activation(player, i, index, targets);
    no_loyalty_activation_while_stack_is_used(after, player);
}

/// One land per turn: once a land has been played from the hand, the
/// player is offered no other land play that turn.
pub proof fn one_land_per_turn(game: GameView, player: PlayerId, card: GameObjectId)
    requires
        game.wf(),
        crate::state::card_position(game.player(player).hand, card) matches Some(i) && crate::card::catalog(
            game.player(player).hand[i].definition,
        ) matches Some(definition) && definition.types.land,
    ensures
        game.spec_play_land(player, card).spec_land_actions(player) =~= Seq::<ActionView>::empty(),
{
}

/// Taking a companion is a once-per-game special action: after it has
/// been taken, the player is never offered it again.
pub proof fn companion_taken_once(game: GameView, player: PlayerId, card: GameObjectId)
    requires
        game.wf(),
        crate::state::card_position(game.player(player).outside_game, card) is Some,
        game.player(player).companion matches Some(chosen) && !chosen.used && chosen.card == card,
    ensures
        game.spec_take_companion(player, card).spec_companion_actions(player) =~= Seq::<ActionView>::empty(),
{
    let state = game.player(player);
    let chosen = state.companion->0;
    let after = game.spec_take_companion(player, card);
    assert(after.player(player).companion == Some(CompanionState { used: true, ..chosen }));
}

/// Paying Phyrexian symbols with life costs 2 life each: whenever a
/// choice's life bill exists, it is twice the number of symbols it pays
/// with life.
pub proof fn life_paid_is_two_per_phyrexian_symbol(alternatives: Seq<FlexibleManaPayment>, k: int)
    ensures
        life_upto(alternatives, k) matches Some(life) ==> (phyrexian_upto(alternatives, k) matches Some(
            count,
        ) && life == 2 * count),
    decreases k,
{
    if k > 0 {
        life_paid_is_two_per_phyrexian_symbol(alternatives, k - 1);
    }
}

/// Who deals damage in which combat-damage step (CR 510.4): a combatant
/// with double strike in both, one with first strike only in the
/// first-strike step, and every other combatant only in the regular step.
pub proof fn first_strike_and_double_strike_steps(game: GameView, i: int)
    requires
        0 <= i < game.battlefield.len(),
        game.battlefield[i].attacking || game.battlefield[i].blocking is Some,
        forall|j: int| 0 <= j < game.battlefield.len() && j != i ==> game.battlefield[j].card.id
            != game.battlefield[i].card.id,
        game.combat_damage_stage == StageView::FirstStrike(game.battlefield.filter_map(game.strike_wave_member())),
    ensures
        ({
            let combatant = game.battlefield[i];
            let double = game.has_keyword(combatant, KeywordAbility::DoubleStrike);
            let first = game.has_keyword(combatant, KeywordAbility::FirstStrike);
            let regular = GameView {
                combat_damage_stage: StageView::RegularAfterFirstStrike(
                    game.battlefield.filter_map(game.strike_wave_member()),
                ),
                ..game
            };
            &&& game.spec_deals_damage_now(combatant) == (first || double)
            &&& regular.spec_deals_damage_now(combatant) == (double || !first)
        }),
{
    let combatant = game.battlefield[i];
    let wave = game.battlefield.filter_map(game.strike_wave_member());
    if game.strike_wave_member()(combatant) is Some {
        lemma_filter_map_keeps(game.battlefield, game.strike_wave_member(), i);
    }
    if wave.contains(combatant.card.id) {
        game.battlefield.lemma_filter_map_contains(game.strike_wave_member(), combatant.card.id);
        let other = choose|t: Permanent| #[trigger] game.battlefield.contains(t) && game.strike_wave_member()(t)
            == Some(combatant.card.id);
        let j = choose|j: int| 0 <= j < game.battlefield.len() && game.battlefield[j] == other;
        assert(j == i);
    }
}

/// What a filter-map keeps: the image of every element it maps.
pub proof fn lemma_filter_map_keeps<A, B>(items: Seq<A>, f: spec_fn(A) -> Option<B>, i: int)
    requires
        0 <= i < items.len(),
        f(items[i]) is Some,
    ensures
        items.filter_map(f).contains(f(items[i])->0),
    decreases items.len(),
{
    if i == items.len() - 1 {
        let kept = items.filter_map(f);
        assert(kept == items.drop_last().filter_map(f) + seq![f(items[i])->0]);
        assert(kept[kept.len() - 1] == f(items[i])->0);
    } else {
        lemma_filter_map_keeps(items.drop_last(), f, i);
        let earlier = items.drop_last().filter_map(f);
        let j = choose|j: int| 0 <= j < earlier.len() && earlier[j] == f(items[i])->0;
        let kept = items.filter_map(f);
        assert(kept[j] == earlier[j]);
    }
}

/// A new turn: the new active player's permanents untap, and damage,
/// temporary keywords and each planeswalker's activation wear off.
pub proof fn new_turn_untaps_and_heals(game: GameView, i: int)
    requires
        0 <= i < game.battlefield.len(),
    ensures
        ({
            let after = game.spec_begin_turn();
            let permanent = after.battlefield[i];
            &&& after.active_player == game.active_player.spec_opponent()
            &&& (permanent.controller == after.active_player ==> !permanent.tapped)
            &&& permanent.damage == 0
            &&& permanent.granted == KeywordSet::spec_none()
            &&& !permanent.loyalty_ability_activated
            &&& permanent.card == game.battlefield[i].card
        }),
{
}

/// After combat nothing is attacking, blocking or blocked, and no combat
/// damage is waiting to be assigned.
pub proof fn combat_ends_cleanly(game: GameView, i: int)
    requires
        0 <= i < game.battlefield.len(),
    ensures
        ({
            let after = game.spec_end_combat();
            &&& !after.battlefield[i].attacking
            &&& after.battlefield[i].blocking is None
            &&& !after.battlefield[i].blocked
            &&& after.battlefield[i].attacking_band is None
            &&& after.pending_combat_attackers.len() == 0
            &&& after.combat_damage_assignments.len() == 0
        }),
{
}

/// Only the player the game waits on has anything to do, and nobody has
/// once the game is over.
pub proof fn only_the_acting_player_acts(game: GameView, player: PlayerId)
    requires
        game.winner is Some || player != game.spec_acting_player(),
    ensures
        game.spec_legal_actions(player) =~= Seq::<ActionView>::empty(),
{
    reveal(GameView::spec_legal_actions);
}


/// The loyalty ultimate's emblem: once it resolves, every creature its
/// controller controls has double strike, trample, hexproof and haste.
pub proof fn ultimate_emblem_grants_keywords(game: GameView, top: StackView, creature: Permanent)
    requires
        crate::loyalty::loyalty_ability_of(top.definition, top.ability) matches Some(ability) && ability.effect
            == LoyaltyEffect::Emblem,
        creature.controller == top.controller,
        game.is_creature(creature),
    ensures
        ({
            let after = game.loyalty_effect(top);
            &&& after.has_keyword(creature, KeywordAbility::DoubleStrike)
            &&& after.has_keyword(creature, KeywordAbility::Trample)
            &&& after.has_keyword(creature, KeywordAbility::Hexproof)
            &&& after.has_keyword(creature, KeywordAbility::Haste)
        }),
{
    let after = game.loyalty_effect(top);
    assert(after.emblems.drop_last() =~= game.emblems);
}

/// No game goes on with exactly one player at 0 or less life: once
/// state-based actions have been checked, either someone has won or the
/// players' lives are not one above and one at or below zero.
pub proof fn state_based_actions_decide_the_loser(game: GameView)
    ensures
        ({
            let after = game.spec_state_based_actions();
            after.winner is None ==> !(after.life(PlayerId::One) <= 0 && after.life(PlayerId::Two) > 0) && !(
            after.life(PlayerId::Two) <= 0 && after.life(PlayerId::One) > 0)
        }),
{
    reveal(GameView::spec_state_based_actions);
}

proof fn lemma_band_action_ordered(game: GameView, one: GameObjectId, other: GameObjectId, action: ActionView)
    requires
        game.band_action(one, other).contains(action),
    ensures
        action matches ActionView::BandAttackers { first, second } && first.0 <= second.0
            && game.spec_groups_may_band(first, second),
{
}

proof fn lemma_band_actions_with_ordered(game: GameView, attackers: Seq<GameObjectId>, i: int, n: int, action: ActionView)
    requires
        game.band_actions_with(attackers, i, n).contains(action),
    ensures
        action matches ActionView::BandAttackers { first, second } && first.0 <= second.0
            && game.spec_groups_may_band(first, second),
    decreases n - i,
{
    if n > i + 1 {
        let earlier = game.band_actions_with(attackers, i, n - 1);
        let last = game.band_action(attackers[i], attackers[n - 1]);
        let k = choose|k: int| 0 <= k < (earlier + last).len() && (earlier + last)[k] == action;
        if k < earlier.len() {
            assert(earlier[k] == action);
            lemma_band_actions_with_ordered(game, attackers, i, n - 1, action);
        } else {
            assert(last[k - earlier.len()] == action);
            lemma_band_action_ordered(game, attackers[i], attackers[n - 1], action);
        }
    }
}

proof fn lemma_band_actions_upto_ordered(game: GameView, attackers: Seq<GameObjectId>, k: int, action: ActionView)
    requires
        game.band_actions_upto(attackers, k).contains(action),
    ensures
        action matches ActionView::BandAttackers { first, second } && first.0 <= second.0
            && game.spec_groups_may_band(first, second),
    decreases k,
{
    if k > 0 {
        let earlier = game.band_actions_upto(attackers, k - 1);
        let more = game.band_actions_with(attackers, k - 1, attackers.len() as int);
        let m = choose|m: int| 0 <= m < (earlier + more).len() && (earlier + more)[m] == action;
        if m < earlier.len() {
            assert(earlier[m] == action);
            lemma_band_actions_upto_ordered(game, attackers, k - 1, action);
        } else {
            assert(more[m - earlier.len()] == action);
            lemma_band_actions_with_ordered(game, attackers, k - 1, attackers.len() as int, action);
        }
    }
}

/// Every band the player is offered names its two groups in object-id
/// order and is one the rules allow to form.
pub proof fn band_offers_are_ordered_and_allowed(game: GameView, player: PlayerId, action: ActionView)
    requires
        game.spec_band_actions(player).contains(action),
    ensures
        action matches ActionView::BandAttackers { first, second } && first.0 <= second.0
            && game.spec_groups_may_band(first, second),
{
    let attackers = game.battlefield.filter_map(crate::banding::attacker_of(player));
    lemma_band_actions_upto_ordered(game, attackers, attackers.len() as int, action);
}


proof fn lemma_member_after_banding(game: GameView, first: GameObjectId, second: GameObjectId, x: GameObjectId)
    requires
        x == first || x == second,
        game.spec_attacking_permanent(x) is Some,
    ensures
        ({
            let after = game.spec_form_band(first, second);
            after.spec_attacking_permanent(x) matches Some(permanent) && permanent.attacking_band == Some(
                next_band(game.battlefield),
            )
        }),
{
    let battlefield = game.battlefield;
    let members = game.spec_band_group(first) + game.spec_band_group(second);
    let band = next_band(battlefield);
    let after = game.spec_form_band(first, second);
    let pred = attacking_with(x);
    let i = choose|i: int| is_first_match(battlefield, pred, i);
    lemma_first_match_found(battlefield, pred, i);
    let permanent = battlefield[i];
    let group = game.spec_band_group(x);
    match permanent.attacking_band {
        None => {
            assert(group =~= seq![x]);
            assert(group[0] == x);
        },
        Some(own) => {
            lemma_filter_map_keeps(battlefield, band_member(own), i);
        },
    }
    assert(group.contains(x));
    if x == first {
        let k = choose|k: int| 0 <= k < group.len() && group[k] == x;
        assert(members[k] == x);
    } else {
        let k = choose|k: int| 0 <= k < group.len() && group[k] == x;
        assert(members[game.spec_band_group(first).len() + k] == x);
    }
    assert(members.contains(x));
    assert(after.battlefield[i] == banded(members, band)(permanent));
    assert forall|j: int| 0 <= j < i implies !pred(#[trigger] after.battlefield[j]) by {
        assert(after.battlefield[j] == banded(members, band)(battlefield[j]));
        assert(!pred(battlefield[j]));
    }
    assert(is_first_match(after.battlefield, pred, i));
    lemma_first_match_found(after.battlefield, pred, i);
}

/// Declaring a band puts both groups into one band: afterwards the two
/// attackers named share it.
pub proof fn formed_band_is_shared(game: GameView, first: GameObjectId, second: GameObjectId)
    requires
        game.spec_attacking_permanent(first) is Some,
        game.spec_attacking_permanent(second) is Some,
    ensures
        game.spec_form_band(first, second).spec_share_a_band(first, second),
{
    lemma_member_after_banding(game, first, second, first);
    lemma_member_after_banding(game, first, second, second);
}

proof fn lemma_highest_band_bounds(battlefield: Seq<Permanent>, i: int)
    requires
        0 <= i < battlefield.len(),
        battlefield[i].attacking_band is Some,
    ensures
        highest_band(battlefield) matches Some(highest) && battlefield[i].attacking_band->0 <= highest,
    decreases battlefield.len(),
{
    if i < battlefield.len() - 1 {
        lemma_highest_band_bounds(battlefield.drop_last(), i);
    }
}

/// A new band never reuses an index in play (which would silently join a
/// third band): unless the indices are exhausted, it is past every one.
pub proof fn new_band_index_is_unused(battlefield: Seq<Permanent>, i: int)
    requires
        0 <= i < battlefield.len(),
        highest_band(battlefield) matches Some(highest) ==> highest < u32::MAX,
    ensures
        battlefield[i].attacking_band != Some(next_band(battlefield)),
{
    if battlefield[i].attacking_band is Some {
        lemma_highest_band_bounds(battlefield, i);
    }
}

/// A card that changes zones becomes a new object: it keeps its definition
/// and owner, takes the next object id, and the next id moves on.
pub proof fn zone_change_gives_a_new_object(game: GameView, card: CardInstance)
    requires
        game.next_object_id < u32::MAX,
    ensures
        ({
            let (after, moved) = game.zone_change(card);
            &&& moved.id == GameObjectId(game.next_object_id)
            &&& moved.definition == card.definition
            &&& moved.owner == card.owner
            &&& after.next_object_id == game.next_object_id + 1
            &&& after.battlefield == game.battlefield
            &&& after.players == game.players
        }),
{
}


/// Damage to a player costs them that much life (CR 120.3a), and a source
/// with lifelink gains its controller as much (CR 702.15b).
pub proof fn damage_to_a_player_costs_that_much_life(
    game: GameView,
    source: Option<GameObjectId>,
    player: PlayerId,
    amount: u16,
    combat: bool,
)
    requires
        game.wf(),
        amount > 0,
    ensures
        ({
            let (after, dealt) = game.spec_damage(source, Some(Target::Player(player)), amount, combat);
            let lifelink = match source {
                Some(source) => game.spec_source_controller_with_keyword(source, KeywordAbility::Lifelink),
                None => None,
            };
            &&& dealt == amount
            &&& lifelink != Some(player) ==> after.life(player) == life_after_loss(game.life(player), amount)
            &&& (lifelink is Some && lifelink->0 != player ==> after.life(lifelink->0) == life_after_gain(
                game.life(lifelink->0),
                amount,
            ))
        }),
{
}

/// Damage to a permanent with protection from a colour of its source is
/// prevented: nothing is dealt and nothing changes (CR 702.16e).
pub proof fn protection_prevents_damage(
    game: GameView,
    source: GameObjectId,
    id: GameObjectId,
    amount: u16,
    combat: bool,
)
    requires
        crate::state::permanent_with(game.battlefield, id) matches Some(permanent) && game.spec_is_protected_from(
            permanent,
            game.spec_object_colors(source),
        ),
    ensures
        game.spec_damage(Some(source), Some(Target::Permanent(id)), amount, combat) == (game, 0u16),
{
}


/// Paying generic mana only taps lands: every permanent stays where it
/// is, either untouched or now tapped, and only untapped lands of the
/// paying player are the ones tapped.
pub proof fn paying_mana_only_taps(player: PlayerId, permanents: Seq<Permanent>, amount: int)
    ensures
        ({
            let paid = tapped_for(player, permanents, amount);
            &&& paid.len() == permanents.len()
            &&& forall|i: int|
                0 <= i < permanents.len() ==> #[trigger] paid[i] == permanents[i] || (paid[i] == Permanent {
                    tapped: true,
                    ..permanents[i]
                } && is_untapped_source(player, permanents[i]))
        }),
    decreases permanents.len(),
{
    if permanents.len() > 0 {
        let first = permanents[0];
        let rest = permanents.drop_first();
        let taps = amount > 0 && is_untapped_source(player, first);
        let next = if taps {
            amount - 1
        } else {
            amount
        };
        paying_mana_only_taps(player, rest, next);
        let paid = tapped_for(player, permanents, amount);
        let head = if taps {
            Permanent { tapped: true, ..first }
        } else {
            first
        };
        assert(paid == seq![head] + tapped_for(player, rest, next));
        assert forall|i: int| 0 <= i < permanents.len() implies #[trigger] paid[i] == permanents[i] || (paid[i]
            == Permanent { tapped: true, ..permanents[i] } && is_untapped_source(player, permanents[i])) by {
            if i > 0 {
                assert(paid[i] == tapped_for(player, rest, next)[i - 1]);
                assert(permanents[i] == rest[i - 1]);
            }
        }
    }
}


/// Asking for a companion leaves a consistent checkpoint: when a player
/// with an eligible card is asked before any hand or designation exists,
/// the pending question offers exactly the eligible cards.
pub proof fn companion_question_is_consistent(game: GameView, player: PlayerId)
    requires
        game.wf(),
        game.pending_decisions.len() == 0,
        game.players[0].hand.len() == 0,
        game.players[1].hand.len() == 0,
        game.player(player).companion is None,
        game.spec_eligible_companions(player).len() > 0,
    ensures
        game.spec_begin_companion_selection(player).companion_checkpoint_error() is None,
{
    let after = game.spec_begin_companion_selection(player);
    assert(after.players == game.players);
    assert(after.spec_eligible_companions(player) == game.spec_eligible_companions(player));
    assert(after.pending_decisions[0].options == game.spec_eligible_companions(player).map_values(
        crate::companion::card_id(),
    ));
}

/// Exiling a card from a hand and bringing it back returns it to its
/// owner's hand, as a new object each time (when no card in that exile
/// already carries the id the exiled card receives).
pub proof fn exile_and_return_to_hand(game: GameView, id: GameObjectId)
    requires
        game.wf(),
        game.next_object_id + 1 < u32::MAX,
        card_with(game.player(PlayerId::One).library, id) is None,
        card_with(game.player(PlayerId::One).hand, id) matches Some(card) && card.owner == PlayerId::One,
        forall|k: int|
            0 <= k < game.player(PlayerId::One).exile.len() ==> (#[trigger] game.player(PlayerId::One).exile[k]).id
                != GameObjectId(game.next_object_id),
    ensures
        ({
            let (exiled, new_id) = game.spec_exile_card_returning_card(id);
            let card = card_with(game.player(PlayerId::One).hand, id).unwrap();
            &&& new_id == Some(GameObjectId(game.next_object_id))
            &&& exiled.spec_return_exiled_card(new_id->0, crate::state::ZoneKind::Hand, None, None).player(
                PlayerId::One,
            ).hand.last() == CardInstance { id: GameObjectId((game.next_object_id + 1) as u32), ..card }
        }),
{
    let state = game.player(PlayerId::One);
    let card = card_with(state.hand, id).unwrap();
    assert(game.spec_card_in_nonbattlefield_zone(id) == Some((crate::state::ZoneKind::Hand, card)));
    let i = choose|i: int| first_card_index(state.hand, id, i);
    assert(card_position(state.hand, id) == Some(i));
    let (exiled, new_id) = game.spec_exile_card_returning_card(id);
    let moved = CardInstance { id: GameObjectId(game.next_object_id), ..card };
    let exile = exiled.player(PlayerId::One).exile;
    let last = state.exile.len() as int;
    assert(exile == state.exile.push(moved));
    assert(exile[last] == moved);
    assert(first_card_index(exile, moved.id, last));
    let j = choose|j: int| first_card_index(exile, moved.id, j);
    lemma_first_card_index_unique(exile, moved.id, j, last);
    assert(card_position(exile, moved.id) == Some(last));
    assert(exiled.exile_holder(moved.id) == Some(PlayerId::One));
}

/// An unblocked attacker striking a player costs that player life equal to
/// its power (unless the attacker's lifelink pays it back to them).
pub proof fn unblocked_attacker_hits_for_its_power(game: GameView, attacker: GameObjectId, player: PlayerId)
    requires
        game.wf(),
        crate::state::permanent_with(game.battlefield, attacker) matches Some(permanent) && {
            &&& game.spec_deals_damage_now(permanent)
            &&& game.spec_combat_defender_target(permanent) == Some(Target::Player(player))
            &&& amount_of(game.power_of(permanent)) > 0
        },
        game.blockers_of(attacker).len() == 0,
        !game.combat_blocked_attackers.contains(attacker),
        game.spec_source_controller_with_keyword(attacker, KeywordAbility::Lifelink) != Some(player),
    ensures
        ({
            let permanent = crate::state::permanent_with(game.battlefield, attacker)->0;
            game.attacker_strike(attacker).life(player) == life_after_loss(
                game.life(player),
                amount_of(game.power_of(permanent)),
            )
        }),
{
    let permanent = crate::state::permanent_with(game.battlefield, attacker)->0;
    damage_to_a_player_costs_that_much_life(
        game,
        Some(attacker),
        player,
        amount_of(game.power_of(permanent)),
        true,
    );
}


/// A filter that finds nothing keeps nothing.
proof fn lemma_filter_map_nothing<A, B>(s: Seq<A>, f: spec_fn(A) -> Option<B>)
    requires
        forall|i: int| 0 <= i < s.len() ==> (#[trigger] f(s[i])) is None,
    ensures
        s.filter_map(f) =~= Seq::<B>::empty(),
    decreases s.len(),
{
    if s.len() > 0 {
        assert forall|i: int| 0 <= i < s.drop_last().len() implies (#[trigger] f(s.drop_last()[i])) is None by {
            assert(s.drop_last()[i] == s[i]);
        }
        lemma_filter_map_nothing(s.drop_last(), f);
        assert(f(s.last()) is None);
    }
}

/// A filter that keeps everything changes nothing.
proof fn lemma_filter_everything<A>(s: Seq<A>, keep: spec_fn(A) -> bool)
    requires
        forall|i: int| 0 <= i < s.len() ==> #[trigger] keep(s[i]),
    ensures
        s.filter(keep) =~= s,
    decreases s.len(),
{
    reveal(Seq::filter);
    if s.len() > 0 {
        assert forall|i: int| 0 <= i < s.drop_last().len() implies #[trigger] keep(s.drop_last()[i]) by {
            assert(s.drop_last()[i] == s[i]);
        }
        lemma_filter_everything(s.drop_last(), keep);
        assert(keep(s.last()));
        assert(s.drop_last().push(s.last()) =~= s);
    }
}

/// Whether an action declares a block by this creature.
pub open spec fn blocks_with(action: ActionView, blocker: GameObjectId) -> bool {
    action matches ActionView::DeclareBlocker { blocker: b, .. } && b == blocker
}

/// Block requirements (CR 509.1c): where no available block is compelled,
/// every available block is offered; where some are, a creature that a
/// requirement compels is offered only the blocks compelled of it.
pub proof fn block_requirements_take_alternatives_away(game: GameView, player: PlayerId, blocker: GameObjectId)
    ensures
        !game.spec_block_requirement_outstanding(game.spec_available_blocker_actions(player))
            ==> game.spec_blocker_actions(player) == game.spec_available_blocker_actions(player),
        forall|i: int|
            0 <= i < game.spec_blocker_actions(player).len() && blocks_with(#[trigger] game.spec_blocker_actions(player)[i], blocker) && game.required_blocker(
                game.spec_available_blocker_actions(player),
                blocker,
            ) ==> game.spec_required_block(game.spec_blocker_actions(player)[i]),
{
    let available = game.spec_available_blocker_actions(player);
    let keep = game.keeps_block(available);
    available.filter_lemma(keep);
    if !game.spec_block_requirement_outstanding(available) {
        assert forall|i: int| 0 <= i < available.len() implies (#[trigger] game.required_blocker_id()(
            available[i],
        )) is None by {
            assert(!game.spec_required_block(available[i]));
        }
        lemma_filter_map_nothing(available, game.required_blocker_id());
        assert forall|i: int| 0 <= i < available.len() implies #[trigger] keep(available[i]) by {
            match available[i] {
                ActionView::DeclareBlocker { blocker: b, .. } => {
                    assert(!game.required_blockers(available).contains(b));
                },
                _ => {},
            }
        }
        lemma_filter_everything(available, keep);
    }
    assert forall|i: int|
        0 <= i < game.spec_blocker_actions(player).len() && blocks_with(#[trigger] game.spec_blocker_actions(player)[i], blocker) && game.required_blocker(
            available,
            blocker,
        ) implies game.spec_required_block(game.spec_blocker_actions(player)[i]) by {
        assert(keep(available.filter(keep)[i]));
    }
}


/// Casting a spell (CR 601.2a): the card leaves its owner's hand for the top
/// of the stack as a new object its caster controls, carrying its targets;
/// the other cards in hand stay, and the other stack objects stay below it.
pub proof fn cast_spell_goes_on_top_of_the_stack(
    game: GameView,
    player: PlayerId,
    card: GameObjectId,
    targets: Seq<Target>,
    x: u16,
)
    requires
        game.wf(),
        game.next_object_id < u32::MAX,
        crate::state::card_position(game.player(player).hand, card) matches Some(i)
            && crate::casting::spec_spell_definition(game.player(player).hand[i].definition) matches Some(spell)
            && spell.cost.generic + crate::casting::added_generic(spell, x, targets.len() as int) <= u16::MAX,
    ensures
        ({
            let i = crate::state::card_position(game.player(player).hand, card)->0;
            let cast = game.spec_cast_spell(player, card, targets, x);
            let top = cast.stack.last();
            &&& cast.player(player).hand == game.player(player).hand.remove(i)
            &&& cast.stack.len() == game.stack.len() + 1
            &&& cast.stack.drop_last() == game.stack
            &&& top.spell == Some(CardInstance { id: GameObjectId(game.next_object_id), ..game.player(player).hand[i] })
            &&& top.id == GameObjectId(game.next_object_id)
            &&& top.controller == player
            &&& top.targets == targets
            &&& top.x == x
            &&& cast.player(player.spec_opponent()) == game.player(player.spec_opponent())
            &&& cast.next_object_id == game.next_object_id + 1
        }),
{
    let i = crate::state::card_position(game.player(player).hand, card)->0;
    let spell = crate::casting::spec_spell_definition(game.player(player).hand[i].definition)->0;
    let paid = game.spec_pay_spell(player, spell, crate::casting::added_generic(spell, x, targets.len() as int));
    assert(paid.players == game.players);
    assert(paid.stack == game.stack);
    let cast = game.spec_cast_spell(player, card, targets, x);
    assert(cast.stack.drop_last() =~= game.stack);
    assert(player.spec_opponent().spec_index() != player.spec_index());
}


/// No two cards in the list share an object id.
pub open spec fn distinct_card_ids(cards: Seq<CardInstance>) -> bool {
    forall|i: int, j: int| 0 <= i < cards.len() && 0 <= j < cards.len() && i != j ==> cards[i].id != cards[j].id
}

/// No two permanents share an object id.
pub open spec fn distinct_permanent_ids(battlefield: Seq<Permanent>) -> bool {
    forall|i: int, j: int|
        0 <= i < battlefield.len() && 0 <= j < battlefield.len() && i != j ==> battlefield[i].card.id
            != battlefield[j].card.id
}

/// A cast of the divided spell from `source` with targets and X its rules
/// allow.
pub open spec fn cast_ok(
    game: GameView,
    player: PlayerId,
    source: GameObjectId,
    spell: crate::casting::SpellDefinition,
    action: ActionView,
) -> bool {
    match action {
        ActionView::CastSpell { card, targets, x } => card == source && game.spec_targets_valid(
            player,
            source,
            spell,
            targets,
            x,
        ),
        _ => false,
    }
}

/// Targets a divided spell may be cast with, before X is chosen.
pub open spec fn divided_targets_ok(game: GameView, player: PlayerId, source: GameObjectId, targets: Seq<Target>) -> bool {
    &&& targets.len() >= 1
    &&& targets.no_duplicates()
    &&& forall|i: int| 0 <= i < targets.len() ==> game.spec_any_targets(player, source).contains(#[trigger] targets[i])
}

proof fn lemma_x_casts_ok(
    game: GameView,
    player: PlayerId,
    source: GameObjectId,
    spell: crate::casting::SpellDefinition,
    targets: Seq<Target>,
    n: int,
)
    requires
        spell.effect == crate::casting::SpellEffect::DividedDamage,
        game.spec_colors_available(player, spell),
        divided_targets_ok(game, player, source, targets),
        n <= game.max_x(player, spell, targets.len() as int) + 1,
    ensures
        crate::casting::x_casts(source, targets, n).len() == if n > 0 { n } else { 0 },
        forall|m: int|
            0 <= m < crate::casting::x_casts(source, targets, n).len() ==> cast_ok(
                game,
                player,
                source,
                spell,
                #[trigger] crate::casting::x_casts(source, targets, n)[m],
            ),
    decreases n,
{
    if n > 0 {
        lemma_x_casts_ok(game, player, source, spell, targets, n - 1);
        let all = crate::casting::x_casts(source, targets, n);
        let before = crate::casting::x_casts(source, targets, n - 1);
        assert(all == before.push(ActionView::CastSpell { card: source, targets, x: (n - 1) as u16 }));
        assert forall|m: int| 0 <= m < all.len() implies cast_ok(game, player, source, spell, #[trigger] all[m]) by {
            if m < before.len() {
                assert(all[m] == before[m]);
            } else {
                assert(((n - 1) as u16) == n - 1);
            }
        }
    }
}

proof fn lemma_divided_of_ok(
    game: GameView,
    player: PlayerId,
    source: GameObjectId,
    spell: crate::casting::SpellDefinition,
    choices: Seq<Seq<Target>>,
    n: int,
)
    requires
        spell.effect == crate::casting::SpellEffect::DividedDamage,
        game.spec_colors_available(player, spell),
        n <= choices.len(),
        forall|j: int| 0 <= j < choices.len() ==> divided_targets_ok(game, player, source, #[trigger] choices[j]),
    ensures
        forall|m: int|
            0 <= m < game.divided_casts_of(player, source, spell, choices, n).len() ==> cast_ok(
                game,
                player,
                source,
                spell,
                #[trigger] game.divided_casts_of(player, source, spell, choices, n)[m],
            ),
    decreases n,
{
    if n > 0 {
        lemma_divided_of_ok(game, player, source, spell, choices, n - 1);
        let before = game.divided_casts_of(player, source, spell, choices, n - 1);
        let t = choices[n - 1];
        let more = crate::casting::x_casts(source, t, game.max_x(player, spell, t.len() as int) + 1);
        assert(divided_targets_ok(game, player, source, t));
        lemma_x_casts_ok(game, player, source, spell, t, game.max_x(player, spell, t.len() as int) + 1);
        let all = game.divided_casts_of(player, source, spell, choices, n);
        assert(all == before + more);
        assert forall|m: int| 0 <= m < all.len() implies cast_ok(game, player, source, spell, #[trigger] all[m]) by {
            if m < before.len() {
                assert(all[m] == before[m]);
            } else {
                assert(all[m] == more[m - before.len()]);
            }
        }
    }
}

proof fn lemma_divided_upto_ok(
    game: GameView,
    player: PlayerId,
    source: GameObjectId,
    spell: crate::casting::SpellDefinition,
    k: int,
)
    requires
        spell.effect == crate::casting::SpellEffect::DividedDamage,
        game.spec_colors_available(player, spell),
        game.spec_any_targets(player, source).no_duplicates(),
    ensures
        forall|m: int|
            0 <= m < game.divided_casts_upto(player, source, spell, game.spec_any_targets(player, source), k).len()
                ==> cast_ok(
                game,
                player,
                source,
                spell,
                #[trigger] game.divided_casts_upto(player, source, spell, game.spec_any_targets(player, source), k)[m],
            ),
    decreases k,
{
    let targets = game.spec_any_targets(player, source);
    if k > 0 {
        lemma_divided_upto_ok(game, player, source, spell, k - 1);
        let before = game.divided_casts_upto(player, source, spell, targets, k - 1);
        let choices = crate::decisions::combinations(targets, k as nat);
        assert forall|j: int| 0 <= j < choices.len() implies divided_targets_ok(game, player, source, #[trigger] choices[j]) by {
            crate::decisions::lemma_combination_shape(targets, k as nat, j);
        }
        lemma_divided_of_ok(game, player, source, spell, choices, choices.len() as int);
        let more = game.divided_casts_of(player, source, spell, choices, choices.len() as int);
        let all = game.divided_casts_upto(player, source, spell, targets, k);
        assert(all == before + more);
        assert forall|m: int| 0 <= m < all.len() implies cast_ok(game, player, source, spell, #[trigger] all[m]) by {
            if m < before.len() {
                assert(all[m] == before[m]);
            } else {
                assert(all[m] == more[m - before.len()]);
            }
        }
    }
}

proof fn lemma_damageable_distinct(game: GameView, player: PlayerId, source: GameObjectId, field: Seq<Permanent>)
    requires
        distinct_permanent_ids(field),
    ensures
        field.filter_map(game.damageable_target(player, source)).no_duplicates(),
        forall|m: int|
            0 <= m < field.filter_map(game.damageable_target(player, source)).len() ==> exists|i: int|
                0 <= i < field.len() && #[trigger] field.filter_map(game.damageable_target(player, source))[m]
                    == Target::Permanent(field[i].card.id),
    decreases field.len(),
{
    let f = game.damageable_target(player, source);
    if field.len() > 0 {
        let rest = field.drop_last();
        assert(distinct_permanent_ids(rest)) by {
            assert forall|i: int, j: int| 0 <= i < rest.len() && 0 <= j < rest.len() && i != j implies rest[i].card.id
                != rest[j].card.id by {
                assert(rest[i] == field[i]);
                assert(rest[j] == field[j]);
            }
        }
        lemma_damageable_distinct(game, player, source, rest);
        let earlier = rest.filter_map(f);
        let all = field.filter_map(f);
        let last = field.last();
        if f(last) is Some {
            assert(all == earlier + seq![Target::Permanent(last.card.id)]);
            assert forall|m: int| 0 <= m < earlier.len() implies earlier[m] != Target::Permanent(last.card.id) by {
                let i = choose|i: int| 0 <= i < rest.len() && earlier[m] == Target::Permanent(rest[i].card.id);
                assert(rest[i] == field[i]);
                assert(field[i].card.id != field[field.len() - 1].card.id);
            }
            assert forall|m: int| 0 <= m < all.len() implies exists|i: int|
                0 <= i < field.len() && #[trigger] all[m] == Target::Permanent(field[i].card.id) by {
                if m < earlier.len() {
                    let i = choose|i: int| 0 <= i < rest.len() && earlier[m] == Target::Permanent(rest[i].card.id);
                    assert(rest[i] == field[i]);
                    assert(all[m] == earlier[m]);
                } else {
                    assert(all[m] == Target::Permanent(field[field.len() - 1].card.id));
                }
            }
        } else {
            assert(all == earlier);
            assert forall|m: int| 0 <= m < all.len() implies exists|i: int|
                0 <= i < field.len() && #[trigger] all[m] == Target::Permanent(field[i].card.id) by {
                let i = choose|i: int| 0 <= i < rest.len() && earlier[m] == Target::Permanent(rest[i].card.id);
                assert(rest[i] == field[i]);
            }
        }
    }
}

/// With distinct permanent ids, "any target" names nothing twice.
proof fn lemma_any_targets_distinct(game: GameView, player: PlayerId, source: GameObjectId)
    requires
        distinct_permanent_ids(game.battlefield),
    ensures
        game.spec_any_targets(player, source).no_duplicates(),
{
    lemma_damageable_distinct(game, player, source, game.battlefield);
    let permanents = game.battlefield.filter_map(game.damageable_target(player, source));
    let all = game.spec_any_targets(player, source);
    assert forall|a: int, b: int| 0 <= a < all.len() && 0 <= b < all.len() && a != b implies all[a] != all[b] by {
        if a >= 2 {
            let i = choose|i: int|
                0 <= i < game.battlefield.len() && #[trigger] permanents[a - 2] == Target::Permanent(
                    game.battlefield[i].card.id,
                );
            assert(all[a] == permanents[a - 2]);
        }
        if b >= 2 {
            let i = choose|i: int|
                0 <= i < game.battlefield.len() && #[trigger] permanents[b - 2] == Target::Permanent(
                    game.battlefield[i].card.id,
                );
            assert(all[b] == permanents[b - 2]);
        }
        if a >= 2 && b >= 2 {
            assert(all[a] == permanents[a - 2]);
            assert(all[b] == permanents[b - 2]);
        }
    }
}

/// Whether an action is a cast that cast validation accepts.
pub open spec fn validated(game: GameView, player: PlayerId, action: ActionView) -> bool {
    match action {
        ActionView::CastSpell { card, targets, x } => game.spec_validated_cast(player, card, targets, x) is Some,
        _ => false,
    }
}

proof fn lemma_casts_upto_validate(game: GameView, player: PlayerId, n: int)
    requires
        0 <= n <= game.player(player).hand.len(),
        distinct_card_ids(game.player(player).hand),
        distinct_permanent_ids(game.battlefield),
    ensures
        forall|k: int|
            0 <= k < game.spells_upto(player, game.player(player).hand, n).len() ==> validated(
                game,
                player,
                #[trigger] game.spells_upto(player, game.player(player).hand, n)[k],
            ),
    decreases n,
{
    let hand = game.player(player).hand;
    if n > 0 {
        lemma_casts_upto_validate(game, player, n - 1);
        let before = game.spells_upto(player, hand, n - 1);
        let card = hand[n - 1];
        let choices = game.spell_choices(player, card);
        assert(first_card_index(hand, card.id, n - 1));
        assert(card_with(hand, card.id) == Some(card)) by {
            let w = choose|w: int| first_card_index(hand, card.id, w);
            lemma_first_card_index_unique(hand, card.id, w, n - 1);
        }
        assert forall|m: int| 0 <= m < choices.len() implies validated(game, player, #[trigger] choices[m]) by {
            let spell = crate::casting::spec_spell_definition(card.definition)->0;
            match spell.effect {
                crate::casting::SpellEffect::DamageAnyTarget(_) => {
                    let targets = game.spec_any_targets(player, card.id);
                    assert(choices[m] == crate::casting::cast_at(card.id)(targets[m]));
                    assert(seq![targets[m]][0] == targets[m]);
                    assert(targets.contains(targets[m]));
                },
                crate::casting::SpellEffect::Permanent => {},
                crate::casting::SpellEffect::DividedDamage => {
                    let targets = game.spec_any_targets(player, card.id);
                    lemma_any_targets_distinct(game, player, card.id);
                    lemma_divided_upto_ok(game, player, card.id, spell, targets.len() as int);
                    assert(cast_ok(game, player, card.id, spell, choices[m]));
                },
            }
        }
        let all = game.spells_upto(player, hand, n);
        assert(all == before + choices);
        assert forall|k: int| 0 <= k < all.len() implies validated(game, player, #[trigger] all[k]) by {
            if k < before.len() {
                assert(all[k] == before[k]);
            } else {
                assert(all[k] == choices[k - before.len()]);
            }
        }
    }
}

/// Every cast the engine offers is one cast validation accepts, provided
/// no two cards in the player's hand, and no two permanents, share an
/// object id.
pub proof fn offered_casts_are_valid(game: GameView, player: PlayerId)
    requires
        distinct_card_ids(game.player(player).hand),
        distinct_permanent_ids(game.battlefield),
    ensures
        forall|k: int|
            0 <= k < game.spec_spell_actions(player).len() ==> validated(
                game,
                player,
                #[trigger] game.spec_spell_actions(player)[k],
            ),
{
    lemma_casts_upto_validate(game, player, game.player(player).hand.len() as int);
}


/// A card with this id somewhere in the list gives the id a position.
proof fn lemma_card_present(cards: Seq<CardInstance>, id: GameObjectId, k: int)
    requires
        0 <= k < cards.len(),
        cards[k].id == id,
    ensures
        card_position(cards, id) is Some,
    decreases k,
{
    if forall|j: int| 0 <= j < k ==> cards[j].id != id {
        assert(first_card_index(cards, id, k));
    } else {
        let j = choose|j: int| 0 <= j < k && cards[j].id == id;
        lemma_card_present(cards, id, j);
    }
}

proof fn lemma_discards_upto(game: GameView, player: PlayerId, options: Seq<GameObjectId>, n: int)
    requires
        game.wf(),
        game.next_object_id + options.len() < u32::MAX,
        0 <= n <= options.len(),
        options.no_duplicates(),
        forall|i: int| 0 <= i < options.len() ==> card_position(game.player(player).hand, #[trigger] options[i]) is Some,
    ensures
        game.discard_upto(player, options, n).wf(),
        game.discard_upto(player, options, n).next_object_id == game.next_object_id + n,
        game.discard_upto(player, options, n).player(player).hand.len() == game.player(player).hand.len() - n,
        forall|m: int|
            n <= m < options.len() ==> card_position(
                game.discard_upto(player, options, n).player(player).hand,
                #[trigger] options[m],
            ) is Some,
    decreases n,
{
    if n > 0 {
        lemma_discards_upto(game, player, options, n - 1);
        let before = game.discard_upto(player, options, n - 1);
        let hand = before.player(player).hand;
        let i = card_position(hand, options[n - 1])->0;
        assert(first_card_index(hand, options[n - 1], i));
        let after = game.discard_upto(player, options, n);
        assert(after == before.spec_discard(player, options[n - 1]));
        let removed = hand.remove(i);
        assert(after.player(player).hand == removed);
        assert forall|m: int| n <= m < options.len() implies card_position(removed, #[trigger] options[m]) is Some by {
            assert(options[m] != options[n - 1]);
            let v = card_position(hand, options[m])->0;
            assert(first_card_index(hand, options[m], v));
            assert(hand[v].id == options[m]);
            assert(v != i);
            if v < i {
                assert(removed[v] == hand[v]);
                lemma_card_present(removed, options[m], v);
            } else {
                assert(removed[v - 1] == hand[v]);
                lemma_card_present(removed, options[m], v - 1);
            }
        }
    }
}

/// A cleanup discard the decision allows (CR 514.1) leaves the player with
/// exactly the maximum hand size, each discarded card in a graveyard.
pub proof fn cleanup_discard_leaves_seven_cards(game: GameView, player: PlayerId, options: Seq<GameObjectId>)
    requires
        game.wf(),
        game.next_object_id + game.player(player).hand.len() < u32::MAX,
        game.player(player).hand.len() > crate::decisions::MAXIMUM_HAND_SIZE,
        game.valid_discard(player, options),
    ensures
        game.discard_upto(player, options, options.len() as int).player(player).hand.len()
            == crate::decisions::MAXIMUM_HAND_SIZE,
{
    lemma_discards_upto(game, player, options, options.len() as int);
}


/// Every card in the list has an id below `next`.
pub open spec fn cards_below(cards: Seq<CardInstance>, next: u32) -> bool {
    forall|i: int| 0 <= i < cards.len() ==> (#[trigger] cards[i]).id.0 < next
}

/// Every zone of a player holds only ids below `next`.
pub open spec fn zones_below(state: crate::state::PlayerView, next: u32) -> bool {
    &&& cards_below(state.library, next)
    &&& cards_below(state.hand, next)
    &&& cards_below(state.graveyard, next)
    &&& cards_below(state.exile, next)
    &&& cards_below(state.outside_game, next)
    &&& cards_below(state.command, next)
}

/// Per-game instance ids: every object in the game, on the battlefield, on
/// the stack or in a player's zone, has an id below the next one to be
/// handed out, so a new object's id is one no other object has.
pub open spec fn ids_below_next(game: GameView) -> bool {
    &&& forall|i: int| 0 <= i < game.battlefield.len() ==> (#[trigger] game.battlefield[i]).card.id.0
        < game.next_object_id
    &&& forall|i: int| 0 <= i < game.stack.len() ==> (#[trigger] game.stack[i]).id.0 < game.next_object_id
    &&& zones_below(game.player(PlayerId::One), game.next_object_id)
    &&& zones_below(game.player(PlayerId::Two), game.next_object_id)
}

proof fn lemma_remove_below(cards: Seq<CardInstance>, i: int, next: u32, later: u32)
    requires
        cards_below(cards, next),
        0 <= i < cards.len(),
        next <= later,
    ensures
        cards_below(cards.remove(i), later),
{
    assert forall|j: int| 0 <= j < cards.remove(i).len() implies (#[trigger] cards.remove(i)[j]).id.0 < later by {
        if j < i {
            assert(cards.remove(i)[j] == cards[j]);
        } else {
            assert(cards.remove(i)[j] == cards[j + 1]);
        }
    }
}

proof fn lemma_zones_below_later(state: crate::state::PlayerView, next: u32, later: u32)
    requires
        zones_below(state, next),
        next <= later,
    ensures
        zones_below(state, later),
{
}

/// A land play keeps every id below the next one, and the new permanent's
/// id is then one no other object in the game has.
pub proof fn land_play_takes_a_fresh_id(game: GameView, player: PlayerId, card: GameObjectId)
    requires
        game.wf(),
        game.next_object_id < u32::MAX,
        ids_below_next(game),
    ensures
        ids_below_next(game.spec_play_land(player, card)),
{
    let state = game.player(player);
    let after = game.spec_play_land(player, card);
    if card_position(state.hand, card) is Some {
        let i = card_position(state.hand, card)->0;
        if crate::card::catalog(state.hand[i].definition) is Some && crate::card::catalog(
            state.hand[i].definition,
        )->0.types.land {
            let next = game.next_object_id;
            assert(after.next_object_id == next + 1);
            lemma_remove_below(state.hand, i, next, (next + 1) as u32);
            let other = player.spec_opponent();
            assert(player.spec_opponent().spec_index() != player.spec_index());
            lemma_zones_below_later(game.player(other), next, (next + 1) as u32);
            assert(zones_below(after.player(player), after.next_object_id));
            assert(zones_below(after.player(other), after.next_object_id));
            assert(after.player(PlayerId::One) == after.player(player) || after.player(PlayerId::One) == after.player(other));
            assert(after.player(PlayerId::Two) == after.player(player) || after.player(PlayerId::Two) == after.player(other));
            assert forall|j: int| 0 <= j < after.battlefield.len() implies (#[trigger] after.battlefield[j]).card.id.0
                < after.next_object_id by {
                if j < game.battlefield.len() {
                    assert(after.battlefield[j] == game.battlefield[j]);
                }
            }
        }
    }
}

proof fn lemma_tapped_color_keeps_cards(player: PlayerId, color: crate::card::ManaColor, permanents: Seq<Permanent>, n: int)
    ensures
        crate::casting::tapped_for_color(player, color, permanents, n).len() == permanents.len(),
        forall|j: int|
            0 <= j < permanents.len() ==> (#[trigger] crate::casting::tapped_for_color(player, color, permanents, n)[j]).card
                == permanents[j].card,
    decreases permanents.len(),
{
    if permanents.len() > 0 {
        let first = permanents[0];
        let rest = permanents.drop_first();
        let taps = n > 0 && crate::casting::is_untapped_source_of(player, color, first);
        let m = if taps { n - 1 } else { n };
        lemma_tapped_color_keeps_cards(player, color, rest, m);
        let out = crate::casting::tapped_for_color(player, color, permanents, n);
        let tail = crate::casting::tapped_for_color(player, color, rest, m);
        assert forall|j: int| 0 <= j < permanents.len() implies (#[trigger] out[j]).card == permanents[j].card by {
            if j > 0 {
                assert(out[j] == tail[j - 1]);
                assert(rest[j - 1] == permanents[j]);
            }
        }
    }
}

proof fn lemma_tapped_keeps_cards(player: PlayerId, permanents: Seq<Permanent>, n: int)
    ensures
        tapped_for(player, permanents, n).len() == permanents.len(),
        forall|j: int| 0 <= j < permanents.len() ==> (#[trigger] tapped_for(player, permanents, n)[j]).card == permanents[j].card,
    decreases permanents.len(),
{
    if permanents.len() > 0 {
        let first = permanents[0];
        let rest = permanents.drop_first();
        let taps = n > 0 && is_untapped_source(player, first);
        let m = if taps { n - 1 } else { n };
        lemma_tapped_keeps_cards(player, rest, m);
        let out = tapped_for(player, permanents, n);
        let tail = tapped_for(player, rest, m);
        assert forall|j: int| 0 <= j < permanents.len() implies (#[trigger] out[j]).card == permanents[j].card by {
            if j > 0 {
                assert(out[j] == tail[j - 1]);
                assert(rest[j - 1] == permanents[j]);
            }
        }
    }
}

proof fn lemma_color_step(game: GameView, player: PlayerId, color: crate::card::ManaColor, amount: u16)
    requires
        forall|i: int| 0 <= i < game.battlefield.len() ==> (#[trigger] game.battlefield[i]).card.id.0 < game.next_object_id,
    ensures
        ({
            let after = game.paid_color(player, color, amount);
            &&& after.next_object_id == game.next_object_id
            &&& after.players == game.players
            &&& after.stack == game.stack
            &&& forall|i: int| 0 <= i < after.battlefield.len() ==> (#[trigger] after.battlefield[i]).card.id.0
                < after.next_object_id
        }),
{
    lemma_tapped_color_keeps_cards(player, color, game.battlefield, amount as int);
}

proof fn lemma_paid_keeps_ids(game: GameView, player: PlayerId, spell: crate::casting::SpellDefinition, added: int)
    requires
        ids_below_next(game),
    ensures
        ({
            let paid = game.spec_pay_spell(player, spell, added);
            &&& paid.next_object_id == game.next_object_id
            &&& forall|i: int| 0 <= i < paid.battlefield.len() ==> (#[trigger] paid.battlefield[i]).card.id.0
                < paid.next_object_id
        }),
{
    let a = game.paid_color(player, crate::card::ManaColor::White, spell.cost.white);
    lemma_color_step(game, player, crate::card::ManaColor::White, spell.cost.white);
    let b = a.paid_color(player, crate::card::ManaColor::Blue, spell.cost.blue);
    lemma_color_step(a, player, crate::card::ManaColor::Blue, spell.cost.blue);
    let c = b.paid_color(player, crate::card::ManaColor::Black, spell.cost.black);
    lemma_color_step(b, player, crate::card::ManaColor::Black, spell.cost.black);
    let d = c.paid_color(player, crate::card::ManaColor::Red, spell.cost.red);
    lemma_color_step(c, player, crate::card::ManaColor::Red, spell.cost.red);
    let e = d.paid_color(player, crate::card::ManaColor::Green, spell.cost.green);
    lemma_color_step(d, player, crate::card::ManaColor::Green, spell.cost.green);
    lemma_tapped_keeps_cards(player, e.battlefield, spell.cost.generic + added);
    let paid = e.spec_pay_generic(player, spell.cost.generic + added);
    assert forall|i: int| 0 <= i < paid.battlefield.len() implies (#[trigger] paid.battlefield[i]).card.id.0
        < paid.next_object_id by {
        assert(paid.battlefield[i].card == e.battlefield[i].card);
    }
}

/// A cast keeps every id below the next one: the spell on the stack takes
/// the id no other object has.
pub proof fn cast_takes_a_fresh_id(game: GameView, player: PlayerId, card: GameObjectId, targets: Seq<Target>, x: u16)
    requires
        game.wf(),
        game.next_object_id < u32::MAX,
        ids_below_next(game),
    ensures
        ids_below_next(game.spec_cast_spell(player, card, targets, x)),
{
    let state = game.player(player);
    let after = game.spec_cast_spell(player, card, targets, x);
    if card_position(state.hand, card) is Some {
        let i = card_position(state.hand, card)->0;
        if crate::casting::spec_spell_definition(state.hand[i].definition) is Some {
            let spell = crate::casting::spec_spell_definition(state.hand[i].definition)->0;
            if spell.cost.generic + crate::casting::added_generic(spell, x, targets.len() as int) <= u16::MAX {
                let next = game.next_object_id;
                let paid = game.spec_pay_spell(player, spell, crate::casting::added_generic(spell, x, targets.len() as int));
                assert(paid.players == game.players);
                assert(paid.stack == game.stack);
                lemma_paid_keeps_ids(game, player, spell, crate::casting::added_generic(spell, x, targets.len() as int));
                assert forall|j: int| 0 <= j < after.battlefield.len() implies (#[trigger] after.battlefield[j]).card.id.0
                    < after.next_object_id by {
                    assert(after.battlefield[j] == paid.battlefield[j]);
                }
                lemma_remove_below(state.hand, i, next, (next + 1) as u32);
                let other = player.spec_opponent();
                assert(player.spec_opponent().spec_index() != player.spec_index());
                lemma_zones_below_later(game.player(other), next, (next + 1) as u32);
                assert(zones_below(after.player(player), after.next_object_id));
                assert(zones_below(after.player(other), after.next_object_id));
                assert(after.player(PlayerId::One) == after.player(player) || after.player(PlayerId::One) == after.player(
                    other,
                ));
                assert(after.player(PlayerId::Two) == after.player(player) || after.player(PlayerId::Two) == after.player(
                    other,
                ));
                assert forall|j: int| 0 <= j < after.stack.len() implies (#[trigger] after.stack[j]).id.0
                    < after.next_object_id by {
                    if j < game.stack.len() {
                        assert(after.stack[j] == game.stack[j]);
                    }
                }
            }
        }
    }
}

/// Discarding keeps every id below the next one: the card enters its
/// owner's graveyard under the id no other object has.
pub proof fn discard_takes_a_fresh_id(game: GameView, player: PlayerId, card: GameObjectId)
    requires
        game.wf(),
        game.next_object_id < u32::MAX,
        ids_below_next(game),
    ensures
        ids_below_next(game.spec_discard(player, card)),
{
    let state = game.player(player);
    if card_position(state.hand, card) is Some {
        let i = card_position(state.hand, card)->0;
        let next = game.next_object_id;
        let later = (next + 1) as u32;
        let removed = game.with_player(player, crate::state::PlayerView { hand: state.hand.remove(i), ..state });
        let (spent, moved) = removed.zone_change(state.hand[i]);
        let after = game.spec_discard(player, card);
        assert(after == spent.put_in_zone(moved, crate::state::ZoneKind::Graveyard, crate::state::ZonePlacement::Top));
        lemma_remove_below(state.hand, i, next, later);
        let other = player.spec_opponent();
        assert(player.spec_opponent().spec_index() != player.spec_index());
        lemma_zones_below_later(game.player(other), next, later);
        assert(zones_below(spent.player(player), later));
        assert(zones_below(spent.player(other), later));
        let owner = moved.owner;
        let owned = spent.player(owner);
        assert(zones_below(owned, later));
        let grown = owned.graveyard.push(moved);
        assert forall|j: int| 0 <= j < grown.len() implies (#[trigger] grown[j]).id.0 < later by {
            if j < owned.graveyard.len() {
                assert(grown[j] == owned.graveyard[j]);
            }
        }
        assert(zones_below(after.player(owner), later));
        assert(owner.spec_opponent().spec_index() != owner.spec_index());
        assert(zones_below(after.player(owner.spec_opponent()), later));
        assert(after.player(PlayerId::One) == after.player(owner) || after.player(PlayerId::One) == after.player(
            owner.spec_opponent(),
        ));
        assert(after.player(PlayerId::Two) == after.player(owner) || after.player(PlayerId::Two) == after.player(
            owner.spec_opponent(),
        ));
    }
}


/// The total damage a split assigns.
pub open spec fn split_total(split: Seq<(Target, u16)>) -> int
    decreases split.len(),
{
    if split.len() == 0 {
        0
    } else {
        split_total(split.drop_last()) + split.last().1
    }
}

proof fn lemma_split_total_covers_last(split: Seq<(Target, u16)>)
    ensures
        split_total(split) >= 0,
        split.len() > 0 ==> split_total(split) >= split.last().1,
    decreases split.len(),
{
    if split.len() > 0 {
        lemma_split_total_covers_last(split.drop_last());
    }
}

proof fn lemma_split_among_total(game: GameView, source: GameObjectId, blockers: Seq<GameObjectId>, power: u16, k: int)
    requires
        0 <= k <= blockers.len(),
    ensures
        game.split_among(source, blockers, power, k).0.len() == k,
        split_total(game.split_among(source, blockers, power, k).0) + game.split_among(source, blockers, power, k).1
            == power,
    decreases k,
{
    if k > 0 {
        lemma_split_among_total(game, source, blockers, power, k - 1);
        let (split, remaining) = game.split_among(source, blockers, power, k - 1);
        let lethal = game.spec_lethal_damage_from(blockers[k - 1], source);
        let amount = if lethal < remaining {
            lethal
        } else {
            remaining
        };
        let grown = split.push((Target::Permanent(blockers[k - 1]), amount));
        assert(grown.drop_last() =~= split);
    }
}

/// All combat damage is assigned (CR 510.1c): when an attacker (or a
/// blocker) with power P > 0 spreads its damage over one or more creatures,
/// the amounts of its default split add up to exactly P; without trample
/// the damage beyond lethal goes onto the last of them.
pub proof fn default_split_assigns_all_damage(game: GameView, source: GameObjectId, blockers: Seq<GameObjectId>)
    requires
        blockers.len() > 0,
        crate::state::permanent_with(game.battlefield, source) is Some,
    ensures
        split_total(game.spec_default_damage_split(source, blockers)) == crate::damage_delivery::amount_of(
            game.power_of(crate::state::permanent_with(game.battlefield, source)->0),
        ),
        !game.has_keyword(crate::state::permanent_with(game.battlefield, source)->0, KeywordAbility::Trample)
            ==> game.spec_default_damage_split(source, blockers).len() == blockers.len(),
{
    let attacker = crate::state::permanent_with(game.battlefield, source)->0;
    let power = crate::damage_delivery::amount_of(game.power_of(attacker));
    let k = blockers.len() as int;
    lemma_split_among_total(game, source, blockers, power, k);
    let (split, remaining) = game.split_among(source, blockers, power, k);
    let result = game.spec_default_damage_split(source, blockers);
    if remaining == 0 {
    } else if game.has_keyword(attacker, KeywordAbility::Trample) && game.spec_combat_defender_target(attacker) is Some {
        assert(result.drop_last() =~= split);
    } else {
        lemma_split_total_covers_last(split);
        let raised = (split.last().1 + remaining) as u16;
        assert(raised == split.last().1 + remaining);
        assert(result == split.update(split.len() - 1, (split.last().0, raised)));
        assert(result.drop_last() =~= split.drop_last());
    }
}

/// Lethal damage (CR 704.5g, 704.5h): a creature with toughness above 0
/// whose damage reaches its toughness, or that has any damage from a source
/// with deathtouch, is among the creatures state-based actions destroy.
pub proof fn lethally_damaged_creatures_are_destroyed(game: GameView, i: int)
    requires
        0 <= i < game.battlefield.len(),
        game.is_creature(game.battlefield[i]),
        game.toughness_of(game.battlefield[i]) is Some,
        game.toughness_of(game.battlefield[i])->0 > 0,
        game.battlefield[i].damage >= game.toughness_of(game.battlefield[i])->0 || (game.battlefield[i].deathtouch_damage
            && game.battlefield[i].damage > 0),
    ensures
        game.battlefield.filter_map(game.lethally_damaged()).contains(game.battlefield[i].card.id),
{
    lemma_filter_map_keeps(game.battlefield, game.lethally_damaged(), i);
}

/// Only lethally damaged creatures are destroyed for their damage: every
/// permanent the check names is a creature with toughness above 0 whose
/// damage reaches it or came from a deathtouch source.
pub proof fn only_lethally_damaged_creatures_are_destroyed(game: GameView, id: GameObjectId)
    requires
        game.battlefield.filter_map(game.lethally_damaged()).contains(id),
    ensures
        exists|i: int|
            0 <= i < game.battlefield.len() && (#[trigger] game.battlefield[i]).card.id == id && game.is_creature(
                game.battlefield[i],
            ) && game.toughness_of(game.battlefield[i]) is Some && game.toughness_of(game.battlefield[i])->0 > 0 && (
            game.battlefield[i].damage >= game.toughness_of(game.battlefield[i])->0 || (
            game.battlefield[i].deathtouch_damage && game.battlefield[i].damage > 0)),
{
    game.battlefield.lemma_filter_map_contains(game.lethally_damaged(), id);
    let p = choose|p: Permanent| game.battlefield.contains(p) && (game.lethally_damaged())(p) == Some(id);
    let i = choose|i: int| 0 <= i < game.battlefield.len() && game.battlefield[i] == p;
    assert(game.battlefield[i].card.id == id);
}

/// Reach (CR 702.17b): a creature with reach may block a creature with
/// flying when nothing else stands in the way; a creature with neither
/// flying nor reach never may.
pub proof fn reach_blocks_flyers(game: GameView, blocker: Permanent, attacker: Permanent)
    ensures
        game.has_keyword(blocker, KeywordAbility::Reach) && !game.has_keyword(attacker, KeywordAbility::Intimidate)
            && game.behavior_of(blocker) != Some(crate::card::CardBehavior::IronclawOrcs) && !game.spec_is_protected_from(
            attacker,
            game.colors_of(blocker),
        ) && !attacker.blocking_rules.cannot_be_blocked && attacker.blocking_rules.cannot_be_blocked_by is None
            && blocker.blocking_rules.can_block_only is None ==> game.spec_can_block(blocker, attacker),
        game.has_keyword(attacker, KeywordAbility::Flying) && !game.has_keyword(blocker, KeywordAbility::Flying)
            && !game.has_keyword(blocker, KeywordAbility::Reach) ==> !game.spec_can_block(blocker, attacker),
{
}

/// Summoning sickness (CR 302.6): a creature without haste that has not
/// been under its controller's control since the start of their most
/// recent turn cannot attack; one that has, without defender and with no
/// Moat in play, can.
pub proof fn summoning_sick_creatures_cannot_attack(game: GameView, permanent: Permanent, moat_active: bool, flying: bool)
    ensures
        !game.has_keyword(permanent, KeywordAbility::Haste) && game.turns_started[permanent.controller.spec_index()]
            <= permanent.entered_controller_turn ==> !game.spec_can_attack_creature(permanent, moat_active, flying),
        !game.has_keyword(permanent, KeywordAbility::Defender) && !moat_active
            && game.turns_started[permanent.controller.spec_index()] > permanent.entered_controller_turn
            ==> game.spec_can_attack_creature(permanent, moat_active, flying),
        game.has_keyword(permanent, KeywordAbility::Haste) && !game.has_keyword(permanent, KeywordAbility::Defender)
            && !moat_active ==> game.spec_can_attack_creature(permanent, moat_active, flying),
{
}

/// A companion's condition "each permanent card has mana value at most N":
/// the companion is eligible exactly when every card of the starting deck
/// (library and command zone) is a catalog card that is either not a
/// permanent card or has mana value at most N, N itself included.
pub proof fn companion_mana_value_limit(game: GameView, player: PlayerId, k: int, limit: u16)
    requires
        0 <= k < game.player(player).outside_game.len(),
        crate::card::catalog(game.player(player).outside_game[k].definition) is Some,
        crate::card::catalog(game.player(player).outside_game[k].definition)->0.companion == Some(
            crate::card::CompanionRule::PermanentManaValueAtMost(limit),
        ),
    ensures
        ({
            let deck = game.player(player).library + game.player(player).command;
            let fits = forall|i: int|
                0 <= i < deck.len() ==> crate::card::catalog(#[trigger] deck[i].definition) is Some && ({
                    let types = crate::card::catalog(deck[i].definition)->0.types;
                    (types.creature || types.artifact || types.enchantment || types.land || types.planeswalker)
                        ==> crate::card::catalog(deck[i].definition)->0.mana_value <= limit
                });
            &&& fits ==> game.spec_eligible_companions(player).contains(game.player(player).outside_game[k])
            &&& !fits ==> !game.spec_eligible_companions(player).contains(game.player(player).outside_game[k])
        }),
{
    let state = game.player(player);
    let deck = state.library + state.command;
    let pred = crate::companion::eligible_for(crate::companion::starting_deck(state));
    state.outside_game.filter_lemma(pred);
    assert(crate::companion::starting_deck(state) == deck);
    if state.outside_game.filter(pred).contains(state.outside_game[k]) {
        let j = choose|j: int| 0 <= j < state.outside_game.filter(pred).len() && state.outside_game.filter(pred)[j]
            == state.outside_game[k];
        assert(pred(state.outside_game.filter(pred)[j]));
    }
}


proof fn lemma_split_among_order(game: GameView, source: GameObjectId, blockers: Seq<GameObjectId>, power: u16, k: int)
    requires
        0 <= k <= blockers.len(),
    ensures
        ({
            let (split, remaining) = game.split_among(source, blockers, power, k);
            &&& split.len() == k
            &&& forall|j: int| 0 <= j < k ==> (#[trigger] split[j]).0 == Target::Permanent(blockers[j])
            &&& forall|j: int| 0 <= j < k ==> (#[trigger] split[j]).1 <= game.spec_lethal_damage_from(blockers[j], source)
            &&& remaining > 0 ==> forall|j: int|
                0 <= j < k ==> (#[trigger] split[j]).1 == game.spec_lethal_damage_from(blockers[j], source)
            &&& forall|i: int, j: int|
                #![trigger split[i], split[j]]
                0 <= j < i < k && split[i].1 > 0 ==> split[j].1 == game.spec_lethal_damage_from(blockers[j], source)
        }),
    decreases k,
{
    if k > 0 {
        lemma_split_among_order(game, source, blockers, power, k - 1);
        let (split, remaining) = game.split_among(source, blockers, power, k - 1);
        let lethal = game.spec_lethal_damage_from(blockers[k - 1], source);
        let amount = if lethal < remaining {
            lethal
        } else {
            remaining
        };
        let grown = split.push((Target::Permanent(blockers[k - 1]), amount));
        assert forall|j: int| 0 <= j < k - 1 implies grown[j] == split[j] by {}
    }
}

/// Damage assignment order (CR 510.1c): a split names each blocker in
/// order, gives no blocker but the last more than lethal damage, and gives
/// a later blocker damage only once every earlier one has been assigned
/// lethal damage.
pub proof fn default_split_follows_damage_order(game: GameView, source: GameObjectId, blockers: Seq<GameObjectId>)
    requires
        blockers.len() > 0,
        crate::state::permanent_with(game.battlefield, source) is Some,
    ensures
        ({
            let split = game.spec_default_damage_split(source, blockers);
            let n = blockers.len() as int;
            &&& split.len() >= n
            &&& forall|j: int| 0 <= j < n ==> (#[trigger] split[j]).0 == Target::Permanent(blockers[j])
            &&& forall|j: int| 0 <= j < n - 1 ==> (#[trigger] split[j]).1 <= game.spec_lethal_damage_from(blockers[j], source)
            &&& forall|i: int, j: int|
                #![trigger split[i], split[j]]
                0 <= j < i < n && split[i].1 > 0 ==> split[j].1 == game.spec_lethal_damage_from(blockers[j], source)
        }),
{
    let attacker = crate::state::permanent_with(game.battlefield, source)->0;
    let power = crate::damage_delivery::amount_of(game.power_of(attacker));
    let n = blockers.len() as int;
    lemma_split_among_order(game, source, blockers, power, n);
    let (split, remaining) = game.split_among(source, blockers, power, n);
    let result = game.spec_default_damage_split(source, blockers);
    if remaining == 0 {
    } else if game.has_keyword(attacker, KeywordAbility::Trample) && game.spec_combat_defender_target(attacker) is Some {
        assert forall|j: int| 0 <= j < n implies result[j] == split[j] by {}
    } else {
        let raised = (split.last().1 + remaining) as u16;
        assert(result == split.update(n - 1, (split.last().0, raised)));
        assert forall|j: int| 0 <= j < n - 1 implies result[j] == split[j] by {}
    }
}

/// Blocking restrictions (CR 509.1b): an attacker with flying can't be
/// blocked except by flying or reach; one with intimidate only by artifact
/// creatures and creatures sharing a colour; Ironclaw Orcs can't block
/// power 2 or greater; protection stops blocks by that colour; and a
/// blocker nothing restricts may block an attacker nothing restricts.
pub proof fn blocking_restrictions(game: GameView, blocker: Permanent, attacker: Permanent)
    ensures
        game.has_keyword(attacker, KeywordAbility::Intimidate) && !(game.types_of(blocker) is Some
            && game.types_of(blocker)->0.artifact) && !game.colors_of(attacker).spec_shares_with(game.colors_of(blocker))
            ==> !game.spec_can_block(blocker, attacker),
        game.behavior_of(blocker) == Some(crate::card::CardBehavior::IronclawOrcs) && game.power_of(attacker) is Some
            && game.power_of(attacker)->0 >= 2 ==> !game.spec_can_block(blocker, attacker),
        game.spec_is_protected_from(attacker, game.colors_of(blocker)) ==> !game.spec_can_block(blocker, attacker),
        attacker.blocking_rules.cannot_be_blocked ==> !game.spec_can_block(blocker, attacker),
        !game.has_keyword(attacker, KeywordAbility::Flying) && !game.has_keyword(attacker, KeywordAbility::Intimidate)
            && game.behavior_of(blocker) != Some(crate::card::CardBehavior::IronclawOrcs)
            && !game.spec_is_protected_from(attacker, game.colors_of(blocker)) && !attacker.blocking_rules.cannot_be_blocked
            && attacker.blocking_rules.cannot_be_blocked_by is None && blocker.blocking_rules.can_block_only is None
            ==> game.spec_can_block(blocker, attacker),
{
}

/// Defender and Moat: a creature with defender never attacks, and while
/// Moat is in play a creature without flying doesn't either.
pub proof fn defenders_and_moat_stop_attacks(game: GameView, permanent: Permanent, moat_active: bool, flying: bool)
    ensures
        game.has_keyword(permanent, KeywordAbility::Defender) ==> !game.spec_can_attack_creature(
            permanent,
            moat_active,
            flying,
        ),
        moat_active && !flying ==> !game.spec_can_attack_creature(permanent, moat_active, flying),
{
}

} // verus!
