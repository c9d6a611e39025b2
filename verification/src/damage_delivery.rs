//! Combat damage: who strikes in which wave, how an attacker's damage may be
//! divided, and dealing it.
use vstd::prelude::*;

use crate::banding::contains_id;
use crate::card::KeywordAbility;
use crate::combat::{id_order, sort_ids, spec_combat_defender};
use crate::ids::{GameObjectId, PlayerId};
use crate::state::{
    actions_view, first_match, lemma_first_match_absent, lemma_position_is_first, lemma_first_match_found, permanent_with,
    Action, ActionView, AssignedCombatDamage, AttackDefender, CombatDamageAssignment, Game,
    GameView, Permanent, StageView, Target,
};

verus! {

/// A power, toughness or loyalty as a damage amount: nothing below zero,
/// and no more than the largest amount.
pub open spec fn amount_of(value: Option<int>) -> u16 {
    match value {
        Some(value) => if value <= 0 {
            0
        } else if value > u16::MAX {
            u16::MAX
        } else {
            value as u16
        },
        None => 0,
    }
}

pub(crate) fn clamp_amount(value: Option<i32>) -> (amount: u16)
    ensures
        amount == amount_of(match value {
            Some(v) => Some(v as int),
            None => None,
        }),
{
    match value {
        Some(value) => if value <= 0 {
            0
        } else if value > 65535 {
            u16::MAX
        } else {
            value as u16
        },
        None => 0,
    }
}

/// Every way to divide `total` among `count` recipients, in lexicographic
/// order of the amounts.
pub open spec fn distributions(count: nat, total: nat) -> Seq<Seq<u16>>
    decreases count, total + 2,
{
    if count == 0 {
        if total == 0 {
            seq![Seq::empty()]
        } else {
            Seq::empty()
        }
    } else {
        distributions_upto(count, total, total + 1)
    }
}

/// The divisions whose first amount is below `k`.
pub open spec fn distributions_upto(count: nat, total: nat, k: nat) -> Seq<Seq<u16>>
    decreases count, k,
{
    if count == 0 || k == 0 || k > total + 1 {
        Seq::empty()
    } else {
        distributions_upto(count, total, (k - 1) as nat) + prefixed(
            (k - 1) as u16,
            distributions((count - 1) as nat, (total - (k - 1)) as nat),
        )
    }
}

/// Each division with one more amount in front.
pub open spec fn prefixed(amount: u16, tails: Seq<Seq<u16>>) -> Seq<Seq<u16>> {
    tails.map_values(|tail: Seq<u16>| seq![amount] + tail)
}

/// A list of lists as mathematical values.
pub open spec fn nested_view(lists: Seq<Vec<u16>>) -> Seq<Seq<u16>> {
    lists.map_values(|list: Vec<u16>| list@)
}

/// Every way to divide `total` damage among `recipient_count` recipients,
/// each a list of amounts in recipient order.
pub fn damage_distributions(recipient_count: usize, total: u16) -> (result: Vec<Vec<u16>>)
    ensures
        nested_view(result@) == distributions(recipient_count as nat, total as nat),
    decreases recipient_count,
{
    let mut result: Vec<Vec<u16>> = Vec::new();
    if recipient_count == 0 {
        if total == 0 {
            result.push(Vec::new());
            proof {
                assert(nested_view(result@) =~= seq![Seq::<u16>::empty()]);
            }
        } else {
            proof {
                assert(nested_view(result@) =~= Seq::<Seq<u16>>::empty());
            }
        }
        return result;
    }
    proof {
        assert(nested_view(result@) =~= distributions_upto(recipient_count as nat, total as nat, 0));
    }
    let mut amount: u32 = 0;
    while amount <= total as u32
        invariant
            recipient_count > 0,
            amount <= total + 1,
            nested_view(result@) == distributions_upto(recipient_count as nat, total as nat, amount as nat),
        decreases total + 1 - amount,
    {
        let share = amount as u16;
        let tails = damage_distributions(recipient_count - 1, total - share);
        let ghost base = nested_view(result@);
        let ghost tail_view = nested_view(tails@);
        let mut j: usize = 0;
        while j < tails.len()
            invariant
                j <= tails@.len(),
                tail_view == nested_view(tails@),
                nested_view(result@) == base + prefixed(share, tail_view.take(j as int)),
            decreases tails@.len() - j,
        {
            let tail = &tails[j];
            let mut division: Vec<u16> = Vec::new();
            division.push(share);
            let mut k: usize = 0;
            while k < tail.len()
                invariant
                    k <= tail@.len(),
                    division@ == seq![share] + tail@.take(k as int),
                decreases tail@.len() - k,
            {
                division.push(tail[k]);
                proof {
                    assert(tail@.take(k + 1) =~= tail@.take(k as int).push(tail@[k as int]));
                    assert(division@ =~= seq![share] + tail@.take(k + 1));
                }
                k = k + 1;
            }
            let ghost before = result@;
            result.push(division);
            proof {
                assert(tail@.take(k as int) =~= tail@);
                assert(tail_view[j as int] == tail@);
                assert(tail_view.take(j + 1) =~= tail_view.take(j as int).push(tail@));
                assert(nested_view(result@) =~= nested_view(before).push(seq![share] + tail@));
                assert(prefixed(share, tail_view.take(j + 1)) =~= prefixed(share, tail_view.take(j as int)).push(
                    seq![share] + tail@,
                ));
            }
            j = j + 1;
        }
        proof {
            assert(tail_view.take(j as int) =~= tail_view);
            assert(distributions_upto(recipient_count as nat, total as nat, (amount + 1) as nat)
                == distributions_upto(recipient_count as nat, total as nat, amount as nat) + prefixed(
                share,
                distributions((recipient_count - 1) as nat, (total - share) as nat),
            ));
        }
        amount = amount + 1;
    }
    result
}

/// A blocker blocking this attacker.
pub open spec fn blocker_of(attacker: GameObjectId) -> spec_fn(Permanent) -> Option<GameObjectId> {
    |permanent: Permanent|
        if permanent.blocking == Some(attacker) {
            Some(permanent.card.id)
        } else {
            None
        }
}

/// The shares this creature's controller assigned.
pub open spec fn assigned_by(source: GameObjectId) -> spec_fn(AssignedCombatDamage) -> Option<(Target, u16)> {
    |assigned: AssignedCombatDamage|
        if assigned.source == source {
            Some((assigned.recipient, assigned.amount))
        } else {
            None
        }
}

/// One amount per recipient, paired up in order.
pub open spec fn zip_assignments(recipients: Seq<Target>, amounts: Seq<u16>) -> Seq<CombatDamageAssignment> {
    Seq::new(
        if recipients.len() < amounts.len() {
            recipients.len()
        } else {
            amounts.len()
        },
        |i: int| CombatDamageAssignment { recipient: recipients[i], amount: amounts[i] },
    )
}

impl GameView {
    /// The planeswalker an attacker attacks, when it is still an opposing
    /// planeswalker.
    pub open spec fn defended_planeswalker(self, id: GameObjectId, attacker_controller: PlayerId) -> spec_fn(Permanent) -> bool {
        |permanent: Permanent|
            permanent.card.id == id && permanent.controller != attacker_controller
                && self.is_planeswalker(permanent)
    }

    /// Where an attacker's damage goes when it reaches its defender.
    pub open spec fn spec_combat_defender_target(self, attacker: Permanent) -> Option<Target> {
        match spec_combat_defender(attacker) {
            AttackDefender::Player(player) => Some(Target::Player(player)),
            AttackDefender::Planeswalker(id) => match first_match(
                self.battlefield,
                self.defended_planeswalker(id, attacker.controller),
            ) {
                Some(planeswalker) => Some(Target::Permanent(planeswalker.card.id)),
                None => None,
            },
        }
    }

    /// How much life or toughness a drain can take from a recipient: what it
    /// had before the damage.
    pub open spec fn spec_drainable_from(self, target: Target) -> u16 {
        match target {
            Target::Player(player) => amount_of(Some(self.life(player) as int)),
            Target::Permanent(id) => match permanent_with(self.battlefield, id) {
                Some(permanent) => if self.is_planeswalker(permanent) {
                    permanent.loyalty
                } else {
                    match self.toughness_of(permanent) {
                        Some(toughness) => amount_of(Some(toughness)),
                        None => 0,
                    }
                },
                None => 0,
            },
            _ => 0,
        }
    }

    /// The damage still needed to destroy this permanent.
    pub open spec fn spec_lethal_damage(self, id: GameObjectId) -> u16 {
        match permanent_with(self.battlefield, id) {
            Some(permanent) => {
                let toughness = amount_of(self.toughness_of(permanent));
                if toughness < permanent.damage {
                    0
                } else {
                    (toughness - permanent.damage) as u16
                }
            },
            None => 0,
        }
    }

    /// Lethal damage from this source: one is enough from deathtouch.
    pub open spec fn spec_lethal_damage_from(self, id: GameObjectId, source: GameObjectId) -> u16 {
        let ordinary = self.spec_lethal_damage(id);
        if ordinary > 0 && self.spec_source_controller_with_keyword(source, KeywordAbility::Deathtouch) is Some {
            1
        } else {
            ordinary
        }
    }

    /// Lethal damage to each blocker in turn, as far as the power goes.
    pub open spec fn split_among(self, source: GameObjectId, blockers: Seq<GameObjectId>, power: u16, k: int) -> (Seq<(Target, u16)>, u16)
        decreases k,
    {
        if k <= 0 {
            (Seq::empty(), power)
        } else {
            let (split, remaining) = self.split_among(source, blockers, power, k - 1);
            let lethal = self.spec_lethal_damage_from(blockers[k - 1], source);
            let amount = if lethal < remaining {
                lethal
            } else {
                remaining
            };
            (split.push((Target::Permanent(blockers[k - 1]), amount)), (remaining - amount) as u16)
        }
    }

    /// How an unassigned attacker spreads its damage: enough to kill each
    /// blocker in turn, then the rest over the top when it tramples onto its
    /// defender, or onto the last blocker otherwise.
    pub open spec fn spec_default_damage_split(self, source: GameObjectId, blockers: Seq<GameObjectId>) -> Seq<(Target, u16)> {
        match permanent_with(self.battlefield, source) {
            None => Seq::empty(),
            Some(attacker) => {
                let (split, remaining) = self.split_among(
                    source,
                    blockers,
                    amount_of(self.power_of(attacker)),
                    blockers.len() as int,
                );
                if remaining == 0 {
                    split
                } else if self.has_keyword(attacker, KeywordAbility::Trample)
                    && self.spec_combat_defender_target(attacker) is Some {
                    split.push((self.spec_combat_defender_target(attacker)->0, remaining))
                } else if split.len() > 0 {
                    split.update(
                        split.len() - 1,
                        (split.last().0, (split.last().1 + remaining) as u16),
                    )
                } else {
                    split
                }
            },
        }
    }

    /// Which creatures deal damage in the current combat-damage step: all of
    /// them in a single step, the first-strike wave first, and in the regular
    /// step those that did not strike first plus double strikers.
    pub open spec fn spec_deals_damage_now(self, permanent: Permanent) -> bool {
        match self.combat_damage_stage {
            StageView::NotStarted | StageView::Single => true,
            StageView::FirstStrike(combatants) => combatants.contains(permanent.card.id),
            StageView::RegularAfterFirstStrike(combatants) => !combatants.contains(permanent.card.id)
                || self.has_keyword(permanent, KeywordAbility::DoubleStrike),
        }
    }

    /// A blocker with banding blocking this attacker.
    pub open spec fn banding_blocker(self, attacker: GameObjectId) -> spec_fn(Permanent) -> bool {
        |permanent: Permanent|
            permanent.blocking == Some(attacker) && self.has_keyword(permanent, KeywordAbility::Banding)
    }

    /// CR 702.22: banding on a blocker hands the attacker's damage
    /// assignment to the defending player.
    pub open spec fn spec_combat_damage_assigner(self, attacker: GameObjectId) -> PlayerId {
        match first_match(self.battlefield, self.banding_blocker(attacker)) {
            Some(blocker) => blocker.controller,
            None => self.active_player,
        }
    }

    pub open spec fn blockers_of(self, attacker: GameObjectId) -> Seq<GameObjectId> {
        self.battlefield.filter_map(blocker_of(attacker))
    }

    /// Who an attacker's damage may be divided among: its blockers in id
    /// order, then its defender when it tramples.
    pub open spec fn assignment_recipients(self, attacker: Permanent) -> Seq<Target> {
        let blockers = self.blockers_of(attacker.card.id).sort_by(id_order()).map_values(
            |id: GameObjectId| Target::Permanent(id),
        );
        if self.has_keyword(attacker, KeywordAbility::Trample) && self.spec_combat_defender_target(attacker) is Some {
            blockers.push(self.spec_combat_defender_target(attacker)->0)
        } else {
            blockers
        }
    }

    /// CR 702.19b: trample spills onto the defender only once every blocker
    /// has lethal damage assigned; without defender damage any division among
    /// the blockers is allowed.
    pub open spec fn division_allowed(self, attacker: Permanent, amounts: Seq<u16>) -> bool {
        let blockers = self.blockers_of(attacker.card.id).sort_by(id_order());
        let defender_damage = if self.has_keyword(attacker, KeywordAbility::Trample)
            && self.spec_combat_defender_target(attacker) is Some && blockers.len() < amounts.len() {
            amounts[blockers.len() as int]
        } else {
            0
        };
        defender_damage == 0 || forall|j: int|
            0 <= j < blockers.len() && j < amounts.len() ==> amounts[j] >= self.spec_lethal_damage_from(
                blockers[j],
                attacker.card.id,
            )
    }

    pub open spec fn assignment_choice(self, attacker: Permanent) -> spec_fn(Seq<u16>) -> Option<ActionView> {
        |amounts: Seq<u16>|
            if self.division_allowed(attacker, amounts) {
                Some(
                    ActionView::AssignCombatDamage {
                        attacker: attacker.card.id,
                        assignments: zip_assignments(self.assignment_recipients(attacker), amounts),
                    },
                )
            } else {
                None
            }
    }

    /// Every legal division of this attacker's combat damage.
    pub open spec fn spec_combat_assignment_actions(self, attacker_id: GameObjectId) -> Seq<ActionView> {
        match permanent_with(self.battlefield, attacker_id) {
            None => Seq::empty(),
            Some(attacker) => distributions(
                self.assignment_recipients(attacker).len(),
                amount_of(self.power_of(attacker)) as nat,
            ).filter_map(self.assignment_choice(attacker)),
        }
    }
}

impl GameView {
    pub open spec fn assigned_split(self, source: GameObjectId) -> Seq<(Target, u16)> {
        self.combat_damage_assignments.filter_map(assigned_by(source))
    }

    /// Deals each share of a division as combat damage from `source`.
    pub open spec fn apply_split(self, source: GameObjectId, split: Seq<(Target, u16)>, k: int) -> GameView
        decreases k,
    {
        if k <= 0 {
            self
        } else {
            self.apply_split(source, split, k - 1).spec_damage(Some(source), Some(split[k - 1].0), split[k - 1].1, true).0
        }
    }

    /// A blocked attacker's own combat damage, as its controller assigned it
    /// or, unassigned, by the default division among its blockers.
    pub open spec fn spec_attacker_combat_damage(self, attacker: GameObjectId, blockers: Seq<GameObjectId>) -> GameView {
        let assigned = self.assigned_split(attacker);
        let split = if assigned.len() == 0 {
            self.spec_default_damage_split(attacker, blockers)
        } else {
            assigned
        };
        self.apply_split(attacker, split, split.len() as int)
    }

    /// One attacker's part of the combat-damage step. An unblocked attacker
    /// hits its defender, unless it was blocked by creatures since gone and
    /// has no trample; a blocked one divides its damage among its blockers.
    pub open spec fn attacker_strike(self, attacker_id: GameObjectId) -> GameView {
        match permanent_with(self.battlefield, attacker_id) {
            None => self,
            Some(attacker) => {
                let power = amount_of(self.power_of(attacker));
                let blockers = self.blockers_of(attacker_id);
                if !self.spec_deals_damage_now(attacker) {
                    self
                } else if blockers.len() == 0 {
                    if self.combat_blocked_attackers.contains(attacker_id) && !self.has_keyword(
                        attacker,
                        KeywordAbility::Trample,
                    ) {
                        self
                    } else {
                        match self.spec_combat_defender_target(attacker) {
                            Some(defender) => self.spec_damage(Some(attacker_id), Some(defender), power, true).0,
                            None => self,
                        }
                    }
                } else {
                    self.spec_attacker_combat_damage(attacker_id, blockers)
                }
            },
        }
    }

    pub open spec fn strikes(self, attackers: Seq<GameObjectId>, k: int) -> GameView
        decreases k,
    {
        if k <= 0 {
            self
        } else {
            self.strikes(attackers, k - 1).attacker_strike(attackers[k - 1])
        }
    }

    /// The attacker a blocker deals its damage to.
    pub open spec fn spec_combat_damage_recipients(self, blocker: GameObjectId) -> Seq<GameObjectId> {
        match permanent_with(self.battlefield, blocker) {
            Some(permanent) => match permanent.blocking {
                Some(attacker) => seq![attacker],
                None => Seq::empty(),
            },
            None => Seq::empty(),
        }
    }

    /// One blocker's combat damage.
    pub open spec fn blocker_strike(self, blocker: GameObjectId) -> GameView {
        let assigned = self.assigned_split(blocker);
        let split = if assigned.len() == 0 {
            self.spec_default_damage_split(blocker, self.spec_combat_damage_recipients(blocker))
        } else {
            assigned
        };
        self.apply_split(blocker, split, split.len() as int)
    }

    pub open spec fn blocker_strikes(self, blockers: Seq<GameObjectId>, k: int) -> GameView
        decreases k,
    {
        if k <= 0 {
            self
        } else {
            self.blocker_strikes(blockers, k - 1).blocker_strike(blockers[k - 1])
        }
    }

    /// A blocker that strikes in this step.
    pub open spec fn striking_blocker(self) -> spec_fn(Permanent) -> Option<GameObjectId> {
        |permanent: Permanent|
            if permanent.blocking is Some && self.spec_deals_damage_now(permanent) {
                Some(permanent.card.id)
            } else {
                None
            }
    }

    /// Every blocker's combat damage, a pass of its own so a creature deals
    /// its power once.
    pub open spec fn spec_blocker_combat_damage(self) -> GameView {
        let blockers = self.battlefield.filter_map(self.striking_blocker());
        self.blocker_strikes(blockers, blockers.len() as int)
    }

    /// The whole combat-damage step: every attacker strikes in battlefield
    /// order, then every blocker, then state-based actions are checked.
    #[verifier::opaque]
    pub open spec fn spec_deal_combat_damage(self) -> GameView {
        let attackers = self.battlefield.filter_map(crate::combat::attacking_id());
        self.strikes(attackers, attackers.len() as int).spec_blocker_combat_damage().spec_state_based_actions()
    }
}

impl Game {
    /// Where an attacker is attacking: its recorded defender, or the
    /// opponent.
    pub fn combat_defender(attacker: &Permanent) -> (defender: AttackDefender)
        ensures
            defender == spec_combat_defender(*attacker),
    {
        match attacker.attack_defender {
            Some(defender) => defender,
            None => AttackDefender::Player(attacker.controller.opponent()),
        }
    }

    /// Where an attacker's damage goes: the player, or the planeswalker when
    /// it is still an opponent's planeswalker.
    pub fn combat_defender_target(&self, attacker: &Permanent) -> (target: Option<Target>)
        ensures
            target == self@.spec_combat_defender_target(*attacker),
    {
        match Self::combat_defender(attacker) {
            AttackDefender::Player(player) => Some(Target::Player(player)),
            AttackDefender::Planeswalker(id) => {
                let mut i: usize = 0;
                while i < self.battlefield.len()
                    invariant
                        i <= self.battlefield@.len(),
                        spec_combat_defender(*attacker) == AttackDefender::Planeswalker(id),
                        forall|j: int|
                            0 <= j < i ==> !self@.defended_planeswalker(id, attacker.controller)(
                                self.battlefield@[j],
                            ),
                    decreases self.battlefield@.len() - i,
                {
                    if self.battlefield[i].card.id == id && self.battlefield[i].controller
                        != attacker.controller && self.is_planeswalker_permanent(&self.battlefield[i]) {
                        proof {
                            lemma_first_match_found(
                                self.battlefield@,
                                self@.defended_planeswalker(id, attacker.controller),
                                i as int,
                            );
                        }
                        return Some(Target::Permanent(self.battlefield[i].card.id));
                    }
                    i = i + 1;
                }
                proof {
                    lemma_first_match_absent(self.battlefield@, self@.defended_planeswalker(id, attacker.controller));
                }
                None
            },
        }
    }

    /// How much a drain can take from a recipient: what it had before the
    /// damage, which is all it can give however much is dealt.
    pub fn drainable_from(&self, target: Target) -> (amount: u16)
        requires
            self.wf(),
        ensures
            amount == self@.spec_drainable_from(target),
    {
        match target {
            Target::Player(player) => clamp_amount(Some(self.players[player.index()].life)),
            Target::Permanent(id) => match self.permanent_position(id) {
                Some(index) => if self.is_planeswalker_permanent(&self.battlefield[index]) {
                    self.battlefield[index].loyalty
                } else {
                    match self.toughness(&self.battlefield[index]) {
                        Some(toughness) => clamp_amount(Some(toughness)),
                        None => 0,
                    }
                },
                None => 0,
            },
            _ => 0,
        }
    }

    /// The damage still needed to destroy this permanent.
    pub fn lethal_damage(&self, id: GameObjectId) -> (amount: u16)
        ensures
            amount == self@.spec_lethal_damage(id),
    {
        match self.permanent_position(id) {
            Some(index) => {
                let toughness = clamp_amount(self.toughness(&self.battlefield[index]));
                toughness.saturating_sub(self.battlefield[index].damage)
            },
            None => 0,
        }
    }

    /// Lethal damage from this source: one is enough from deathtouch.
    pub fn lethal_damage_from(&self, id: GameObjectId, source: GameObjectId) -> (amount: u16)
        ensures
            amount == self@.spec_lethal_damage_from(id, source),
    {
        let ordinary = self.lethal_damage(id);
        if ordinary > 0 && self.source_controller_with_keyword(source, KeywordAbility::Deathtouch).is_some() {
            1
        } else {
            ordinary
        }
    }

    /// How an unassigned attacker (or blocker) spreads its damage among
    /// these blockers (or attackers).
    pub fn default_damage_split(&self, source: GameObjectId, blockers: &Vec<GameObjectId>) -> (split: Vec<(Target, u16)>)
        ensures
            split@ == self@.spec_default_damage_split(source, blockers@),
    {
        let index = match self.permanent_position(source) {
            Some(index) => index,
            None => return Vec::new(),
        };
        let power = clamp_amount(self.power(&self.battlefield[index]));
        let mut remaining = power;
        let mut split: Vec<(Target, u16)> = Vec::new();
        let mut k: usize = 0;
        while k < blockers.len()
            invariant
                k <= blockers@.len(),
                (split@, remaining) == self@.split_among(source, blockers@, power, k as int),
                remaining <= power,
                forall|j: int| 0 <= j < split@.len() ==> split@[j].1 + remaining <= power,
            decreases blockers@.len() - k,
        {
            let lethal = self.lethal_damage_from(blockers[k], source);
            let amount = if lethal < remaining {
                lethal
            } else {
                remaining
            };
            remaining = remaining - amount;
            split.push((Target::Permanent(blockers[k]), amount));
            k = k + 1;
        }
        if remaining > 0 {
            let attacker = &self.battlefield[index];
            let defender = if self.has_trample(attacker) {
                self.combat_defender_target(attacker)
            } else {
                None
            };
            match defender {
                Some(defender) => split.push((defender, remaining)),
                None => {
                    let count = split.len();
                    if count > 0 {
                        let (recipient, amount) = split[count - 1];
                        split.set(count - 1, (recipient, amount + remaining));
                    }
                },
            }
        }
        split
    }

    /// Whether this creature deals damage in the current combat-damage step.
    pub fn deals_damage_in_current_combat_step(&self, permanent: &Permanent) -> (deals: bool)
        ensures
            deals == self@.spec_deals_damage_now(*permanent),
    {
        match &self.combat_damage_stage {
            crate::state::CombatDamageStage::NotStarted | crate::state::CombatDamageStage::Single => true,
            crate::state::CombatDamageStage::FirstStrike { strike_wave_combatants } => contains_id(
                strike_wave_combatants,
                permanent.card.id,
            ),
            crate::state::CombatDamageStage::RegularAfterFirstStrike { strike_wave_combatants } =>
                !contains_id(strike_wave_combatants, permanent.card.id)
                || self.permanent_has_executable_keyword(permanent, KeywordAbility::DoubleStrike),
        }
    }

    fn blocker_ids_of(&self, attacker: GameObjectId) -> (blockers: Vec<GameObjectId>)
        ensures
            blockers@ == self@.blockers_of(attacker),
    {
        let mut blockers: Vec<GameObjectId> = Vec::new();
        let mut i: usize = 0;
        while i < self.battlefield.len()
            invariant
                i <= self.battlefield@.len(),
                blockers@ == self.battlefield@.take(i as int).filter_map(blocker_of(attacker)),
            decreases self.battlefield@.len() - i,
        {
            proof {
                self.battlefield@.lemma_filter_map_take_succ(blocker_of(attacker), i as int);
            }
            if self.battlefield[i].blocking == Some(attacker) {
                blockers.push(self.battlefield[i].card.id);
            }
            i = i + 1;
        }
        proof {
            assert(self.battlefield@.take(i as int) =~= self.battlefield@);
        }
        blockers
    }

    fn division_is_allowed(
        &self,
        attacker: &Permanent,
        sorted: &Vec<GameObjectId>,
        tramples_over: bool,
        amounts: &Vec<u16>,
    ) -> (allowed: bool)
        requires
            sorted@ == self@.blockers_of(attacker.card.id).sort_by(id_order()),
            tramples_over == (self@.has_keyword(*attacker, KeywordAbility::Trample)
                && self@.spec_combat_defender_target(*attacker) is Some),
        ensures
            allowed == self@.division_allowed(*attacker, amounts@),
    {
        let defender_damage: u16 = if tramples_over && sorted.len() < amounts.len() {
            amounts[sorted.len()]
        } else {
            0
        };
        if defender_damage == 0 {
            return true;
        }
        let mut j: usize = 0;
        while j < sorted.len() && j < amounts.len()
            invariant
                j <= sorted@.len(),
                defender_damage != 0,
                sorted@ == self@.blockers_of(attacker.card.id).sort_by(id_order()),
                tramples_over == (self@.has_keyword(*attacker, KeywordAbility::Trample)
                    && self@.spec_combat_defender_target(*attacker) is Some),
                defender_damage == (if tramples_over && sorted@.len() < amounts@.len() {
                    amounts@[sorted@.len() as int]
                } else {
                    0
                }),
                forall|k: int|
                    0 <= k < j && k < amounts@.len() ==> amounts@[k] >= self@.spec_lethal_damage_from(
                        sorted@[k],
                        attacker.card.id,
                    ),
            decreases sorted@.len() - j,
        {
            if amounts[j] < self.lethal_damage_from(sorted[j], attacker.card.id) {
                assert(!(amounts@[j as int] >= self@.spec_lethal_damage_from(sorted@[j as int], attacker.card.id)));
                return false;
            }
            j = j + 1;
        }
        true
    }

    /// Every legal division of this attacker's combat damage among its
    /// blockers, in id order, and its defender when it tramples.
    pub fn combat_assignment_actions(&self, attacker_id: GameObjectId) -> (actions: Vec<Action>)
        ensures
            actions_view(actions@) == self@.spec_combat_assignment_actions(attacker_id),
    {
        let index = match self.permanent_position(attacker_id) {
            Some(index) => index,
            None => return Vec::new(),
        };
        let attacker = self.battlefield[index];
        proof {
            lemma_position_is_first(self.battlefield@, attacker_id);
        }
        let power = clamp_amount(self.power(&attacker));
        let blockers = self.blocker_ids_of(attacker_id);
        let sorted = sort_ids(&blockers);
        let mut recipients: Vec<Target> = Vec::new();
        let mut k: usize = 0;
        while k < sorted.len()
            invariant
                k <= sorted@.len(),
                recipients@ == sorted@.take(k as int).map_values(|id: GameObjectId| Target::Permanent(id)),
            decreases sorted@.len() - k,
        {
            recipients.push(Target::Permanent(sorted[k]));
            proof {
                assert(sorted@.take(k + 1).map_values(|id: GameObjectId| Target::Permanent(id))
                    =~= sorted@.take(k as int).map_values(|id: GameObjectId| Target::Permanent(id)).push(
                    Target::Permanent(sorted@[k as int]),
                ));
            }
            k = k + 1;
        }
        proof {
            assert(sorted@.take(k as int) =~= sorted@);
        }
        let defender = if self.has_trample(&attacker) {
            self.combat_defender_target(&attacker)
        } else {
            None
        };
        let tramples_over = defender.is_some();
        if let Some(defender) = defender {
            recipients.push(defender);
        }
        let distributions_of = damage_distributions(recipients.len(), power);
        let ghost choices = nested_view(distributions_of@);
        let ghost choice = self@.assignment_choice(attacker);
        let mut actions: Vec<Action> = Vec::new();
        let mut i: usize = 0;
        while i < distributions_of.len()
            invariant
                i <= distributions_of@.len(),
                choices == nested_view(distributions_of@),
                choice == self@.assignment_choice(attacker),
                attacker.card.id == attacker_id,
                recipients@ == self@.assignment_recipients(attacker),
                sorted@ == self@.blockers_of(attacker.card.id).sort_by(id_order()),
                tramples_over == (self@.has_keyword(attacker, KeywordAbility::Trample)
                    && self@.spec_combat_defender_target(attacker) is Some),
                actions_view(actions@) == choices.take(i as int).filter_map(choice),
            decreases distributions_of@.len() - i,
        {
            proof {
                choices.lemma_filter_map_take_succ(choice, i as int);
            }
            let amounts = &distributions_of[i];
            assert(choices[i as int] == amounts@);
            if self.division_is_allowed(&attacker, &sorted, tramples_over, amounts) {
                let mut assignments: Vec<CombatDamageAssignment> = Vec::new();
                let mut j: usize = 0;
                while j < recipients.len() && j < amounts.len()
                    invariant
                        j <= recipients@.len(),
                        j <= amounts@.len(),
                        assignments@ == zip_assignments(recipients@.take(j as int), amounts@.take(j as int)),
                    decreases recipients@.len() - j,
                {
                    assignments.push(CombatDamageAssignment { recipient: recipients[j], amount: amounts[j] });
                    proof {
                        assert(assignments@ =~= zip_assignments(recipients@.take(j + 1), amounts@.take(j + 1)));
                    }
                    j = j + 1;
                }
                proof {
                    assert(zip_assignments(recipients@.take(j as int), amounts@.take(j as int))
                        =~= zip_assignments(recipients@, amounts@));
                }
                let ghost before = actions@;
                actions.push(Action::AssignCombatDamage { attacker: attacker_id, assignments });
                proof {
                    assert(choice(choices[i as int]) == Some(ActionView::AssignCombatDamage {
                        attacker: attacker_id,
                        assignments: zip_assignments(recipients@, amounts@),
                    }));
                    assert(actions_view(actions@) =~= actions_view(before).push(
                        ActionView::AssignCombatDamage {
                            attacker: attacker_id,
                            assignments: zip_assignments(recipients@, amounts@),
                        },
                    ));
                }
            } else {
                assert(choice(choices[i as int]) is None);
            }
            i = i + 1;
        }
        proof {
            assert(choices.take(i as int) =~= choices);
        }
        actions
    }

    fn assigned_split_of(&self, source: GameObjectId) -> (split: Vec<(Target, u16)>)
        ensures
            split@ == self@.assigned_split(source),
    {
        let mut split: Vec<(Target, u16)> = Vec::new();
        let mut i: usize = 0;
        while i < self.combat_damage_assignments.len()
            invariant
                i <= self.combat_damage_assignments@.len(),
                split@ == self.combat_damage_assignments@.take(i as int).filter_map(assigned_by(source)),
            decreases self.combat_damage_assignments@.len() - i,
        {
            proof {
                self.combat_damage_assignments@.lemma_filter_map_take_succ(assigned_by(source), i as int);
            }
            let assigned = self.combat_damage_assignments[i];
            if assigned.source == source {
                split.push((assigned.recipient, assigned.amount));
            }
            i = i + 1;
        }
        proof {
            assert(self.combat_damage_assignments@.take(i as int) =~= self.combat_damage_assignments@);
        }
        split
    }

    fn apply_damage_split(&mut self, source: GameObjectId, split: &Vec<(Target, u16)>)
        requires
            old(self).wf(),
        ensures
            final(self)@ == old(self)@.apply_split(source, split@, split@.len() as int),
            final(self).wf(),
            final(self).next_object_id == old(self).next_object_id,
            final(self).battlefield@.len() == old(self).battlefield@.len(),
    {
        let ghost start = self@;
        let mut k: usize = 0;
        while k < split.len()
            invariant
                k <= split@.len(),
                self.wf(),
                self@ == start.apply_split(source, split@, k as int),
                self.next_object_id == start.next_object_id,
                self.battlefield@.len() == start.battlefield.len(),
            decreases split@.len() - k,
        {
            let (recipient, amount) = split[k];
            self.damage_target_from_kind(Some(source), Some(recipient), amount, true);
            k = k + 1;
        }
    }

    /// Combat damage from an attacker to whatever it is attacking.
    pub fn deal_combat_damage_to(&mut self, attacker: GameObjectId, defender: Target, amount: u16)
        requires
            old(self).wf(),
        ensures
            final(self)@ == old(self)@.spec_damage(Some(attacker), Some(defender), amount, true).0,
            final(self).wf(),
            final(self).next_object_id == old(self).next_object_id,
            final(self).battlefield@.len() == old(self).battlefield@.len(),
    {
        match defender {
            Target::Player(player) => self.deal_combat_damage_to_player(attacker, player, amount),
            _ => {
                self.damage_target_from_kind(Some(attacker), Some(defender), amount, true);
            },
        }
    }

    /// Combat damage from an attacker to a player.
    pub fn deal_combat_damage_to_player(&mut self, attacker: GameObjectId, player: PlayerId, amount: u16)
        requires
            old(self).wf(),
        ensures
            final(self)@ == old(self)@.spec_damage(Some(attacker), Some(Target::Player(player)), amount, true).0,
            final(self).wf(),
            final(self).next_object_id == old(self).next_object_id,
            final(self).battlefield@.len() == old(self).battlefield@.len(),
    {
        self.damage_target_from_kind(Some(attacker), Some(Target::Player(player)), amount, true);
    }

    /// A blocked attacker's own combat damage, divided among its blockers
    /// and whatever trample spills onto.
    pub fn deal_attacker_combat_damage(&mut self, attacker_id: GameObjectId, blockers: &Vec<GameObjectId>)
        requires
            old(self).wf(),
        ensures
            final(self)@ == old(self)@.spec_attacker_combat_damage(attacker_id, blockers@),
            final(self).wf(),
            final(self).next_object_id == old(self).next_object_id,
            final(self).battlefield@.len() == old(self).battlefield@.len(),
    {
        let assigned = self.assigned_split_of(attacker_id);
        let split = if assigned.len() == 0 {
            self.default_damage_split(attacker_id, blockers)
        } else {
            assigned
        };
        self.apply_damage_split(attacker_id, &split);
    }

    /// The attacker a blocker deals its damage to.
    pub fn combat_damage_recipients(&self, blocker: GameObjectId) -> (recipients: Vec<GameObjectId>)
        ensures
            recipients@ == self@.spec_combat_damage_recipients(blocker),
    {
        let mut recipients: Vec<GameObjectId> = Vec::new();
        if let Some(index) = self.permanent_position(blocker) {
            if let Some(attacker) = self.battlefield[index].blocking {
                recipients.push(attacker);
                proof {
                    assert(recipients@ =~= seq![attacker]);
                }
            }
        }
        recipients
    }

    fn striking_blockers(&self) -> (blockers: Vec<GameObjectId>)
        ensures
            blockers@ == self@.battlefield.filter_map(self@.striking_blocker()),
    {
        let mut blockers: Vec<GameObjectId> = Vec::new();
        let mut i: usize = 0;
        while i < self.battlefield.len()
            invariant
                i <= self.battlefield@.len(),
                blockers@ == self.battlefield@.take(i as int).filter_map(self@.striking_blocker()),
            decreases self.battlefield@.len() - i,
        {
            proof {
                self.battlefield@.lemma_filter_map_take_succ(self@.striking_blocker(), i as int);
            }
            if self.battlefield[i].is_blocking_anything() && self.deals_damage_in_current_combat_step(
                &self.battlefield[i],
            ) {
                blockers.push(self.battlefield[i].card.id);
            }
            i = i + 1;
        }
        proof {
            assert(self.battlefield@.take(i as int) =~= self.battlefield@);
        }
        blockers
    }

    /// Every blocker's combat damage, divided among the attackers it blocks:
    /// a pass of its own, so a creature deals its power once.
    pub fn deal_blocker_combat_damage(&mut self)
        requires
            old(self).wf(),
        ensures
            final(self)@ == old(self)@.spec_blocker_combat_damage(),
            final(self).wf(),
            final(self).next_object_id == old(self).next_object_id,
            final(self).battlefield@.len() == old(self).battlefield@.len(),
    {
        let blockers = self.striking_blockers();
        let ghost start = self@;
        let mut k: usize = 0;
        while k < blockers.len()
            invariant
                k <= blockers@.len(),
                blockers@ == start.battlefield.filter_map(start.striking_blocker()),
                self.wf(),
                self@ == start.blocker_strikes(blockers@, k as int),
                self.next_object_id == start.next_object_id,
                self.battlefield@.len() == start.battlefield.len(),
            decreases blockers@.len() - k,
        {
            let blocker = blockers[k];
            let assigned = self.assigned_split_of(blocker);
            let split = if assigned.len() == 0 {
                let recipients = self.combat_damage_recipients(blocker);
                self.default_damage_split(blocker, &recipients)
            } else {
                assigned
            };
            self.apply_damage_split(blocker, &split);
            k = k + 1;
        }
    }

    /// One attacker's part of the combat-damage step.
    fn strike_with(&mut self, attacker_id: GameObjectId)
        requires
            old(self).wf(),
        ensures
            final(self)@ == old(self)@.attacker_strike(attacker_id),
            final(self).wf(),
            final(self).next_object_id == old(self).next_object_id,
            final(self).battlefield@.len() == old(self).battlefield@.len(),
    {
        let index = match self.permanent_position(attacker_id) {
            Some(index) => index,
            None => return,
        };
        let attacker = self.battlefield[index];
        let power = clamp_amount(self.power(&attacker));
        if !self.deals_damage_in_current_combat_step(&attacker) {
            return;
        }
        let blockers = self.blocker_ids_of(attacker_id);
        if blockers.len() == 0 {
            let was_blocked = contains_id(&self.combat_blocked_attackers, attacker_id);
            if was_blocked && !self.has_trample(&attacker) {
                return;
            }
            match self.combat_defender_target(&attacker) {
                Some(defender) => self.deal_combat_damage_to(attacker_id, defender, power),
                None => {},
            }
        } else {
            self.deal_attacker_combat_damage(attacker_id, &blockers);
        }
    }

    /// Every attacker strikes, then every blocker; state-based actions are
    /// checked once all of it has been dealt.
    pub fn deal_combat_damage(&mut self)
        requires
            old(self).wf(),
            old(self).next_object_id + 4 * old(self).battlefield@.len() < u32::MAX,
        ensures
            final(self)@ == old(self)@.spec_deal_combat_damage(),
            final(self).wf(),
    {
        reveal(GameView::spec_deal_combat_damage);
        let attackers = self.attacking_ids_now();
        let ghost start = self@;
        let mut k: usize = 0;
        while k < attackers.len()
            invariant
                k <= attackers@.len(),
                attackers@ == start.battlefield.filter_map(crate::combat::attacking_id()),
                self.wf(),
                self@ == start.strikes(attackers@, k as int),
                self.next_object_id == start.next_object_id,
                self.battlefield@.len() == start.battlefield.len(),
            decreases attackers@.len() - k,
        {
            self.strike_with(attackers[k]);
            k = k + 1;
        }
        self.deal_blocker_combat_damage();
        self.check_state_based_actions();
    }

    fn attacking_ids_now(&self) -> (attackers: Vec<GameObjectId>)
        ensures
            attackers@ == self@.battlefield.filter_map(crate::combat::attacking_id()),
    {
        let mut attackers: Vec<GameObjectId> = Vec::new();
        let mut i: usize = 0;
        while i < self.battlefield.len()
            invariant
                i <= self.battlefield@.len(),
                attackers@ == self.battlefield@.take(i as int).filter_map(crate::combat::attacking_id()),
            decreases self.battlefield@.len() - i,
        {
            proof {
                self.battlefield@.lemma_filter_map_take_succ(crate::combat::attacking_id(), i as int);
            }
            if self.battlefield[i].attacking {
                attackers.push(self.battlefield[i].card.id);
            }
            i = i + 1;
        }
        proof {
            assert(self.battlefield@.take(i as int) =~= self.battlefield@);
        }
        attackers
    }

    /// Who assigns this attacker's combat damage (CR 702.22).
    pub fn combat_damage_assigner(&self, attacker: GameObjectId) -> (assigner: PlayerId)
        ensures
            assigner == self@.spec_combat_damage_assigner(attacker),
    {
        let mut i: usize = 0;
        while i < self.battlefield.len()
            invariant
                i <= self.battlefield@.len(),
                forall|j: int| 0 <= j < i ==> !self@.banding_blocker(attacker)(self.battlefield@[j]),
            decreases self.battlefield@.len() - i,
        {
            if self.battlefield[i].blocking == Some(attacker) && self.permanent_has_executable_keyword(
                &self.battlefield[i],
                KeywordAbility::Banding,
            ) {
                proof {
                    lemma_first_match_found(self.battlefield@, self@.banding_blocker(attacker), i as int);
                }
                return self.battlefield[i].controller;
            }
            i = i + 1;
        }
        proof {
            lemma_first_match_absent(self.battlefield@, self@.banding_blocker(attacker));
        }
        self.active_player
    }
}

} // verus!
