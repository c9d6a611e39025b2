//! The combat-damage steps: splitting off a first-strike wave, asking for
//! damage divisions where there is a real choice, and dealing the damage.
use vstd::prelude::*;

use crate::banding::contains_id;
use crate::battlefield::not_from;
use crate::card::KeywordAbility;
use crate::ids::GameObjectId;
use crate::state::{
    actions_view, permanent_with, AssignedCombatDamage, CombatDamageAssignment,
    CombatDamageStage, Game, GameView, Permanent, StageView,
};

verus! {

/// The attacker a permanent blocks, if it blocks.
pub open spec fn blocked_attacker() -> spec_fn(Permanent) -> Option<GameObjectId> {
    |permanent: Permanent| permanent.blocking
}

/// `list` with each of `items`, in order, appended unless already present.
pub open spec fn appended_once(list: Seq<GameObjectId>, items: Seq<GameObjectId>) -> Seq<GameObjectId>
    decreases items.len(),
{
    if items.len() == 0 {
        list
    } else {
        let earlier = appended_once(list, items.drop_last());
        if earlier.contains(items.last()) {
            earlier
        } else {
            earlier.push(items.last())
        }
    }
}

/// A share of combat damage recorded against the creature that deals it.
pub open spec fn as_assigned(source: GameObjectId) -> spec_fn(CombatDamageAssignment) -> AssignedCombatDamage {
    |assignment: CombatDamageAssignment|
        AssignedCombatDamage { source, recipient: assignment.recipient, amount: assignment.amount }
}

impl GameView {
    /// A combatant that strikes in the first-strike wave.
    pub open spec fn strike_wave_member(self) -> spec_fn(Permanent) -> Option<GameObjectId> {
        |permanent: Permanent|
            if (permanent.attacking || permanent.blocking is Some) && (self.has_keyword(
                permanent,
                KeywordAbility::FirstStrike,
            ) || self.has_keyword(permanent, KeywordAbility::DoubleStrike)) {
                Some(permanent.card.id)
            } else {
                None
            }
    }

    /// An attacker striking now whose controller has more than one legal
    /// division of its damage to choose from.
    pub open spec fn needs_assignment(self) -> spec_fn(Permanent) -> Option<GameObjectId> {
        |permanent: Permanent|
            if permanent.attacking && self.spec_deals_damage_now(permanent)
                && self.spec_combat_assignment_actions(permanent.card.id).len() > 1 {
                Some(permanent.card.id)
            } else {
                None
            }
    }

    /// Clears the recorded divisions and asks the attackers that have a real
    /// choice; with nobody to ask, the damage is dealt at once.
    #[verifier::opaque]
    pub open spec fn spec_begin_combat_damage_assignment(self) -> GameView {
        let cleared = GameView { combat_damage_assignments: Seq::empty(), ..self };
        let asking = GameView {
            pending_combat_attackers: cleared.battlefield.filter_map(cleared.needs_assignment()),
            ..cleared
        };
        if asking.pending_combat_attackers.len() == 0 {
            asking.spec_deal_combat_damage()
        } else {
            asking
        }
    }

    /// Records the live blocking relationships, splits off the first-strike
    /// wave when any combatant has first strike or double strike, and begins
    /// the first damage step.
    pub open spec fn spec_start_combat_damage(self) -> GameView {
        let recorded = GameView {
            combat_blocked_attackers: appended_once(
                self.combat_blocked_attackers,
                self.battlefield.filter_map(blocked_attacker()),
            ),
            ..self
        };
        let wave = recorded.battlefield.filter_map(recorded.strike_wave_member());
        let staged = GameView {
            combat_damage_stage: if wave.len() == 0 {
                StageView::Single
            } else {
                StageView::FirstStrike(wave)
            },
            ..recorded
        };
        staged.spec_begin_combat_damage_assignment()
    }

    /// After the first-strike wave, the regular step for everyone else and
    /// for double strikers; outside a first-strike step nothing happens.
    pub open spec fn spec_begin_regular_combat_damage(self) -> GameView {
        match self.combat_damage_stage {
            StageView::FirstStrike(wave) => GameView {
                combat_damage_stage: StageView::RegularAfterFirstStrike(wave),
                ..self
            }.spec_begin_combat_damage_assignment(),
            _ => self,
        }
    }

    /// The next pending attacker's division is recorded (if it is still on
    /// the battlefield) and it stops pending; once nobody is left to ask,
    /// the damage is dealt.
    pub open spec fn spec_assign_combat_damage(
        self,
        attacker: GameObjectId,
        assignments: Seq<CombatDamageAssignment>,
    ) -> GameView {
        let recorded = if permanent_with(self.battlefield, attacker) is Some {
            GameView {
                combat_damage_assignments: self.combat_damage_assignments.filter(not_from(attacker))
                    + assignments.map_values(as_assigned(attacker)),
                ..self
            }
        } else {
            self
        };
        let next = GameView {
            pending_combat_attackers: self.pending_combat_attackers.drop_first(),
            ..recorded
        };
        if next.pending_combat_attackers.len() == 0 {
            next.spec_deal_combat_damage()
        } else {
            next
        }
    }
}

impl Game {
    fn blocked_attacker_ids(&self) -> (ids: Vec<GameObjectId>)
        ensures
            ids@ == self@.battlefield.filter_map(blocked_attacker()),
    {
        let mut ids: Vec<GameObjectId> = Vec::new();
        let mut i: usize = 0;
        while i < self.battlefield.len()
            invariant
                i <= self.battlefield@.len(),
                ids@ == self.battlefield@.take(i as int).filter_map(blocked_attacker()),
            decreases self.battlefield@.len() - i,
        {
            proof {
                self.battlefield@.lemma_filter_map_take_succ(blocked_attacker(), i as int);
            }
            if let Some(attacker) = self.battlefield[i].blocking {
                ids.push(attacker);
            }
            i = i + 1;
        }
        proof {
            assert(self.battlefield@.take(i as int) =~= self.battlefield@);
        }
        ids
    }

    fn strike_wave_ids(&self) -> (ids: Vec<GameObjectId>)
        ensures
            ids@ == self@.battlefield.filter_map(self@.strike_wave_member()),
    {
        let mut ids: Vec<GameObjectId> = Vec::new();
        let mut i: usize = 0;
        while i < self.battlefield.len()
            invariant
                i <= self.battlefield@.len(),
                ids@ == self.battlefield@.take(i as int).filter_map(self@.strike_wave_member()),
            decreases self.battlefield@.len() - i,
        {
            proof {
                self.battlefield@.lemma_filter_map_take_succ(self@.strike_wave_member(), i as int);
            }
            let permanent = &self.battlefield[i];
            if (permanent.attacking || permanent.blocking.is_some()) && (
            self.permanent_has_executable_keyword(permanent, KeywordAbility::FirstStrike)
                || self.permanent_has_executable_keyword(permanent, KeywordAbility::DoubleStrike)) {
                ids.push(permanent.card.id);
            }
            i = i + 1;
        }
        proof {
            assert(self.battlefield@.take(i as int) =~= self.battlefield@);
        }
        ids
    }

    fn attackers_needing_assignment(&self) -> (ids: Vec<GameObjectId>)
        ensures
            ids@ == self@.battlefield.filter_map(self@.needs_assignment()),
    {
        let mut ids: Vec<GameObjectId> = Vec::new();
        let mut i: usize = 0;
        while i < self.battlefield.len()
            invariant
                i <= self.battlefield@.len(),
                ids@ == self.battlefield@.take(i as int).filter_map(self@.needs_assignment()),
            decreases self.battlefield@.len() - i,
        {
            proof {
                self.battlefield@.lemma_filter_map_take_succ(self@.needs_assignment(), i as int);
            }
            let permanent = &self.battlefield[i];
            if permanent.attacking && self.deals_damage_in_current_combat_step(permanent) {
                let actions = self.combat_assignment_actions(permanent.card.id);
                proof {
                    assert(actions_view(actions@).len() == actions@.len());
                }
                if actions.len() > 1 {
                    ids.push(permanent.card.id);
                }
            }
            i = i + 1;
        }
        proof {
            assert(self.battlefield@.take(i as int) =~= self.battlefield@);
        }
        ids
    }

    /// Starts a damage step: recorded divisions are cleared, the attackers
    /// with a real choice are queued to assign, and with none queued the
    /// damage is dealt at once.
    pub fn begin_combat_damage_assignment(&mut self)
        requires
            old(self).wf(),
            old(self).next_object_id + 4 * old(self).battlefield@.len() < u32::MAX,
        ensures
            final(self)@ == old(self)@.spec_begin_combat_damage_assignment(),
            final(self).wf(),
    {
        reveal(GameView::spec_begin_combat_damage_assignment);
        self.combat_damage_assignments = Vec::new();
        let pending = self.attackers_needing_assignment();
        self.pending_combat_attackers = pending;
        if self.pending_combat_attackers.len() == 0 {
            self.deal_combat_damage();
        }
    }

    /// Enters combat damage: blocking relationships still standing are
    /// remembered, the first-strike wave is split off when there is one, and
    /// the first damage step begins.
    pub fn start_combat_damage(&mut self)
        requires
            old(self).wf(),
            old(self).next_object_id + 4 * old(self).battlefield@.len() < u32::MAX,
        ensures
            final(self)@ == old(self)@.spec_start_combat_damage(),
            final(self).wf(),
    {
        let blocked = self.blocked_attacker_ids();
        let mut list: Vec<GameObjectId> = Vec::new();
        std::mem::swap(&mut list, &mut self.combat_blocked_attackers);
        let ghost initial = list@;
        let mut k: usize = 0;
        while k < blocked.len()
            invariant
                k <= blocked@.len(),
                list@ == appended_once(initial, blocked@.take(k as int)),
            decreases blocked@.len() - k,
        {
            proof {
                assert(blocked@.take(k + 1).drop_last() =~= blocked@.take(k as int));
            }
            let attacker = blocked[k];
            if !contains_id(&list, attacker) {
                list.push(attacker);
            }
            k = k + 1;
        }
        proof {
            assert(blocked@.take(k as int) =~= blocked@);
        }
        self.combat_blocked_attackers = list;
        let wave = self.strike_wave_ids();
        if wave.len() == 0 {
            self.combat_damage_stage = CombatDamageStage::Single;
        } else {
            self.combat_damage_stage = CombatDamageStage::FirstStrike { strike_wave_combatants: wave };
        }
        self.begin_combat_damage_assignment();
    }

    /// Moves from the first-strike step to the regular one.
    pub fn begin_regular_combat_damage_after_first_strike(&mut self)
        requires
            old(self).wf(),
            old(self).next_object_id + 4 * old(self).battlefield@.len() < u32::MAX,
        ensures
            final(self)@ == old(self)@.spec_begin_regular_combat_damage(),
            final(self).wf(),
    {
        let wave = match &self.combat_damage_stage {
            CombatDamageStage::FirstStrike { strike_wave_combatants } => strike_wave_combatants.clone(),
            _ => return,
        };
        proof {
            assert(wave@ =~= self@.combat_damage_stage->FirstStrike_0);
        }
        self.combat_damage_stage = CombatDamageStage::RegularAfterFirstStrike {
            strike_wave_combatants: wave,
        };
        self.begin_combat_damage_assignment();
    }

    /// Records the division chosen for the attacker at the head of the
    /// queue; once nobody is left to ask, the damage is dealt.
    pub fn assign_combat_damage(&mut self, attacker: GameObjectId, assignments: Vec<CombatDamageAssignment>)
        requires
            old(self).wf(),
            old(self).pending_combat_attackers@.len() > 0,
            old(self).next_object_id + 4 * old(self).battlefield@.len() < u32::MAX,
        ensures
            final(self)@ == old(self)@.spec_assign_combat_damage(attacker, assignments@),
            final(self).wf(),
    {
        if self.permanent_position(attacker).is_some() {
            let mut added: Vec<AssignedCombatDamage> = Vec::new();
            let mut k: usize = 0;
            while k < assignments.len()
                invariant
                    k <= assignments@.len(),
                    added@ == assignments@.take(k as int).map_values(as_assigned(attacker)),
                decreases assignments@.len() - k,
            {
                let assignment = assignments[k];
                added.push(
                    AssignedCombatDamage {
                        source: attacker,
                        recipient: assignment.recipient,
                        amount: assignment.amount,
                    },
                );
                proof {
                    assert(assignments@.take(k + 1).map_values(as_assigned(attacker)) =~= assignments@.take(
                        k as int,
                    ).map_values(as_assigned(attacker)).push(as_assigned(attacker)(assignment)));
                }
                k = k + 1;
            }
            proof {
                assert(assignments@.take(k as int) =~= assignments@);
            }
            self.forget_assignments_of(attacker);
            self.combat_damage_assignments.append(&mut added);
        }
        let ghost before_removal = self.pending_combat_attackers@;
        self.pending_combat_attackers.remove(0);
        proof {
            assert(self.pending_combat_attackers@ =~= before_removal.drop_first());
        }
        if self.pending_combat_attackers.len() == 0 {
            self.deal_combat_damage();
        }
    }
}

} // verus!
