//! The turn skeleton: priority passing, the order of steps, and what
//! happens as a step begins.
use vstd::prelude::*;

use crate::battlefield::out_of_combat;
use crate::card::KeywordSet;
use crate::ids::PlayerId;
use crate::state::{CombatDamageStage, Game, GameView, Permanent, PlayerView, StageView, Step, TriggerEvent};

verus! {

/// The step after this one within a turn; the cleanup step is followed by
/// the next turn's untap step.
pub open spec fn spec_next_step(step: Step) -> Step {
    match step {
        Step::Untap => Step::Upkeep,
        Step::Upkeep => Step::Draw,
        Step::Draw => Step::PrecombatMain,
        Step::PrecombatMain => Step::BeginCombat,
        Step::BeginCombat => Step::DeclareAttackers,
        Step::DeclareAttackers => Step::DeclareBlockers,
        Step::DeclareBlockers => Step::CombatDamage,
        Step::CombatDamage => Step::EndCombat,
        Step::EndCombat => Step::PostcombatMain,
        Step::PostcombatMain => Step::End,
        Step::End => Step::Cleanup,
        Step::Cleanup => Step::Untap,
    }
}

pub fn next_step(step: Step) -> (next: Step)
    ensures
        next == spec_next_step(step),
{
    match step {
        Step::Untap => Step::Upkeep,
        Step::Upkeep => Step::Draw,
        Step::Draw => Step::PrecombatMain,
        Step::PrecombatMain => Step::BeginCombat,
        Step::BeginCombat => Step::DeclareAttackers,
        Step::DeclareAttackers => Step::DeclareBlockers,
        Step::DeclareBlockers => Step::CombatDamage,
        Step::CombatDamage => Step::EndCombat,
        Step::EndCombat => Step::PostcombatMain,
        Step::PostcombatMain => Step::End,
        Step::End => Step::Cleanup,
        Step::Cleanup => Step::Untap,
    }
}

/// A permanent as a new turn of `active` begins: damage and until-end-of-
/// turn effects wear off, per-turn records reset, and the active player's
/// permanents untap.
pub open spec fn turn_reset(active: PlayerId) -> spec_fn(Permanent) -> Permanent {
    |permanent: Permanent|
        Permanent {
            tapped: if permanent.controller == active {
                false
            } else {
                permanent.tapped
            },
            damage: 0,
            deathtouch_damage: false,
            granted: KeywordSet::spec_none(),
            attacked_this_turn: false,
            attacks_this_turn: 0,
            loyalty_ability_activated: false,
            dealt_damage_to_opponent_this_turn: false,
            ..permanent
        }
}

/// A player's state as a turn begins: no land played yet.
pub open spec fn fresh_turn_player(state: PlayerView) -> PlayerView {
    PlayerView { lands_played_this_turn: 0, ..state }
}

pub open spec fn removed_from_combat() -> spec_fn(Permanent) -> Permanent {
    |permanent: Permanent| Permanent { attack_defender: None, ..out_of_combat(permanent) }
}

impl GameView {
    /// A turn counter that stops at its largest value.
    pub open spec fn turns_after_start(self, player: PlayerId) -> Seq<u32> {
        let count = self.turns_started[player.spec_index()];
        self.turns_started.update(
            player.spec_index(),
            if count < u32::MAX {
                (count + 1) as u32
            } else {
                count
            },
        )
    }

    /// The opponent's turn begins: they become the active player, their
    /// permanents untap, and what lasted until end of turn is gone.
    pub open spec fn spec_begin_turn(self) -> GameView {
        let active = self.active_player.spec_opponent();
        GameView {
            active_player: active,
            priority: active,
            consecutive_passes: 0,
            step: Step::Upkeep,
            turns_started: self.turns_after_start(active),
            battlefield: self.battlefield.map_values(turn_reset(active)),
            players: self.players.map_values(|state: PlayerView| fresh_turn_player(state)),
            attackers_declared: false,
            blockers_declared: false,
            creature_died_this_turn: false,
            creatures_died_this_turn: 0,
            ..self
        }
    }

    /// Combat ends: every creature leaves combat and the records of this
    /// combat are cleared.
    pub open spec fn spec_end_combat(self) -> GameView {
        GameView {
            battlefield: self.battlefield.map_values(removed_from_combat()),
            combat_damage_stage: StageView::NotStarted,
            pending_combat_attackers: Seq::empty(),
            combat_blocked_attackers: Seq::empty(),
            combat_damage_assignments: Seq::empty(),
            ..self
        }
    }

    /// Whether the active player skips this turn's draw: the starting
    /// player's first turn.
    pub open spec fn skips_draw(self) -> bool {
        self.active_player == self.starting_player && self.turns_started[self.active_player.spec_index()] <= 1
    }

    /// The active player draws: the top card of their library comes to
    /// their hand as a new object. Drawing from an empty library loses the
    /// game.
    pub open spec fn spec_draw_step_draw(self) -> GameView {
        let player = self.active_player;
        let state = self.player(player);
        if self.skips_draw() {
            self
        } else if state.library.len() == 0 {
            if self.winner is None {
                GameView { winner: Some(player.spec_opponent()), ..self }
            } else {
                self
            }
        } else {
            let (spent, moved) = self.zone_change(state.library.last());
            GameView {
                players: spent.players.update(
                    player.spec_index(),
                    PlayerView { library: state.library.drop_last(), hand: state.hand.push(moved), ..state },
                ),
                ..spent
            }
        }
    }

    /// The game moves on: from a first-strike damage step to the regular
    /// one, otherwise to the next step, doing what that step begins with.
    /// The active player receives priority.
    #[verifier::opaque]
    pub open spec fn spec_advance_step(self) -> GameView {
        let reset = GameView { priority: self.active_player, consecutive_passes: 0, ..self };
        if self.step == Step::CombatDamage && self.combat_damage_stage is FirstStrike {
            reset.spec_begin_regular_combat_damage()
        } else if self.step == Step::End && self.excess_cards(self.active_player) > 0 {
            reset.spec_begin_cleanup()
        } else if self.step == Step::End || self.step == Step::Cleanup {
            reset.spec_begin_turn()
        } else {
            let next = if self.step == Step::DeclareAttackers && !self.any_attacking() {
                Step::EndCombat
            } else {
                spec_next_step(self.step)
            };
            let moved = GameView { step: next, ..reset }.spec_begin_step_triggers();
            if next == Step::Draw {
                moved.spec_draw_step_draw()
            } else if next == Step::CombatDamage {
                moved.spec_start_combat_damage()
            } else if next == Step::PostcombatMain {
                moved.spec_end_combat()
            } else {
                moved
            }
        }
    }

    /// Whether any creature is attacking. With no attackers the declare
    /// blockers and combat damage steps are skipped (CR 508.8).
    pub open spec fn any_attacking(self) -> bool {
        exists|i: int| 0 <= i < self.battlefield.len() && self.battlefield[i].attacking
    }

    /// A pass of priority. When both players have passed in succession the
    /// top of the stack resolves, or with an empty stack the game moves on.
    #[verifier::opaque]
    pub open spec fn spec_pass_priority(self) -> GameView {
        if self.consecutive_passes >= 1 {
            let passed = GameView { consecutive_passes: 2, priority: self.priority.spec_opponent(), ..self };
            if self.stack.len() > 0 {
                passed.spec_resolve_top()
            } else {
                passed.spec_advance_step()
            }
        } else {
            GameView { consecutive_passes: 1, priority: self.priority.spec_opponent(), ..self }
        }
    }

    /// The beginning of a step is published; the upkeep publishes its own.
    pub open spec fn spec_begin_step_triggers(self) -> GameView {
        if self.step == Step::Upkeep {
            self
        } else {
            GameView {
                triggers: self.triggers.push(TriggerEvent::StepBegins { step: self.step, player: self.active_player }),
                ..self
            }
        }
    }

    /// Whether the first-strike damage step has happened and the regular
    /// one is still to come.
    pub open spec fn spec_regular_combat_damage_pending(self) -> bool {
        self.combat_damage_stage is FirstStrike
    }
}

impl Game {
    /// Whether the regular combat-damage step is still to come after a
    /// first-strike step.
    pub fn regular_combat_damage_pending(&self) -> (pending: bool)
        ensures
            pending == self@.spec_regular_combat_damage_pending(),
    {
        match self.combat_damage_stage {
            CombatDamageStage::FirstStrike { .. } => true,
            _ => false,
        }
    }

    /// Whether any creature is attacking.
    pub fn any_attacking(&self) -> (attacking: bool)
        ensures
            attacking == self@.any_attacking(),
    {
        let mut i: usize = 0;
        while i < self.battlefield.len()
            invariant
                i <= self.battlefield@.len(),
                forall|j: int| 0 <= j < i ==> !self.battlefield@[j].attacking,
            decreases self.battlefield@.len() - i,
        {
            if self.battlefield[i].attacking {
                return true;
            }
            i = i + 1;
        }
        false
    }

    /// Publishes the beginning of the current step, except the upkeep's.
    pub fn begin_step_triggers(&mut self)
        ensures
            final(self)@ == old(self)@.spec_begin_step_triggers(),
    {
        if self.step == Step::Upkeep {
            return;
        }
        let ghost before = self@;
        self.triggers.push(TriggerEvent::StepBegins { step: self.step, player: self.active_player });
        proof {
            assert(self@.triggers =~= before.triggers.push(
                TriggerEvent::StepBegins { step: self.step, player: self.active_player },
            ));
        }
    }

    fn reset_battlefield_for_turn(&mut self, active: PlayerId)
        ensures
            final(self)@ == (GameView {
                battlefield: old(self)@.battlefield.map_values(turn_reset(active)),
                ..old(self)@
            }),
    {
        let mut field: Vec<Permanent> = Vec::new();
        std::mem::swap(&mut field, &mut self.battlefield);
        let ghost initial = field@;
        let mut i: usize = 0;
        while i < field.len()
            invariant
                i <= field@.len(),
                field@.len() == initial.len(),
                forall|j: int| 0 <= j < i ==> field@[j] == turn_reset(active)(initial[j]),
                forall|j: int| i <= j < field@.len() ==> field@[j] == initial[j],
            decreases field@.len() - i,
        {
            let mut permanent = field[i];
            if permanent.controller == active {
                permanent.tapped = false;
            }
            permanent.damage = 0;
            permanent.deathtouch_damage = false;
            permanent.granted = KeywordSet::none();
            permanent.attacked_this_turn = false;
            permanent.attacks_this_turn = 0;
            permanent.loyalty_ability_activated = false;
            permanent.dealt_damage_to_opponent_this_turn = false;
            field.set(i, permanent);
            i = i + 1;
        }
        proof {
            assert(field@ =~= initial.map_values(turn_reset(active)));
        }
        self.battlefield = field;
    }

    pub(crate) fn begin_turn(&mut self)
        requires
            old(self).wf(),
        ensures
            final(self)@ == old(self)@.spec_begin_turn(),
            final(self).wf(),
            final(self).next_object_id == old(self).next_object_id,
            final(self).battlefield@.len() == old(self).battlefield@.len(),
    {
        let active = self.active_player.opponent();
        self.reset_battlefield_for_turn(active);
        let index = active.index();
        let count = self.turns_started[index];
        if count < u32::MAX {
            self.turns_started.set(index, count + 1);
        }
        self.players[0].lands_played_this_turn = 0;
        self.players[1].lands_played_this_turn = 0;
        self.active_player = active;
        self.priority = active;
        self.consecutive_passes = 0;
        self.step = Step::Upkeep;
        self.attackers_declared = false;
        self.blockers_declared = false;
        self.creature_died_this_turn = false;
        self.creatures_died_this_turn = 0;
        proof {
            assert(self@.turns_started =~= old(self)@.turns_after_start(active));
            assert(self@.players =~= old(self)@.players.map_values(
                |state: PlayerView| fresh_turn_player(state),
            ));
        }
    }

    fn end_combat(&mut self)
        ensures
            final(self)@ == old(self)@.spec_end_combat(),
    {
        let mut field: Vec<Permanent> = Vec::new();
        std::mem::swap(&mut field, &mut self.battlefield);
        let ghost initial = field@;
        let mut i: usize = 0;
        while i < field.len()
            invariant
                i <= field@.len(),
                field@.len() == initial.len(),
                forall|j: int| 0 <= j < i ==> field@[j] == removed_from_combat()(initial[j]),
                forall|j: int| i <= j < field@.len() ==> field@[j] == initial[j],
            decreases field@.len() - i,
        {
            let mut permanent = field[i];
            permanent.attacking = false;
            permanent.attacking_band = None;
            permanent.blocked = false;
            permanent.blocking = None;
            permanent.attack_defender = None;
            field.set(i, permanent);
            i = i + 1;
        }
        proof {
            assert(field@ =~= initial.map_values(removed_from_combat()));
        }
        self.battlefield = field;
        self.combat_damage_stage = CombatDamageStage::NotStarted;
        self.pending_combat_attackers = Vec::new();
        self.combat_blocked_attackers = Vec::new();
        self.combat_damage_assignments = Vec::new();
    }

    fn draw_step_draw(&mut self)
        requires
            old(self).wf(),
            old(self).next_object_id < u32::MAX,
        ensures
            final(self)@ == old(self)@.spec_draw_step_draw(),
            final(self).wf(),
            final(self).battlefield@ == old(self).battlefield@,
            final(self).next_object_id <= old(self).next_object_id + 1,
    {
        let player = self.active_player;
        let index = player.index();
        if player == self.starting_player && self.turns_started[index] <= 1 {
            return;
        }
        let count = self.players[index].library.len();
        if count == 0 {
            if self.winner.is_none() {
                self.winner = Some(player.opponent());
            }
            return;
        }
        let ghost state = old(self)@.player(player);
        let card = self.players[index].library[count - 1];
        let moved = self.zone_change_card(card);
        self.players[index].library.pop();
        self.players[index].hand.push(moved);
        proof {
            assert(self@.players[index as int].library =~= state.library.drop_last());
            assert(self@.players =~= old(self)@.players.update(
                player.spec_index(),
                PlayerView { library: state.library.drop_last(), hand: state.hand.push(moved), ..state },
            ));
        }
    }

    /// Moves the game on: from a first-strike damage step to the regular
    /// one, otherwise to the next step; the active player receives priority.
    pub fn advance_step(&mut self)
        requires
            old(self).wf(),
            old(self).next_object_id + 4 * old(self).battlefield@.len() + 1 < u32::MAX,
        ensures
            final(self)@ == old(self)@.spec_advance_step(),
            final(self).wf(),
    {
        reveal(GameView::spec_advance_step);
        let first_strike_step = self.step == Step::CombatDamage && match self.combat_damage_stage {
            CombatDamageStage::FirstStrike { .. } => true,
            _ => false,
        };
        self.priority = self.active_player;
        self.consecutive_passes = 0;
        if first_strike_step {
            self.begin_regular_combat_damage_after_first_strike();
        } else if self.step == Step::End && self.players[self.active_player.index()].hand.len()
            > crate::decisions::MAXIMUM_HAND_SIZE {
            self.begin_cleanup();
        } else if self.step == Step::End || self.step == Step::Cleanup {
            self.begin_turn();
        } else {
            let next = if self.step == Step::DeclareAttackers && !self.any_attacking() {
                Step::EndCombat
            } else {
                next_step(self.step)
            };
            self.step = next;
            self.begin_step_triggers();
            if next == Step::Draw {
                self.draw_step_draw();
            } else if next == Step::CombatDamage {
                self.start_combat_damage();
            } else if next == Step::PostcombatMain {
                self.end_combat();
            }
        }
    }

    /// Passes priority. When both players have passed in succession the top
    /// of the stack resolves, or with an empty stack the game moves on.
    pub fn pass_priority(&mut self)
        requires
            old(self).wf(),
            old(self).next_object_id + 4 * old(self).battlefield@.len() + 5 < u32::MAX,
        ensures
            final(self)@ == old(self)@.spec_pass_priority(),
            final(self).wf(),
    {
        reveal(GameView::spec_pass_priority);
        let both = self.consecutive_passes >= 1;
        self.priority = self.priority.opponent();
        if both {
            self.consecutive_passes = 2;
            if self.stack.len() > 0 {
                self.resolve_top_of_stack();
            } else {
                self.advance_step();
            }
        } else {
            self.consecutive_passes = 1;
        }
    }
}

} // verus!
