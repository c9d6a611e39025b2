//! Dealing damage to players and permanents.
use vstd::prelude::*;

use crate::card::{ColorSet, KeywordAbility};
use crate::ids::{GameObjectId, PlayerId};
use crate::state::{permanent_with, position_of, Game, GameView, Permanent, PlayerView, Target, TriggerEvent};

verus! {

/// A life total after losing `amount`, stopping at the smallest total.
pub open spec fn life_after_loss(life: i32, amount: u16) -> i32 {
    if life - amount < i32::MIN {
        i32::MIN
    } else {
        (life - amount) as i32
    }
}

/// A life total after gaining `amount`, stopping at the largest total.
pub open spec fn life_after_gain(life: i32, amount: u16) -> i32 {
    if life + amount > i32::MAX {
        i32::MAX
    } else {
        (life + amount) as i32
    }
}

pub open spec fn saturating_add_u16(a: u16, b: u16) -> u16 {
    if a + b > u16::MAX {
        u16::MAX
    } else {
        (a + b) as u16
    }
}

pub open spec fn saturating_sub_u16(a: u16, b: u16) -> u16 {
    if a < b {
        0
    } else {
        (a - b) as u16
    }
}

impl GameView {
    /// This game with one player's life total changed.
    pub open spec fn with_life(self, player: PlayerId, life: i32) -> GameView {
        GameView {
            players: self.players.update(
                player.spec_index(),
                PlayerView { life, ..self.players[player.spec_index()] },
            ),
            ..self
        }
    }

    /// The colours damage from this source has.
    pub open spec fn source_colors(self, source: Option<GameObjectId>) -> ColorSet {
        match source {
            Some(source) => self.spec_object_colors(source),
            None => ColorSet::spec_none(),
        }
    }

    /// Damage to a permanent with protection from the source's colour is
    /// prevented.
    pub open spec fn damage_prevented(self, source: Option<GameObjectId>, target: Target) -> bool {
        match target {
            Target::Permanent(id) => match permanent_with(self.battlefield, id) {
                Some(permanent) => self.spec_is_protected_from(
                    permanent,
                    self.source_colors(source),
                ),
                None => false,
            },
            _ => false,
        }
    }

    /// What follows damage once it is dealt: the lifelink gain and the
    /// damage event.
    pub open spec fn after_damage_dealt(
        self,
        source: Option<GameObjectId>,
        recipient: Target,
        amount: u16,
        combat: bool,
        lifelink: Option<PlayerId>,
    ) -> GameView {
        let gained = match lifelink {
            Some(player) => self.with_life(player, life_after_gain(self.life(player), amount)),
            None => self,
        };
        match source {
            Some(source) => GameView {
                triggers: gained.triggers.push(
                    TriggerEvent::DamageDealt { source, recipient, amount, combat },
                ),
                ..gained
            },
            None => gained,
        }
    }

    /// A player losing life to damage, and the source remembering it hurt an
    /// opponent.
    pub open spec fn damage_to_player(self, source: Option<GameObjectId>, player: PlayerId, amount: u16) -> GameView {
        let hurt = self.with_life(player, life_after_loss(self.life(player), amount));
        match source {
            Some(source) => match position_of(hurt.battlefield, source) {
                Some(i) => if hurt.battlefield[i].controller != player {
                    hurt.with_battlefield(
                        hurt.battlefield.update(
                            i,
                            Permanent {
                                dealt_damage_to_opponent_this_turn: true,
                                ..hurt.battlefield[i]
                            },
                        ),
                    )
                } else {
                    hurt
                },
                None => hurt,
            },
            None => hurt,
        }
    }

    /// A permanent taking damage: a planeswalker loses loyalty, anything
    /// else has the damage marked.
    pub open spec fn damaged_permanent(self, permanent: Permanent, amount: u16, deathtouch: bool) -> Permanent {
        if self.is_planeswalker(permanent) {
            Permanent { loyalty: saturating_sub_u16(permanent.loyalty, amount), ..permanent }
        } else {
            Permanent {
                damage: saturating_add_u16(permanent.damage, amount),
                deathtouch_damage: permanent.deathtouch_damage || deathtouch,
                ..permanent
            }
        }
    }

    /// The game after `source` deals `amount` damage to `target`, and how
    /// much was dealt.
    pub open spec fn spec_damage(
        self,
        source: Option<GameObjectId>,
        target: Option<Target>,
        amount: u16,
        combat: bool,
    ) -> (GameView, u16) {
        if amount == 0 || target is None || self.damage_prevented(source, target->0) {
            (self, 0)
        } else {
            let lifelink = match source {
                Some(source) => self.spec_source_controller_with_keyword(
                    source,
                    KeywordAbility::Lifelink,
                ),
                None => None,
            };
            let deathtouch = match source {
                Some(source) => self.spec_source_controller_with_keyword(
                    source,
                    KeywordAbility::Deathtouch,
                ) is Some,
                None => false,
            };
            match target->0 {
                Target::Player(player) => (
                    self.damage_to_player(source, player, amount).after_damage_dealt(
                        source,
                        target->0,
                        amount,
                        combat,
                        lifelink,
                    ),
                    amount,
                ),
                Target::Permanent(id) => match position_of(self.battlefield, id) {
                    Some(i) => (
                        self.with_battlefield(
                            self.battlefield.update(
                                i,
                                self.damaged_permanent(self.battlefield[i], amount, deathtouch),
                            ),
                        ).after_damage_dealt(source, target->0, amount, combat, lifelink),
                        amount,
                    ),
                    None => (self, 0),
                },
                _ => (self, 0),
            }
        }
    }
}

impl Game {
    /// A player loses life to damage.
    pub fn deal_damage(&mut self, player: PlayerId, amount: u16)
        requires
            old(self).wf(),
        ensures
            final(self)@ == old(self)@.with_life(player, life_after_loss(old(self)@.life(player), amount)),
            final(self).wf(),
    {
        let index = player.index();
        let current = self.players[index].life;
        let life: i32 = if current < i32::MIN + amount as i32 {
            i32::MIN
        } else {
            current - amount as i32
        };
        self.players[index].life = life;
        proof {
            assert(self@.players =~= old(self)@.players.update(
                index as int,
                PlayerView { life, ..old(self)@.players[index as int] },
            ));
        }
    }

    /// A player gains life.
    pub fn gain_life(&mut self, player: PlayerId, amount: u16)
        requires
            old(self).wf(),
        ensures
            final(self)@ == old(self)@.with_life(player, life_after_gain(old(self)@.life(player), amount)),
            final(self).wf(),
    {
        let index = player.index();
        let current = self.players[index].life;
        let life: i32 = if current > i32::MAX - amount as i32 {
            i32::MAX
        } else {
            current + amount as i32
        };
        self.players[index].life = life;
        proof {
            assert(self@.players =~= old(self)@.players.update(
                index as int,
                PlayerView { life, ..old(self)@.players[index as int] },
            ));
        }
    }


    fn damage_player_from(&mut self, source: Option<GameObjectId>, player: PlayerId, amount: u16)
        requires
            old(self).wf(),
        ensures
            final(self)@ == old(self)@.damage_to_player(source, player, amount),
            final(self).wf(),
    {
        self.deal_damage(player, amount);
        let ghost hurt = self@;
        if let Some(source) = source {
            if let Some(index) = self.permanent_position(source) {
                if self.battlefield[index].controller != player {
                    self.battlefield[index].dealt_damage_to_opponent_this_turn = true;
                }
            }
        }
        proof {
            assert(self@ == old(self)@.damage_to_player(source, player, amount));
        }
    }

    fn mark_damage(&mut self, index: usize, amount: u16, deathtouch: bool)
        requires
            old(self).wf(),
            index < old(self).battlefield@.len(),
        ensures
            final(self)@ == old(self)@.with_battlefield(
                old(self)@.battlefield.update(
                    index as int,
                    old(self)@.damaged_permanent(old(self)@.battlefield[index as int], amount, deathtouch),
                ),
            ),
            final(self).wf(),
    {
        let mut permanent = self.battlefield[index];
        if self.is_planeswalker_permanent(&permanent) {
            permanent.loyalty = permanent.loyalty.saturating_sub(amount);
        } else {
            permanent.damage = permanent.damage.saturating_add(amount);
            permanent.deathtouch_damage = permanent.deathtouch_damage || deathtouch;
        }
        assert(permanent == old(self)@.damaged_permanent(old(self)@.battlefield[index as int], amount, deathtouch));
        self.battlefield.set(index, permanent);
    }

    fn finish_damage(
        &mut self,
        source: Option<GameObjectId>,
        recipient: Target,
        amount: u16,
        combat: bool,
        lifelink: Option<PlayerId>,
    )
        requires
            old(self).wf(),
        ensures
            final(self)@ == old(self)@.after_damage_dealt(source, recipient, amount, combat, lifelink),
            final(self).wf(),
    {
        if let Some(controller) = lifelink {
            self.gain_life(controller, amount);
        }
        let ghost gained = self@;
        if let Some(source) = source {
            self.triggers.push(TriggerEvent::DamageDealt { source, recipient, amount, combat });
        }
    }

    /// Deals damage from an optional source and reports how much was dealt.
    /// Damage to a permanent whose protection covers the source's colour is
    /// prevented; lifelink and deathtouch are read before anything changes.
    pub fn damage_target_from_kind(
        &mut self,
        source: Option<GameObjectId>,
        target: Option<Target>,
        amount: u16,
        combat: bool,
    ) -> (dealt: u16)
        requires
            old(self).wf(),
        ensures
            (final(self)@, dealt) == old(self)@.spec_damage(source, target, amount, combat),
            final(self).wf(),
            final(self).next_object_id == old(self).next_object_id,
            final(self).battlefield@.len() == old(self).battlefield@.len(),
    {
        let recipient = match target {
            Some(recipient) => recipient,
            None => return 0,
        };
        if amount == 0 {
            return 0;
        }
        let source_colors = match source {
            Some(source) => self.object_colors(source),
            None => ColorSet::none(),
        };
        if let Target::Permanent(id) = recipient {
            if let Some(index) = self.permanent_position(id) {
                if self.is_protected_from_colors(&self.battlefield[index], source_colors) {
                    return 0;
                }
            }
        }
        let lifelink = match source {
            Some(source) => self.source_controller_with_keyword(source, KeywordAbility::Lifelink),
            None => None,
        };
        let deathtouch = match source {
            Some(source) => self.source_controller_with_keyword(
                source,
                KeywordAbility::Deathtouch,
            ).is_some(),
            None => false,
        };
        match recipient {
            Target::Player(player) => self.damage_player_from(source, player, amount),
            Target::Permanent(id) => match self.permanent_position(id) {
                Some(index) => self.mark_damage(index, amount, deathtouch),
                None => return 0,
            },
            _ => return 0,
        }
        self.finish_damage(source, recipient, amount, combat, lifelink);
        amount
    }

    /// Damage from a source that is not combat damage.
    pub fn damage_target_from(
        &mut self,
        source: Option<GameObjectId>,
        target: Option<Target>,
        amount: u16,
    ) -> (dealt: u16)
        requires
            old(self).wf(),
        ensures
            (final(self)@, dealt) == old(self)@.spec_damage(source, target, amount, false),
            final(self).wf(),
    {
        self.damage_target_from_kind(source, target, amount, false)
    }

    /// Damage with no source object.
    pub fn damage_target(&mut self, target: Option<Target>, amount: u16) -> (dealt: u16)
        requires
            old(self).wf(),
        ensures
            (final(self)@, dealt) == old(self)@.spec_damage(None, target, amount, false),
            final(self).wf(),
    {
        self.damage_target_from_kind(None, target, amount, false)
    }
}

} // verus!
