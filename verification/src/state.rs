//! The game state: players, zones, the battlefield and the combat and turn
//! bookkeeping every rule reads.
use vstd::prelude::*;

use crate::card::{catalog, CardDefinition, ColorSet, KeywordAbility, KeywordSet, ManaColor};
use crate::ids::{AbilityId, CardDefinitionId, CardPartId, GameObjectId, PlayerId};

verus! {

/// One card as a game object: which card it is, which object it is now, and
/// who owns it.
#[derive(Clone, Copy, Debug, PartialEq, Eq, Structural)]
pub struct CardInstance {
    pub id: GameObjectId,
    pub definition: CardDefinitionId,
    pub owner: PlayerId,
}

/// What a spell or ability can point at.
#[derive(Clone, Copy, Debug, PartialEq, Eq, Structural)]
pub enum Target {
    Player(PlayerId),
    Permanent(GameObjectId),
    Card(GameObjectId),
    Spell(GameObjectId),
}

/// What an attacking creature attacks.
#[derive(Clone, Copy, Debug, PartialEq, Eq, Structural)]
pub enum AttackDefender {
    Player(PlayerId),
    Planeswalker(GameObjectId),
}

/// The counters the engine tracks.
#[derive(Clone, Copy, Debug, PartialEq, Eq, Structural)]
pub enum CounterKind {
    Loyalty,
    PlusOnePlusOne,
}

/// One share of an attacker's or blocker's combat damage.
#[derive(Clone, Copy, Debug, PartialEq, Eq, Structural)]
pub struct CombatDamageAssignment {
    pub recipient: Target,
    pub amount: u16,
}

/// The zones a card can be in.
#[derive(Clone, Copy, Debug, PartialEq, Eq, Structural)]
pub enum ZoneKind {
    Library,
    Hand,
    Graveyard,
    Exile,
    Battlefield,
    Stack,
    Command,
}

/// Where a library placement goes.
#[derive(Clone, Copy, Debug, PartialEq, Eq, Structural)]
pub enum ZonePlacement {
    Top,
    Bottom,
}

/// A description of the creatures a combat restriction or requirement
/// names.
#[derive(Clone, Copy, Debug, PartialEq, Eq, Structural)]
pub enum CreatureFilter {
    Any,
    WithKeyword(KeywordAbility),
    OfColor(ManaColor),
    Artifact,
}

/// The blocking rules continuous effects give a permanent: restrictions
/// (CR 509.1b) and requirements (CR 509.1c).
#[derive(Clone, Copy, Debug, PartialEq, Eq, Structural)]
pub struct BlockingRules {
    /// It can't block.
    pub cannot_block: bool,
    /// It can't be blocked.
    pub cannot_be_blocked: bool,
    /// It can't be blocked by creatures of this kind.
    pub cannot_be_blocked_by: Option<CreatureFilter>,
    /// Creatures of this kind able to block it must do so.
    pub must_be_blocked_by: Option<CreatureFilter>,
    /// It can block only creatures of this kind.
    pub can_block_only: Option<CreatureFilter>,
}

impl BlockingRules {
    pub open spec fn spec_none() -> BlockingRules {
        BlockingRules {
            cannot_block: false,
            cannot_be_blocked: false,
            cannot_be_blocked_by: None,
            must_be_blocked_by: None,
            can_block_only: None,
        }
    }

    /// No blocking rule at all.
    #[verifier::when_used_as_spec(spec_none)]
    pub fn none() -> (rules: BlockingRules)
        ensures
            rules == Self::spec_none(),
    {
        BlockingRules {
            cannot_block: false,
            cannot_be_blocked: false,
            cannot_be_blocked_by: None,
            must_be_blocked_by: None,
            can_block_only: None,
        }
    }
}

/// A permanent on the battlefield.
#[derive(Clone, Copy, Debug, PartialEq, Eq, Structural)]
pub struct Permanent {
    pub card: CardInstance,
    pub presented: CardPartId,
    pub controller: PlayerId,
    pub tapped: bool,
    /// The turn count of the controller when this permanent came under their
    /// control; a creature may attack once a later turn of theirs started.
    pub entered_controller_turn: u32,
    pub attacking: bool,
    pub attack_defender: Option<AttackDefender>,
    pub attacking_band: Option<u32>,
    pub attacked_this_turn: bool,
    pub attacks_this_turn: u8,
    pub blocking: Option<GameObjectId>,
    pub blocked: bool,
    pub damage: u16,
    pub deathtouch_damage: bool,
    pub loyalty: u16,
    pub plus_one_counters: u16,
    pub regeneration_shields: u16,
    pub detained_until_turn_of: Option<PlayerId>,
    /// Keywords granted until end of turn.
    pub granted: KeywordSet,
    pub color_override: Option<ColorSet>,
    pub attached_to: Option<GameObjectId>,
    pub exile_instead_of_dying: bool,
    pub loyalty_ability_activated: bool,
    pub dealt_damage_to_opponent_this_turn: bool,
    /// Blocking restrictions and requirements continuous effects give it.
    pub blocking_rules: BlockingRules,
}

impl Permanent {
    /// A permanent as it arrives: untapped, out of combat, with no damage,
    /// and with the loyalty its card prints.
    pub open spec fn spec_entering(card: CardInstance, controller: PlayerId, controller_turn: u32) -> Permanent {
        Permanent {
            card,
            presented: CardPartId::PRIMARY,
            controller,
            tapped: false,
            entered_controller_turn: controller_turn,
            attacking: false,
            attack_defender: None,
            attacking_band: None,
            attacked_this_turn: false,
            attacks_this_turn: 0,
            blocking: None,
            blocked: false,
            damage: 0,
            deathtouch_damage: false,
            loyalty: match catalog(card.definition) {
                Some(definition) => definition.loyalty,
                None => 0,
            },
            plus_one_counters: 0,
            regeneration_shields: 0,
            detained_until_turn_of: None,
            granted: KeywordSet::spec_none(),
            color_override: None,
            attached_to: None,
            exile_instead_of_dying: false,
            loyalty_ability_activated: false,
            dealt_damage_to_opponent_this_turn: false,
            blocking_rules: BlockingRules::spec_none(),
        }
    }

    /// A permanent as it arrives: untapped, out of combat, with no damage,
    /// and with the loyalty its card prints.
    pub fn entering(card: CardInstance, controller: PlayerId, controller_turn: u32) -> (permanent:
        Permanent)
        ensures
            permanent == Permanent::spec_entering(card, controller, controller_turn),
            permanent.is_fresh(),
    {
        let loyalty: u16 = match crate::card::card_definition(card.definition) {
            Some(definition) => definition.loyalty,
            None => 0,
        };
        Permanent {
            card,
            presented: CardPartId::PRIMARY,
            controller,
            tapped: false,
            entered_controller_turn: controller_turn,
            attacking: false,
            attack_defender: None,
            attacking_band: None,
            attacked_this_turn: false,
            attacks_this_turn: 0,
            blocking: None,
            blocked: false,
            damage: 0,
            deathtouch_damage: false,
            loyalty,
            plus_one_counters: 0,
            regeneration_shields: 0,
            detained_until_turn_of: None,
            granted: KeywordSet::none(),
            color_override: None,
            attached_to: None,
            exile_instead_of_dying: false,
            loyalty_ability_activated: false,
            dealt_damage_to_opponent_this_turn: false,
            blocking_rules: BlockingRules::none(),
        }
    }

    /// Everything a newly arrived permanent has not yet done.
    pub open spec fn is_fresh(self) -> bool {
        &&& self.presented == CardPartId::PRIMARY
        &&& !self.tapped
        &&& !self.attacking
        &&& self.attack_defender is None
        &&& self.attacking_band is None
        &&& !self.attacked_this_turn
        &&& self.attacks_this_turn == 0
        &&& self.blocking is None
        &&& !self.blocked
        &&& self.damage == 0
        &&& !self.deathtouch_damage
        &&& self.plus_one_counters == 0
        &&& self.regeneration_shields == 0
        &&& self.detained_until_turn_of is None
        &&& self.granted == KeywordSet::spec_none()
        &&& self.color_override is None
        &&& self.attached_to is None
        &&& !self.exile_instead_of_dying
        &&& !self.loyalty_ability_activated
        &&& !self.dealt_damage_to_opponent_this_turn
    }

    pub open spec fn spec_counters(&self, kind: CounterKind) -> u16 {
        match kind {
            CounterKind::Loyalty => self.loyalty,
            CounterKind::PlusOnePlusOne => self.plus_one_counters,
        }
    }

    /// How many counters of this kind the permanent has.
    #[verifier::when_used_as_spec(spec_counters)]
    pub fn counters(&self, kind: CounterKind) -> (count: u16)
        ensures
            count == self.spec_counters(kind),
    {
        match kind {
            CounterKind::Loyalty => self.loyalty,
            CounterKind::PlusOnePlusOne => self.plus_one_counters,
        }
    }

    pub open spec fn with_counters(self, kind: CounterKind, count: u16) -> Permanent {
        match kind {
            CounterKind::Loyalty => Permanent { loyalty: count, ..self },
            CounterKind::PlusOnePlusOne => Permanent { plus_one_counters: count, ..self },
        }
    }

    /// Sets the number of counters of one kind.
    pub fn set_counters(&mut self, kind: CounterKind, count: u16)
        ensures
            *final(self) == old(self).with_counters(kind, count),
    {
        match kind {
            CounterKind::Loyalty => self.loyalty = count,
            CounterKind::PlusOnePlusOne => self.plus_one_counters = count,
        }
    }

    /// Puts counters on; the count stops at its largest value.
    pub fn add_counters(&mut self, kind: CounterKind, amount: u16)
        ensures
            *final(self) == old(self).with_counters(
                kind,
                if old(self).spec_counters(kind) + amount > u16::MAX {
                    u16::MAX
                } else {
                    (old(self).spec_counters(kind) + amount) as u16
                },
            ),
    {
        let count = self.counters(kind).saturating_add(amount);
        self.set_counters(kind, count);
    }

    /// Whether this permanent is blocking some attacker.
    pub fn is_blocking_anything(&self) -> (blocking: bool)
        ensures
            blocking == self.blocking is Some,
    {
        self.blocking.is_some()
    }

    /// Whether this permanent is blocking that attacker.
    pub fn is_blocking(&self, attacker: GameObjectId) -> (blocking: bool)
        ensures
            blocking == (self.blocking == Some(attacker)),
    {
        match self.blocking {
            Some(blocked) => blocked == attacker,
            None => false,
        }
    }
}

/// The steps of a turn.
#[derive(Clone, Copy, Debug, PartialEq, Eq, Structural)]
pub enum Step {
    Untap,
    Upkeep,
    Draw,
    PrecombatMain,
    BeginCombat,
    DeclareAttackers,
    DeclareBlockers,
    CombatDamage,
    EndCombat,
    PostcombatMain,
    End,
    Cleanup,
}

impl Step {
    pub open spec fn spec_is_main(self) -> bool {
        self == Step::PrecombatMain || self == Step::PostcombatMain
    }

    /// Whether this is one of the two main phases.
    #[verifier::when_used_as_spec(spec_is_main)]
    pub fn is_main(self) -> (main: bool)
        ensures
            main == self.spec_is_main(),
    {
        match self {
            Step::PrecombatMain | Step::PostcombatMain => true,
            _ => false,
        }
    }
}

/// Which of the possible combat-damage steps is being processed. Both strike
/// waves are the one public combat-damage step; the first wave's combatants
/// are remembered so the second can tell who already struck.
#[derive(Clone, Debug)]
pub enum CombatDamageStage {
    NotStarted,
    Single,
    FirstStrike { strike_wave_combatants: Vec<GameObjectId> },
    RegularAfterFirstStrike { strike_wave_combatants: Vec<GameObjectId> },
}

/// The combat-damage stage as a mathematical value.
#[verifier::ext_equal]
pub enum StageView {
    NotStarted,
    Single,
    FirstStrike(Seq<GameObjectId>),
    RegularAfterFirstStrike(Seq<GameObjectId>),
}

impl View for CombatDamageStage {
    type V = StageView;

    open spec fn view(&self) -> StageView {
        match self {
            CombatDamageStage::NotStarted => StageView::NotStarted,
            CombatDamageStage::Single => StageView::Single,
            CombatDamageStage::FirstStrike { strike_wave_combatants } => StageView::FirstStrike(
                strike_wave_combatants@,
            ),
            CombatDamageStage::RegularAfterFirstStrike { strike_wave_combatants } =>
                StageView::RegularAfterFirstStrike(strike_wave_combatants@),
        }
    }
}

/// Public designation survives using the special action. The object is the
/// initial outside-game object, never a later copy or another sideboard card.
#[derive(Clone, Copy, Debug, Eq, PartialEq, Structural)]
pub struct CompanionState {
    pub card: GameObjectId,
    pub definition: CardDefinitionId,
    pub used: bool,
}

/// One player's zones and counters.
#[derive(Clone, Debug)]
pub struct PlayerState {
    pub life: i32,
    pub library: Vec<CardInstance>,
    pub hand: Vec<CardInstance>,
    pub graveyard: Vec<CardInstance>,
    pub exile: Vec<CardInstance>,
    pub outside_game: Vec<CardInstance>,
    pub command: Vec<CardInstance>,
    pub companion: Option<CompanionState>,
    pub lands_played_this_turn: u8,
}

/// One player's state as a mathematical value.
#[verifier::ext_equal]
pub struct PlayerView {
    pub life: i32,
    pub library: Seq<CardInstance>,
    pub hand: Seq<CardInstance>,
    pub graveyard: Seq<CardInstance>,
    pub exile: Seq<CardInstance>,
    pub outside_game: Seq<CardInstance>,
    pub command: Seq<CardInstance>,
    pub companion: Option<CompanionState>,
    pub lands_played_this_turn: u8,
}

impl View for PlayerState {
    type V = PlayerView;

    open spec fn view(&self) -> PlayerView {
        PlayerView {
            life: self.life,
            library: self.library@,
            hand: self.hand@,
            graveyard: self.graveyard@,
            exile: self.exile@,
            outside_game: self.outside_game@,
            command: self.command@,
            companion: self.companion,
            lands_played_this_turn: self.lands_played_this_turn,
        }
    }
}

impl PlayerView {
    /// The cards one of this player's card zones holds.
    pub open spec fn zone(self, zone: ZoneKind) -> Seq<CardInstance> {
        match zone {
            ZoneKind::Library => self.library,
            ZoneKind::Hand => self.hand,
            ZoneKind::Graveyard => self.graveyard,
            ZoneKind::Exile => self.exile,
            ZoneKind::Command => self.command,
            ZoneKind::Battlefield | ZoneKind::Stack => Seq::empty(),
        }
    }
}

/// A permanent, ongoing effect from the command zone. Each grants the
/// creatures its controller controls a set of keywords.
#[derive(Clone, Copy, Debug, PartialEq, Eq, Structural)]
pub struct Emblem {
    pub controller: PlayerId,
    pub source: CardDefinitionId,
    pub keywords: KeywordSet,
}

/// A spell or an activated ability waiting on the stack.
#[derive(Clone, Debug)]
pub struct StackObject {
    pub id: GameObjectId,
    pub source: GameObjectId,
    pub definition: CardDefinitionId,
    pub ability: AbilityId,
    pub controller: PlayerId,
    pub targets: Vec<Target>,
    /// The card, when this object is a spell.
    pub spell: Option<CardInstance>,
    /// The value chosen for X.
    pub x: u16,
}

/// A stack object as a mathematical value.
#[verifier::ext_equal]
pub struct StackView {
    pub id: GameObjectId,
    pub source: GameObjectId,
    pub definition: CardDefinitionId,
    pub ability: AbilityId,
    pub controller: PlayerId,
    pub targets: Seq<Target>,
    pub spell: Option<CardInstance>,
    pub x: u16,
}

impl View for StackObject {
    type V = StackView;

    open spec fn view(&self) -> StackView {
        StackView {
            id: self.id,
            source: self.source,
            definition: self.definition,
            ability: self.ability,
            controller: self.controller,
            targets: self.targets@,
            spell: self.spell,
            x: self.x,
        }
    }
}

/// Where an ability comes from.
#[derive(Clone, Copy, Debug, PartialEq, Eq, Structural)]
pub enum AbilityOrigin {
    Printed { definition: CardDefinitionId, part: CardPartId, ability: AbilityId },
}

/// Everything a player can do.
#[derive(Clone, Debug, PartialEq, Eq)]
pub enum Action {
    PassPriority,
    KeepHand,
    ChooseCompanion { card: Option<GameObjectId> },
    PlayLand { card: GameObjectId },
    ActivateAbility {
        source: GameObjectId,
        ability: AbilityOrigin,
        targets: Vec<Target>,
        sacrifice: Option<GameObjectId>,
        x: u16,
    },
    TakeCompanion { card: GameObjectId },
    DeclareAttacker { attacker: GameObjectId, defender: AttackDefender },
    BandAttackers { first: GameObjectId, second: GameObjectId },
    DeclareBlocker { blocker: GameObjectId, attacker: GameObjectId },
    AssignCombatDamage { attacker: GameObjectId, assignments: Vec<CombatDamageAssignment> },
    CastSpell { card: GameObjectId, targets: Vec<Target>, x: u16 },
    /// Answers the first pending decision with these options.
    ChooseDecision { options: Vec<GameObjectId> },
}

/// An action as a mathematical value.
#[verifier::ext_equal]
pub enum ActionView {
    PassPriority,
    KeepHand,
    ChooseCompanion { card: Option<GameObjectId> },
    PlayLand { card: GameObjectId },
    ActivateAbility {
        source: GameObjectId,
        ability: AbilityOrigin,
        targets: Seq<Target>,
        sacrifice: Option<GameObjectId>,
        x: u16,
    },
    TakeCompanion { card: GameObjectId },
    DeclareAttacker { attacker: GameObjectId, defender: AttackDefender },
    BandAttackers { first: GameObjectId, second: GameObjectId },
    DeclareBlocker { blocker: GameObjectId, attacker: GameObjectId },
    AssignCombatDamage { attacker: GameObjectId, assignments: Seq<CombatDamageAssignment> },
    CastSpell { card: GameObjectId, targets: Seq<Target>, x: u16 },
    ChooseDecision { options: Seq<GameObjectId> },
}

impl View for Action {
    type V = ActionView;

    open spec fn view(&self) -> ActionView {
        match self {
            Action::PassPriority => ActionView::PassPriority,
            Action::KeepHand => ActionView::KeepHand,
            Action::ChooseCompanion { card } => ActionView::ChooseCompanion { card: *card },
            Action::PlayLand { card } => ActionView::PlayLand { card: *card },
            Action::ActivateAbility { source, ability, targets, sacrifice, x } =>
                ActionView::ActivateAbility {
                    source: *source,
                    ability: *ability,
                    targets: targets@,
                    sacrifice: *sacrifice,
                    x: *x,
                },
            Action::TakeCompanion { card } => ActionView::TakeCompanion { card: *card },
            Action::DeclareAttacker { attacker, defender } => ActionView::DeclareAttacker {
                attacker: *attacker,
                defender: *defender,
            },
            Action::BandAttackers { first, second } => ActionView::BandAttackers {
                first: *first,
                second: *second,
            },
            Action::DeclareBlocker { blocker, attacker } => ActionView::DeclareBlocker {
                blocker: *blocker,
                attacker: *attacker,
            },
            Action::AssignCombatDamage { attacker, assignments } =>
                ActionView::AssignCombatDamage { attacker: *attacker, assignments: assignments@ },
            Action::CastSpell { card, targets, x } => ActionView::CastSpell { card: *card, targets: targets@, x: *x },
            Action::ChooseDecision { options } => ActionView::ChooseDecision { options: options@ },
        }
    }
}

/// A list of actions as mathematical values.
pub open spec fn actions_view(actions: Seq<Action>) -> Seq<ActionView> {
    actions.map_values(|action: Action| action@)
}

/// Where a permanent went when it left the battlefield.
#[derive(Clone, Copy, Debug, PartialEq, Eq, Structural)]
pub enum BattlefieldExit {
    Graveyard,
    Exile,
    Hand,
    LibraryTop,
}

/// The public record of what happened.
#[derive(Clone, Debug, PartialEq, Eq)]
pub enum GameEvent {
    AttackDeclared { player: PlayerId, attackers: Vec<GameObjectId> },
    BlockDeclared { player: PlayerId, assignments: Vec<(GameObjectId, GameObjectId)> },
    PermanentLeftBattlefield {
        controller: PlayerId,
        card: GameObjectId,
        definition: CardDefinitionId,
        destination: BattlefieldExit,
    },
    CardRevealed { player: PlayerId, card: GameObjectId, definition: CardDefinitionId },
    LandPlayed { player: PlayerId, card: GameObjectId },
    EmblemCreated { player: PlayerId, source: CardDefinitionId },
}

/// An event as a mathematical value.
#[verifier::ext_equal]
pub enum EventView {
    AttackDeclared { player: PlayerId, attackers: Seq<GameObjectId> },
    BlockDeclared { player: PlayerId, assignments: Seq<(GameObjectId, GameObjectId)> },
    PermanentLeftBattlefield {
        controller: PlayerId,
        card: GameObjectId,
        definition: CardDefinitionId,
        destination: BattlefieldExit,
    },
    CardRevealed { player: PlayerId, card: GameObjectId, definition: CardDefinitionId },
    LandPlayed { player: PlayerId, card: GameObjectId },
    EmblemCreated { player: PlayerId, source: CardDefinitionId },
}

impl View for GameEvent {
    type V = EventView;

    open spec fn view(&self) -> EventView {
        match self {
            GameEvent::AttackDeclared { player, attackers } => EventView::AttackDeclared {
                player: *player,
                attackers: attackers@,
            },
            GameEvent::BlockDeclared { player, assignments } => EventView::BlockDeclared {
                player: *player,
                assignments: assignments@,
            },
            GameEvent::PermanentLeftBattlefield { controller, card, definition, destination } =>
                EventView::PermanentLeftBattlefield {
                controller: *controller,
                card: *card,
                definition: *definition,
                destination: *destination,
            },
            GameEvent::CardRevealed { player, card, definition } => EventView::CardRevealed {
                player: *player,
                card: *card,
                definition: *definition,
            },
            GameEvent::LandPlayed { player, card } => EventView::LandPlayed {
                player: *player,
                card: *card,
            },
            GameEvent::EmblemCreated { player, source } => EventView::EmblemCreated {
                player: *player,
                source: *source,
            },
        }
    }
}

/// An event that triggered abilities watch for, committed as it happens.
#[derive(Clone, Copy, Debug, PartialEq, Eq, Structural)]
pub enum TriggerEvent {
    Tapped { object: GameObjectId, for_mana: bool },
    Attacks { object: GameObjectId, declaration_size: u8, attack_number: u8 },
    AttacksAndIsNotBlocked { object: GameObjectId },
    BlocksOrBecomesBlocked { creature: GameObjectId, other: GameObjectId },
    BecomesBlocked { object: GameObjectId, blockers_beyond_first: u16 },
    ZoneChanged { object: GameObjectId, from: ZoneKind, to: ZoneKind },
    DamageDealt { source: GameObjectId, recipient: Target, amount: u16, combat: bool },
    CommittedCrime { player: PlayerId },
    StepBegins { step: Step, player: PlayerId },
}

/// One share of combat damage a creature's controller assigned.
#[derive(Clone, Copy, Debug, PartialEq, Eq, Structural)]
pub struct AssignedCombatDamage {
    pub source: GameObjectId,
    pub recipient: Target,
    pub amount: u16,
}

/// What happens once a pending decision is answered.
#[derive(Clone, Copy, Debug, PartialEq, Eq, Structural)]
pub enum DecisionContinuation {
    ChooseCompanion { player: PlayerId },
    /// CR 514.1: the active player discards down to the maximum hand size.
    CleanupDiscard { player: PlayerId },
}

/// A question put to one player.
#[derive(Clone, Debug)]
pub struct PendingDecision {
    pub player: PlayerId,
    pub minimum: u8,
    pub maximum: u8,
    pub options: Vec<GameObjectId>,
    pub continuation: DecisionContinuation,
}

/// A pending decision as a mathematical value.
#[verifier::ext_equal]
pub struct DecisionView {
    pub player: PlayerId,
    pub minimum: u8,
    pub maximum: u8,
    pub options: Seq<GameObjectId>,
    pub continuation: DecisionContinuation,
}

impl View for PendingDecision {
    type V = DecisionView;

    open spec fn view(&self) -> DecisionView {
        DecisionView {
            player: self.player,
            minimum: self.minimum,
            maximum: self.maximum,
            options: self.options@,
            continuation: self.continuation,
        }
    }
}

/// The part of the game before the first turn.
#[derive(Clone, Copy, Debug, PartialEq, Eq, Structural)]
pub enum Pregame {
    Companion(PlayerId),
    Mulligan(PlayerId),
}

/// A whole game between two players.
#[derive(Clone, Debug)]
pub struct Game {
    pub players: Vec<PlayerState>,
    pub battlefield: Vec<Permanent>,
    pub stack: Vec<StackObject>,
    pub emblems: Vec<Emblem>,
    pub active_player: PlayerId,
    pub priority: PlayerId,
    pub starting_player: PlayerId,
    pub step: Step,
    /// How many turns each player has begun.
    pub turns_started: Vec<u32>,
    pub consecutive_passes: u8,
    pub attackers_declared: bool,
    pub blockers_declared: bool,
    pub combat_damage_stage: CombatDamageStage,
    pub pending_combat_attackers: Vec<GameObjectId>,
    pub combat_blocked_attackers: Vec<GameObjectId>,
    pub combat_damage_assignments: Vec<AssignedCombatDamage>,
    pub events: Vec<GameEvent>,
    pub triggers: Vec<TriggerEvent>,
    pub next_object_id: u32,
    pub pregame: Option<Pregame>,
    pub pending_decisions: Vec<PendingDecision>,
    pub creature_died_this_turn: bool,
    pub creatures_died_this_turn: u16,
    pub winner: Option<PlayerId>,
}

/// The whole game as a mathematical value: what every contract speaks of.
#[verifier::ext_equal]
pub struct GameView {
    pub players: Seq<PlayerView>,
    pub battlefield: Seq<Permanent>,
    pub stack: Seq<StackView>,
    pub emblems: Seq<Emblem>,
    pub active_player: PlayerId,
    pub priority: PlayerId,
    pub starting_player: PlayerId,
    pub step: Step,
    pub turns_started: Seq<u32>,
    pub consecutive_passes: u8,
    pub attackers_declared: bool,
    pub blockers_declared: bool,
    pub combat_damage_stage: StageView,
    pub pending_combat_attackers: Seq<GameObjectId>,
    pub combat_blocked_attackers: Seq<GameObjectId>,
    pub combat_damage_assignments: Seq<AssignedCombatDamage>,
    pub events: Seq<EventView>,
    pub triggers: Seq<TriggerEvent>,
    pub next_object_id: u32,
    pub pregame: Option<Pregame>,
    pub pending_decisions: Seq<DecisionView>,
    pub creature_died_this_turn: bool,
    pub creatures_died_this_turn: u16,
    pub winner: Option<PlayerId>,
}

impl View for Game {
    type V = GameView;

    open spec fn view(&self) -> GameView {
        GameView {
            players: self.players@.map_values(|state: PlayerState| state@),
            battlefield: self.battlefield@,
            stack: self.stack@.map_values(|object: StackObject| object@),
            emblems: self.emblems@,
            active_player: self.active_player,
            priority: self.priority,
            starting_player: self.starting_player,
            step: self.step,
            turns_started: self.turns_started@,
            consecutive_passes: self.consecutive_passes,
            attackers_declared: self.attackers_declared,
            blockers_declared: self.blockers_declared,
            combat_damage_stage: self.combat_damage_stage@,
            pending_combat_attackers: self.pending_combat_attackers@,
            combat_blocked_attackers: self.combat_blocked_attackers@,
            combat_damage_assignments: self.combat_damage_assignments@,
            events: self.events@.map_values(|event: GameEvent| event@),
            triggers: self.triggers@,
            next_object_id: self.next_object_id,
            pregame: self.pregame,
            pending_decisions: self.pending_decisions@.map_values(
                |decision: PendingDecision| decision@,
            ),
            creature_died_this_turn: self.creature_died_this_turn,
            creatures_died_this_turn: self.creatures_died_this_turn,
            winner: self.winner,
        }
    }
}

impl GameView {
    /// The shape every game has: two players, two turn counters.
    pub open spec fn wf(self) -> bool {
        &&& self.players.len() == 2
        &&& self.turns_started.len() == 2
    }

    /// The state of one seat.
    pub open spec fn player(self, player: PlayerId) -> PlayerView {
        self.players[player.spec_index()]
    }

    pub open spec fn life(self, player: PlayerId) -> i32 {
        self.players[player.spec_index()].life
    }

    /// This game with a different battlefield.
    pub open spec fn with_battlefield(self, battlefield: Seq<Permanent>) -> GameView {
        GameView { battlefield, ..self }
    }
}

/// The ids of the permanents, in battlefield order.
pub open spec fn ids_of(battlefield: Seq<Permanent>) -> Seq<GameObjectId> {
    battlefield.map_values(|permanent: Permanent| permanent.card.id)
}

/// Whether `i` is the first position in the list holding `id`.
pub open spec fn first_id_index(ids: Seq<GameObjectId>, id: GameObjectId, i: int) -> bool {
    &&& 0 <= i < ids.len()
    &&& ids[i] == id
    &&& forall|j: int| 0 <= j < i ==> ids[j] != id
}

/// The position of the first occurrence of `id` in the list.
pub open spec fn id_position(ids: Seq<GameObjectId>, id: GameObjectId) -> Option<int> {
    if exists|i: int| first_id_index(ids, id, i) {
        Some(choose|i: int| first_id_index(ids, id, i))
    } else {
        None
    }
}

/// Whether `i` is the first position on the battlefield holding `id`.
pub open spec fn first_index_of(battlefield: Seq<Permanent>, id: GameObjectId, i: int) -> bool {
    &&& 0 <= i < battlefield.len()
    &&& battlefield[i].card.id == id
    &&& forall|j: int| 0 <= j < i ==> battlefield[j].card.id != id
}

/// The position of the first permanent with this id, if any. It depends only
/// on the ids on the battlefield.
pub open spec fn position_of(battlefield: Seq<Permanent>, id: GameObjectId) -> Option<int> {
    id_position(ids_of(battlefield), id)
}

/// The first permanent with this id, if any.
pub open spec fn permanent_with(battlefield: Seq<Permanent>, id: GameObjectId) -> Option<
    Permanent,
> {
    match position_of(battlefield, id) {
        Some(i) => Some(battlefield[i]),
        None => None,
    }
}

pub proof fn lemma_first_index_is_position(battlefield: Seq<Permanent>, id: GameObjectId, i: int)
    requires
        first_index_of(battlefield, id, i),
    ensures
        position_of(battlefield, id) == Some(i),
{
    let ids = ids_of(battlefield);
    assert(first_id_index(ids, id, i));
    let k = choose|k: int| first_id_index(ids, id, k);
    assert(first_id_index(ids, id, k));
    if k < i {
        assert(ids[k] != id);
    } else if k > i {
        assert(ids[i] != id);
    }
}

pub proof fn lemma_absent_has_no_position(battlefield: Seq<Permanent>, id: GameObjectId)
    requires
        forall|j: int| 0 <= j < battlefield.len() ==> battlefield[j].card.id != id,
    ensures
        position_of(battlefield, id) is None,
{
    let ids = ids_of(battlefield);
    if exists|i: int| first_id_index(ids, id, i) {
        let k = choose|k: int| first_id_index(ids, id, k);
        assert(ids[k] == battlefield[k].card.id);
    }
}

pub proof fn lemma_position_is_first(battlefield: Seq<Permanent>, id: GameObjectId)
    ensures
        position_of(battlefield, id) matches Some(i) ==> first_index_of(battlefield, id, i),
{
    let ids = ids_of(battlefield);
    if exists|i: int| first_id_index(ids, id, i) {
        let k = choose|k: int| first_id_index(ids, id, k);
        assert(first_id_index(ids, id, k));
        assert forall|j: int| 0 <= j < k implies battlefield[j].card.id != id by {
            assert(ids[j] == battlefield[j].card.id);
        }
    }
}

/// Replacing a permanent by one with the same id moves no other permanent.
pub proof fn lemma_update_keeps_positions(battlefield: Seq<Permanent>, i: int, permanent: Permanent)
    requires
        0 <= i < battlefield.len(),
        permanent.card.id == battlefield[i].card.id,
    ensures
        ids_of(battlefield.update(i, permanent)) == ids_of(battlefield),
{
    assert(ids_of(battlefield.update(i, permanent)) =~= ids_of(battlefield));
}

/// Whether some permanent on the battlefield has this id.
pub open spec fn on_battlefield(battlefield: Seq<Permanent>, id: GameObjectId) -> bool {
    exists|i: int| 0 <= i < battlefield.len() && battlefield[i].card.id == id
}

/// Whether `i` is the first position whose permanent satisfies `pred`.
pub open spec fn is_first_match(
    battlefield: Seq<Permanent>,
    pred: spec_fn(Permanent) -> bool,
    i: int,
) -> bool {
    &&& 0 <= i < battlefield.len()
    &&& pred(battlefield[i])
    &&& forall|j: int| 0 <= j < i ==> !pred(battlefield[j])
}

/// The first permanent that satisfies `pred`, as `iter().find` gives it.
pub open spec fn first_match(battlefield: Seq<Permanent>, pred: spec_fn(Permanent) -> bool) -> Option<
    Permanent,
> {
    if exists|i: int| is_first_match(battlefield, pred, i) {
        Some(battlefield[choose|i: int| is_first_match(battlefield, pred, i)])
    } else {
        None
    }
}

pub proof fn lemma_first_match_found(
    battlefield: Seq<Permanent>,
    pred: spec_fn(Permanent) -> bool,
    i: int,
)
    requires
        is_first_match(battlefield, pred, i),
    ensures
        first_match(battlefield, pred) == Some(battlefield[i]),
{
    let k = choose|k: int| is_first_match(battlefield, pred, k);
    assert(is_first_match(battlefield, pred, k));
    if k < i {
        assert(!pred(battlefield[k]));
    } else if k > i {
        assert(!pred(battlefield[i]));
    }
}

pub proof fn lemma_first_match_absent(battlefield: Seq<Permanent>, pred: spec_fn(Permanent) -> bool)
    requires
        forall|j: int| 0 <= j < battlefield.len() ==> !pred(battlefield[j]),
    ensures
        first_match(battlefield, pred) is None,
{
    if exists|i: int| is_first_match(battlefield, pred, i) {
        let k = choose|k: int| is_first_match(battlefield, pred, k);
        assert(!pred(battlefield[k]));
    }
}


impl Game {
    /// The shape every game has: two players, two turn counters.
    pub open spec fn wf(&self) -> bool {
        self@.wf()
    }

    /// The first index holding this permanent.
    pub fn permanent_position(&self, id: GameObjectId) -> (position: Option<usize>)
        ensures
            match position {
                Some(i) => position_of(self@.battlefield, id) == Some(i as int),
                None => position_of(self@.battlefield, id) is None,
            },
    {
        let mut i: usize = 0;
        while i < self.battlefield.len()
            invariant
                i <= self.battlefield@.len(),
                forall|j: int| 0 <= j < i ==> self.battlefield@[j].card.id != id,
            decreases self.battlefield@.len() - i,
        {
            if self.battlefield[i].card.id == id {
                proof {
                    lemma_first_index_is_position(self.battlefield@, id, i as int);
                }
                return Some(i);
            }
            i = i + 1;
        }
        proof {
            lemma_absent_has_no_position(self.battlefield@, id);
        }
        None
    }
}

/// A player's cards with one removed: the first with this id.
pub open spec fn first_card_index(cards: Seq<CardInstance>, id: GameObjectId, i: int) -> bool {
    &&& 0 <= i < cards.len()
    &&& cards[i].id == id
    &&& forall|j: int| 0 <= j < i ==> cards[j].id != id
}

/// Where the first card with this id lies in a list of cards.
pub open spec fn card_position(cards: Seq<CardInstance>, id: GameObjectId) -> Option<int> {
    if exists|i: int| first_card_index(cards, id, i) {
        Some(choose|i: int| first_card_index(cards, id, i))
    } else {
        None
    }
}

pub proof fn lemma_first_card_index_unique(cards: Seq<CardInstance>, id: GameObjectId, i: int, j: int)
    requires
        first_card_index(cards, id, i),
        first_card_index(cards, id, j),
    ensures
        i == j,
{
}

/// Removes the first card with this id from a list of cards.
pub fn remove_card(cards: &mut Vec<CardInstance>, id: GameObjectId) -> (removed: Option<
    CardInstance,
>)
    ensures
        match removed {
            Some(card) => exists|i: int|
                first_card_index(old(cards)@, id, i) && card == old(cards)@[i] && final(cards)@
                    == old(cards)@.remove(i),
            None => final(cards)@ == old(cards)@ && forall|j: int|
                0 <= j < old(cards)@.len() ==> old(cards)@[j].id != id,
        },
{
    let mut i: usize = 0;
    while i < cards.len()
        invariant
            cards@ == old(cards)@,
            i <= cards@.len(),
            forall|j: int| 0 <= j < i ==> cards@[j].id != id,
        decreases cards@.len() - i,
    {
        if cards[i].id == id {
            let card = cards.remove(i);
            assert(first_card_index(old(cards)@, id, i as int));
            return Some(card);
        }
        i = i + 1;
    }
    None
}

/// Takes the first card with this id out of a list of cards.
pub fn take_card(cards: &mut Vec<CardInstance>, id: GameObjectId) -> (taken: Option<CardInstance>)
    ensures
        match card_position(old(cards)@, id) {
            None => taken is None && final(cards)@ == old(cards)@,
            Some(i) => taken == Some(old(cards)@[i]) && final(cards)@ == old(cards)@.remove(i),
        },
{
    let ghost initial = cards@;
    let removed = remove_card(cards, id);
    proof {
        match removed {
            Some(found) => {
                let w = choose|w: int|
                    first_card_index(initial, id, w) && found == initial[w] && cards@ == initial.remove(w);
                let c = choose|c: int| first_card_index(initial, id, c);
                lemma_first_card_index_unique(initial, id, w, c);
            },
            None => {
                assert(!exists|i: int| first_card_index(initial, id, i));
            },
        }
    }
    removed
}

} // verus!
