use osarena::card::cards;
use osarena::state::{CardInstance, CombatDamageStage, CounterKind, CreatureFilter, Game, Permanent, PlayerState, Step};
use osarena::card::KeywordAbility;
use osarena::trigger_conditions::{Comparison, PlayerRelation, TriggerCondition};
use osarena::ids::GameObjectId;
use osarena::continuous_state::ContinuousEffectExpiration;
use osarena::decision_state::BalancePhase;
use osarena::ids::PlayerId;

#[test]
fn upkeep_effect_ends_when_its_player_starts_a_turn() {
    let expiration = ContinuousEffectExpiration::UpkeepOf(PlayerId::Two);
    assert!(expiration.survives_turn_start(PlayerId::One, [1, 0]));
    assert!(!expiration.survives_turn_start(PlayerId::Two, [1, 1]));
    assert!(expiration.survives_cleanup());
}

#[test]
fn turn_effect_lasts_until_the_counted_turn_starts() {
    let expiration = ContinuousEffectExpiration::TurnOf { player: PlayerId::One, turn: 3 };
    assert!(expiration.survives_turn_start(PlayerId::One, [2, 2]));
    assert!(!expiration.survives_turn_start(PlayerId::One, [3, 2]));
    assert!(!expiration.survives_turn_start(PlayerId::Two, [4, 3]));
}

#[test]
fn only_end_of_turn_effects_end_in_cleanup() {
    assert!(!ContinuousEffectExpiration::EndOfTurn.survives_cleanup());
    assert!(ContinuousEffectExpiration::EndOfTurn.survives_turn_start(PlayerId::One, [9, 9]));
    assert!(ContinuousEffectExpiration::WhileSourceTapped.survives_cleanup());
    assert!(ContinuousEffectExpiration::Never.survives_cleanup());
    assert!(ContinuousEffectExpiration::Never.survives_turn_start(PlayerId::Two, [0, 0]));
}

#[test]
fn balance_phases_run_lands_hands_creatures() {
    assert_eq!(BalancePhase::Lands.next(), Some(BalancePhase::Hands));
    assert_eq!(BalancePhase::Hands.next(), Some(BalancePhase::Creatures));
    assert_eq!(BalancePhase::Creatures.next(), None);
}

fn seat() -> PlayerState {
    PlayerState {
        life: 20,
        library: Vec::new(),
        hand: Vec::new(),
        graveyard: Vec::new(),
        exile: Vec::new(),
        outside_game: Vec::new(),
        command: Vec::new(),
        companion: None,
        lands_played_this_turn: 0,
    }
}

fn board(battlefield: Vec<Permanent>) -> Game {
    Game {
        players: vec![seat(), seat()],
        battlefield,
        stack: Vec::new(),
        emblems: Vec::new(),
        active_player: PlayerId::One,
        priority: PlayerId::One,
        starting_player: PlayerId::One,
        step: Step::PrecombatMain,
        turns_started: vec![1, 0],
        consecutive_passes: 0,
        attackers_declared: false,
        blockers_declared: false,
        combat_damage_stage: CombatDamageStage::NotStarted,
        pending_combat_attackers: Vec::new(),
        combat_blocked_attackers: Vec::new(),
        combat_damage_assignments: Vec::new(),
        events: Vec::new(),
        triggers: Vec::new(),
        next_object_id: 1,
        pregame: None,
        pending_decisions: Vec::new(),
        creature_died_this_turn: false,
        creatures_died_this_turn: 0,
        winner: None,
    }
}

fn on_board(id: u32, definition: u32, controller: PlayerId) -> Permanent {
    Permanent::entering(CardInstance { id: GameObjectId(id), definition, owner: controller }, controller, 0)
}

#[test]
fn source_conditions_read_the_source_as_it_is_now() {
    let mut game = board(vec![on_board(1, cards::DOMRI_RADE, PlayerId::One)]);
    let source = GameObjectId(1);
    assert!(game.trigger_condition_holds(TriggerCondition::SourceOnBattlefield, source, PlayerId::One));
    assert!(!game.trigger_condition_holds(TriggerCondition::SourceOnBattlefield, GameObjectId(9), PlayerId::One));
    assert!(game.trigger_condition_holds(TriggerCondition::SourceUntapped, source, PlayerId::One));
    game.battlefield[0].tapped = true;
    assert!(!game.trigger_condition_holds(TriggerCondition::SourceUntapped, source, PlayerId::One));
    let loyal = TriggerCondition::SourceLoyalty { comparison: Comparison::AtLeast, amount: 3 };
    assert!(game.trigger_condition_holds(loyal, source, PlayerId::One));
    game.battlefield[0].loyalty = 2;
    assert!(!game.trigger_condition_holds(loyal, source, PlayerId::One));
    let counters = TriggerCondition::SourceCounters {
        kind: CounterKind::PlusOnePlusOne,
        comparison: Comparison::Exactly,
        amount: 0,
    };
    assert!(game.trigger_condition_holds(counters, source, PlayerId::One));
    assert!(!game.trigger_condition_holds(
        TriggerCondition::SourceDealtDamageToOpponentThisTurn,
        source,
        PlayerId::One
    ));
}

#[test]
fn active_player_condition_is_relative_to_the_controller() {
    let game = board(Vec::new());
    let yours = TriggerCondition::ActivePlayer(PlayerRelation::You);
    let theirs = TriggerCondition::ActivePlayer(PlayerRelation::Opponent);
    assert!(game.trigger_condition_holds(yours, GameObjectId(1), PlayerId::One));
    assert!(!game.trigger_condition_holds(yours, GameObjectId(1), PlayerId::Two));
    assert!(game.trigger_condition_holds(theirs, GameObjectId(1), PlayerId::Two));
}

#[test]
fn greatest_power_counts_ties() {
    let greatest = TriggerCondition::ControlsGreatestPowerCreature;
    let game = board(vec![
        on_board(1, cards::GRIZZLY_BEARS, PlayerId::One),
        on_board(2, cards::SERRA_ANGEL, PlayerId::Two),
    ]);
    assert!(!game.trigger_condition_holds(greatest, GameObjectId(1), PlayerId::One));
    assert!(game.trigger_condition_holds(greatest, GameObjectId(2), PlayerId::Two));
    let tied = board(vec![
        on_board(1, cards::GRIZZLY_BEARS, PlayerId::One),
        on_board(2, cards::GRIZZLY_BEARS, PlayerId::Two),
    ]);
    assert!(tied.trigger_condition_holds(greatest, GameObjectId(1), PlayerId::One));
    assert!(tied.trigger_condition_holds(greatest, GameObjectId(2), PlayerId::Two));
    assert!(!board(Vec::new()).trigger_condition_holds(greatest, GameObjectId(1), PlayerId::One));
}

#[test]
fn object_count_counts_the_permanents_of_a_kind() {
    let game = board(vec![
        on_board(1, cards::SERRA_ANGEL, PlayerId::One),
        on_board(2, cards::MESA_PEGASUS, PlayerId::One),
        on_board(3, cards::GRIZZLY_BEARS, PlayerId::One),
        on_board(4, cards::SERRA_ANGEL, PlayerId::Two),
    ]);
    let flyers = |relation, comparison, amount| TriggerCondition::ObjectCount {
        controller: relation,
        filter: CreatureFilter::WithKeyword(KeywordAbility::Flying),
        comparison,
        amount,
    };
    assert!(game.trigger_condition_holds(flyers(PlayerRelation::You, Comparison::Exactly, 2), GameObjectId(1), PlayerId::One));
    assert!(!game.trigger_condition_holds(flyers(PlayerRelation::You, Comparison::AtLeast, 3), GameObjectId(1), PlayerId::One));
    assert!(game.trigger_condition_holds(flyers(PlayerRelation::Opponent, Comparison::AtMost, 1), GameObjectId(1), PlayerId::One));
    assert_eq!(game.object_count(PlayerRelation::You, CreatureFilter::Any, PlayerId::One), 3);
}
