use osarena::engine::ActionError;
use osarena::ids::{AbilityId, CardPartId};
use osarena::state::{AbilityOrigin, Action, CounterKind, GameEvent, Pregame, Target, TriggerEvent};
use osarena::card::cards;
use osarena::ids::{CardDefinitionId, GameObjectId, PlayerId};
use osarena::state::{
    CardInstance, CombatDamageStage, Game, Permanent, PlayerState, Step,
};

fn player() -> PlayerState {
    PlayerState {
        life: 20,
        library: Vec::new(),
        hand: Vec::new(),
        graveyard: Vec::new(),
        exile: Vec::new(),
        outside_game: Vec::new(),
        command: Vec::new(),
        companion: None,
        lands_played_this_turn: 0,
    }
}

fn ready_game() -> Game {
    Game {
        players: vec![player(), player()],
        battlefield: Vec::new(),
        stack: Vec::new(),
        emblems: Vec::new(),
        active_player: PlayerId::One,
        priority: PlayerId::One,
        starting_player: PlayerId::One,
        step: Step::PrecombatMain,
        turns_started: vec![1, 0],
        consecutive_passes: 0,
        attackers_declared: false,
        blockers_declared: false,
        combat_damage_stage: CombatDamageStage::NotStarted,
        pending_combat_attackers: Vec::new(),
        combat_blocked_attackers: Vec::new(),
        combat_damage_assignments: Vec::new(),
        events: Vec::new(),
        triggers: Vec::new(),
        next_object_id: 1,
        pregame: None,
        pending_decisions: Vec::new(),
        creature_died_this_turn: false,
        creatures_died_this_turn: 0,
        winner: None,
    }
}

fn card(id: u32, definition: CardDefinitionId, owner: PlayerId) -> CardInstance {
    CardInstance { id: GameObjectId(id), definition, owner }
}

fn creature(id: u32, definition: CardDefinitionId, controller: PlayerId) -> Permanent {
    Permanent::entering(card(id, definition, controller), controller, 0)
}

fn activation(source: GameObjectId, ability: u8, targets: Vec<Target>) -> Action {
    Action::ActivateAbility {
        source,
        ability: AbilityOrigin::Printed {
            definition: cards::DOMRI_RADE,
            part: CardPartId::PRIMARY,
            ability: AbilityId(ability),
        },
        targets,
        sacrifice: None,
        x: 0,
    }
}

fn pass_pair(game: &mut Game) {
    for _ in 0..2 {
        let player = game.priority;
        game.apply(player, Action::PassPriority).unwrap();
    }
}

#[test]
fn another_players_action_is_refused_and_changes_nothing() {
    let mut game = ready_game();
    assert_eq!(game.apply(PlayerId::Two, Action::PassPriority), Err(ActionError::NotYourDecision));
    assert_eq!(game.priority, PlayerId::One);
    assert_eq!(game.consecutive_passes, 0);
    assert!(game.legal_actions(PlayerId::Two).is_empty());
}

#[test]
fn an_action_not_on_offer_is_illegal() {
    let mut game = ready_game();
    let result = game.apply(PlayerId::One, Action::PlayLand { card: GameObjectId(99) });
    assert_eq!(result, Err(ActionError::IllegalAction));
    assert!(game.battlefield.is_empty());
}

#[test]
fn a_finished_game_refuses_everything() {
    let mut game = ready_game();
    game.winner = Some(PlayerId::Two);
    assert!(game.legal_actions(PlayerId::One).is_empty());
    assert_eq!(game.apply(PlayerId::One, Action::PassPriority), Err(ActionError::GameOver));
}

#[test]
fn a_game_out_of_object_ids_refuses_actions() {
    let mut game = ready_game();
    game.next_object_id = u32::MAX - 10;
    assert_eq!(game.apply(PlayerId::One, Action::PassPriority), Err(ActionError::ObjectIdsExhausted));
    assert_eq!(game.consecutive_passes, 0);
}

#[test]
fn one_land_per_turn() {
    let mut game = ready_game();
    game.players[0].hand = vec![card(50, cards::MOUNTAIN, PlayerId::One), card(51, cards::MOUNTAIN, PlayerId::One)];
    let offered = game.legal_actions(PlayerId::One);
    assert!(offered.contains(&Action::PlayLand { card: GameObjectId(50) }));
    assert!(offered.contains(&Action::PlayLand { card: GameObjectId(51) }));
    game.apply(PlayerId::One, Action::PlayLand { card: GameObjectId(50) }).unwrap();
    assert_eq!(game.battlefield.len(), 1);
    assert_eq!(game.battlefield[0].card.id, GameObjectId(1));
    assert_eq!(game.battlefield[0].controller, PlayerId::One);
    assert_eq!(game.players[0].hand.len(), 1);
    assert_eq!(game.players[0].lands_played_this_turn, 1);
    assert!(game.events.contains(&GameEvent::LandPlayed { player: PlayerId::One, card: GameObjectId(1) }));
    let after = game.legal_actions(PlayerId::One);
    assert!(!after.iter().any(|action| matches!(action, Action::PlayLand { .. })));
    assert_eq!(
        game.apply(PlayerId::One, Action::PlayLand { card: GameObjectId(51) }),
        Err(ActionError::IllegalAction)
    );
}

#[test]
fn a_land_drop_starts_the_passes_over() {
    let mut game = ready_game();
    game.players[0].hand = vec![card(50, cards::MOUNTAIN, PlayerId::One)];
    game.consecutive_passes = 1;
    game.apply(PlayerId::One, Action::PlayLand { card: GameObjectId(50) }).unwrap();
    assert_eq!(game.consecutive_passes, 0);
}

#[test]
fn no_land_play_outside_the_main_phase() {
    let mut game = ready_game();
    game.step = Step::Upkeep;
    game.players[0].hand = vec![card(50, cards::MOUNTAIN, PlayerId::One)];
    assert_eq!(game.legal_actions(PlayerId::One), vec![Action::PassPriority]);
}

#[test]
fn two_passes_with_an_empty_stack_move_to_the_next_step() {
    let mut game = ready_game();
    game.apply(PlayerId::One, Action::PassPriority).unwrap();
    assert_eq!(game.priority, PlayerId::Two);
    assert_eq!(game.step, Step::PrecombatMain);
    game.apply(PlayerId::Two, Action::PassPriority).unwrap();
    assert_eq!(game.step, Step::BeginCombat);
    assert_eq!(game.priority, PlayerId::One);
    assert_eq!(game.consecutive_passes, 0);
    assert_eq!(
        game.triggers.last(),
        Some(&TriggerEvent::StepBegins { step: Step::BeginCombat, player: PlayerId::One })
    );
}

#[test]
fn the_draw_step_draws_the_top_card() {
    let mut game = ready_game();
    game.active_player = PlayerId::Two;
    game.priority = PlayerId::Two;
    game.turns_started = vec![1, 1];
    game.step = Step::Upkeep;
    game.players[1].library = vec![card(60, cards::GRIZZLY_BEARS, PlayerId::Two), card(61, cards::MOUNTAIN, PlayerId::Two)];
    game.advance_step();
    assert_eq!(game.step, Step::Draw);
    assert_eq!(game.players[1].library.len(), 1);
    assert_eq!(game.players[1].hand.len(), 1);
    assert_eq!(game.players[1].hand[0].definition, cards::MOUNTAIN);
    assert_eq!(game.players[1].hand[0].id, GameObjectId(1));
}

#[test]
fn the_starting_player_skips_the_first_draw() {
    let mut game = ready_game();
    game.step = Step::Upkeep;
    game.players[0].library = vec![card(60, cards::MOUNTAIN, PlayerId::One)];
    game.advance_step();
    assert_eq!(game.step, Step::Draw);
    assert_eq!(game.players[0].hand.len(), 0);
}

#[test]
fn drawing_from_an_empty_library_loses() {
    let mut game = ready_game();
    game.active_player = PlayerId::Two;
    game.priority = PlayerId::Two;
    game.turns_started = vec![1, 1];
    game.step = Step::Upkeep;
    game.advance_step();
    assert_eq!(game.winner, Some(PlayerId::One));
}

#[test]
fn a_new_turn_untaps_and_heals() {
    let mut game = ready_game();
    let mut bears = creature(70, cards::GRIZZLY_BEARS, PlayerId::Two);
    bears.tapped = true;
    bears.damage = 1;
    let mut lions = creature(71, cards::SAVANNAH_LIONS, PlayerId::One);
    lions.tapped = true;
    game.battlefield = vec![bears, lions];
    game.players[0].lands_played_this_turn = 1;
    game.step = Step::End;
    game.advance_step();
    assert_eq!(game.active_player, PlayerId::Two);
    assert_eq!(game.priority, PlayerId::Two);
    assert_eq!(game.step, Step::Upkeep);
    assert_eq!(game.turns_started, vec![1, 1]);
    assert!(!game.battlefield[0].tapped);
    assert_eq!(game.battlefield[0].damage, 0);
    assert!(game.battlefield[1].tapped);
    assert_eq!(game.players[0].lands_played_this_turn, 0);
}

#[test]
fn combat_ends_cleanly() {
    let mut game = ready_game();
    let mut lions = creature(71, cards::SAVANNAH_LIONS, PlayerId::One);
    lions.attacking = true;
    let mut bears = creature(72, cards::GRIZZLY_BEARS, PlayerId::Two);
    bears.blocking = Some(GameObjectId(71));
    game.battlefield = vec![lions, bears];
    game.step = Step::EndCombat;
    game.advance_step();
    assert_eq!(game.step, Step::PostcombatMain);
    assert!(!game.battlefield[0].attacking);
    assert_eq!(game.battlefield[1].blocking, None);
}

#[test]
fn domri_plus_one_reveals_a_creature_into_hand() {
    let mut game = ready_game();
    let domri = creature(10_000, cards::DOMRI_RADE, PlayerId::One);
    game.battlefield = vec![domri];
    game.players[0].library = vec![card(80, cards::MOUNTAIN, PlayerId::One), card(81, cards::GRIZZLY_BEARS, PlayerId::One)];
    game.apply(PlayerId::One, activation(GameObjectId(10_000), 0, Vec::new())).unwrap();
    assert_eq!(game.battlefield[0].loyalty, 4);
    assert_eq!(game.stack.len(), 1);
    pass_pair(&mut game);
    assert!(game.stack.is_empty());
    assert_eq!(game.players[0].hand.len(), 1);
    assert_eq!(game.players[0].hand[0].definition, cards::GRIZZLY_BEARS);
    assert_eq!(game.players[0].library.len(), 1);
    assert!(game.events.contains(&GameEvent::CardRevealed {
        player: PlayerId::One,
        card: GameObjectId(81),
        definition: cards::GRIZZLY_BEARS,
    }));
}

#[test]
fn domri_plus_one_leaves_a_land_on_top() {
    let mut game = ready_game();
    game.battlefield = vec![creature(10_000, cards::DOMRI_RADE, PlayerId::One)];
    game.players[0].library = vec![card(81, cards::GRIZZLY_BEARS, PlayerId::One), card(80, cards::MOUNTAIN, PlayerId::One)];
    game.apply(PlayerId::One, activation(GameObjectId(10_000), 0, Vec::new())).unwrap();
    pass_pair(&mut game);
    assert!(game.players[0].hand.is_empty());
    assert_eq!(game.players[0].library.len(), 2);
}

#[test]
fn loyalty_abilities_are_once_per_turn_and_sorcery_speed() {
    let mut game = ready_game();
    game.battlefield = vec![creature(10_000, cards::DOMRI_RADE, PlayerId::One)];
    let plus = activation(GameObjectId(10_000), 0, Vec::new());
    assert!(game.legal_actions(PlayerId::One).contains(&plus));
    game.apply(PlayerId::One, plus.clone()).unwrap();
    let during = game.legal_actions(PlayerId::One);
    assert!(!during.iter().any(|action| matches!(action, Action::ActivateAbility { .. })));
    pass_pair(&mut game);
    let after = game.legal_actions(PlayerId::One);
    assert!(!after.iter().any(|action| matches!(action, Action::ActivateAbility { .. })));
    assert_eq!(game.apply(PlayerId::One, plus), Err(ActionError::IllegalAction));
}

#[test]
fn a_loyalty_cost_must_be_payable() {
    let mut game = ready_game();
    game.battlefield = vec![creature(10_000, cards::DOMRI_RADE, PlayerId::One)];
    let offered = game.legal_actions(PlayerId::One);
    assert!(offered.contains(&activation(GameObjectId(10_000), 0, Vec::new())));
    assert!(!offered.contains(&activation(GameObjectId(10_000), 2, Vec::new())));
}

#[test]
fn domri_fight_kills_both_and_is_a_crime() {
    let mut game = ready_game();
    let mut domri = creature(10_000, cards::DOMRI_RADE, PlayerId::One);
    domri.set_counters(CounterKind::Loyalty, 3);
    let bears = creature(20, cards::GRIZZLY_BEARS, PlayerId::One);
    let lions = creature(21, cards::SAVANNAH_LIONS, PlayerId::Two);
    game.battlefield = vec![domri, bears, lions];
    let fight = activation(
        GameObjectId(10_000),
        1,
        vec![Target::Permanent(GameObjectId(20)), Target::Permanent(GameObjectId(21))],
    );
    assert!(game.legal_actions(PlayerId::One).contains(&fight));
    game.apply(PlayerId::One, fight).unwrap();
    assert!(game.triggers.contains(&TriggerEvent::CommittedCrime { player: PlayerId::One }));
    pass_pair(&mut game);
    assert_eq!(game.battlefield.len(), 1);
    assert_eq!(game.battlefield[0].loyalty, 1);
    assert_eq!(game.players[0].graveyard.len(), 1);
    assert_eq!(game.players[1].graveyard.len(), 1);
    assert_eq!(game.creatures_died_this_turn, 2);
}

#[test]
fn state_based_actions_decide_the_loser() {
    let mut game = ready_game();
    game.players[1].life = 0;
    game.check_state_based_actions();
    assert_eq!(game.winner, Some(PlayerId::One));
}

#[test]
fn both_players_at_zero_decides_nothing() {
    let mut game = ready_game();
    game.players[0].life = 0;
    game.players[1].life = -3;
    game.check_state_based_actions();
    assert_eq!(game.winner, None);
}

#[test]
fn pass_priority_pair_moves_the_game_on() {
    let mut game = ready_game();
    assert_eq!(osarena::engine::pass_priority_pair(&mut game), Ok(()));
    assert_eq!(game.step, Step::BeginCombat);
    game.winner = Some(PlayerId::One);
    assert_eq!(osarena::engine::pass_priority_pair(&mut game), Err(ActionError::GameOver));
}

#[test]
fn companion_selection_then_opening_hands() {
    let mut game = ready_game();
    game.players[0].outside_game = vec![card(90, cards::LURRUS_OF_THE_DREAM_DEN, PlayerId::One)];
    game.players[0].library = (0..10).map(|i| card(100 + i, cards::SAVANNAH_LIONS, PlayerId::One)).collect();
    game.players[1].outside_game = vec![card(91, cards::LURRUS_OF_THE_DREAM_DEN, PlayerId::Two)];
    game.players[1].library = (0..3).map(|i| card(200 + i, cards::SERRA_ANGEL, PlayerId::Two)).collect();
    game.next_object_id = 1000;
    game.begin_companion_selection(PlayerId::One);
    assert_eq!(game.pregame, Some(Pregame::Companion(PlayerId::One)));
    assert_eq!(game.validate_companion_checkpoint(), Ok(()));
    let offered = game.legal_actions(PlayerId::One);
    assert_eq!(
        offered,
        vec![Action::ChooseCompanion { card: None }, Action::ChooseCompanion { card: Some(GameObjectId(90)) }]
    );
    game.apply(PlayerId::One, Action::ChooseCompanion { card: Some(GameObjectId(90)) }).unwrap();
    let chosen = game.players[0].companion.unwrap();
    assert_eq!(chosen.card, GameObjectId(90));
    assert!(!chosen.used);
    // Serra Angel has mana value 5, so the second player has no eligible
    // companion and the opening hands follow at once.
    assert_eq!(game.players[1].companion, None);
    assert_eq!(game.players[0].hand.len(), 7);
    assert_eq!(game.players[1].hand.len(), 3);
    assert_eq!(game.pregame, Some(Pregame::Mulligan(PlayerId::One)));
    game.apply(PlayerId::One, Action::KeepHand).unwrap();
    assert_eq!(game.pregame, Some(Pregame::Mulligan(PlayerId::Two)));
    game.apply(PlayerId::Two, Action::KeepHand).unwrap();
    assert_eq!(game.pregame, None);
    assert_eq!(game.priority, PlayerId::One);
}

#[test]
fn a_companion_is_taken_once_for_three_mana() {
    let mut game = ready_game();
    game.players[0].outside_game = vec![card(90, cards::LURRUS_OF_THE_DREAM_DEN, PlayerId::One)];
    game.players[0].companion = Some(osarena::state::CompanionState {
        card: GameObjectId(90),
        definition: cards::LURRUS_OF_THE_DREAM_DEN,
        used: false,
    });
    game.battlefield = (0..4).map(|i| creature(300 + i, cards::MOUNTAIN, PlayerId::One)).collect();
    let take = Action::TakeCompanion { card: GameObjectId(90) };
    assert!(game.legal_actions(PlayerId::One).contains(&take));
    game.apply(PlayerId::One, take.clone()).unwrap();
    assert_eq!(game.players[0].hand.len(), 1);
    assert_eq!(game.players[0].hand[0].definition, cards::LURRUS_OF_THE_DREAM_DEN);
    assert!(game.players[0].outside_game.is_empty());
    assert!(game.players[0].companion.unwrap().used);
    assert_eq!(game.battlefield.iter().filter(|permanent| permanent.tapped).count(), 3);
    assert!(!game.battlefield[3].tapped);
    assert!(!game.legal_actions(PlayerId::One).contains(&take));
}

#[test]
fn a_companion_needs_three_mana() {
    let mut game = ready_game();
    game.players[0].outside_game = vec![card(90, cards::LURRUS_OF_THE_DREAM_DEN, PlayerId::One)];
    game.players[0].companion = Some(osarena::state::CompanionState {
        card: GameObjectId(90),
        definition: cards::LURRUS_OF_THE_DREAM_DEN,
        used: false,
    });
    game.battlefield = (0..2).map(|i| creature(300 + i, cards::MOUNTAIN, PlayerId::One)).collect();
    assert!(!game.legal_actions(PlayerId::One).contains(&Action::TakeCompanion { card: GameObjectId(90) }));
}

#[test]
fn companion_checkpoint_errors() {
    let mut game = ready_game();
    game.pregame = Some(Pregame::Companion(PlayerId::One));
    assert_eq!(game.validate_companion_checkpoint(), Err("missing companion selection decision".to_string()));
    game.players[1].hand = vec![card(5, cards::MOUNTAIN, PlayerId::Two)];
    assert_eq!(
        game.validate_companion_checkpoint(),
        Err("companion selection must precede opening hands and designation".to_string())
    );
    game.players[1].hand.clear();
    game.pending_decisions = vec![osarena::state::PendingDecision {
        player: PlayerId::One,
        minimum: 0,
        maximum: 1,
        options: vec![GameObjectId(90)],
        continuation: osarena::state::DecisionContinuation::ChooseCompanion { player: PlayerId::One },
    }];
    assert_eq!(
        game.validate_companion_checkpoint(),
        Err("companion selection disagrees with starting-deck eligibility".to_string())
    );
}

#[test]
fn a_whole_combat_through_actions() {
    let mut game = ready_game();
    game.battlefield = vec![creature(1, cards::GRIZZLY_BEARS, PlayerId::One), creature(2, cards::SAVANNAH_LIONS, PlayerId::Two)];
    pass_pair(&mut game);
    assert_eq!(game.step, Step::BeginCombat);
    pass_pair(&mut game);
    assert_eq!(game.step, Step::DeclareAttackers);
    let attack = Action::DeclareAttacker {
        attacker: GameObjectId(1),
        defender: osarena::state::AttackDefender::Player(PlayerId::Two),
    };
    assert_eq!(game.legal_actions(PlayerId::One), vec![attack.clone(), Action::PassPriority]);
    game.apply(PlayerId::One, attack).unwrap();
    assert!(game.battlefield[0].attacking);
    assert!(game.battlefield[0].tapped);
    game.apply(PlayerId::One, Action::PassPriority).unwrap();
    assert!(game.attackers_declared);
    assert!(game.events.contains(&GameEvent::AttackDeclared { player: PlayerId::One, attackers: vec![GameObjectId(1)] }));
    pass_pair(&mut game);
    assert_eq!(game.step, Step::DeclareBlockers);
    let block = Action::DeclareBlocker { blocker: GameObjectId(2), attacker: GameObjectId(1) };
    assert!(game.legal_actions(PlayerId::One).is_empty());
    assert_eq!(game.legal_actions(PlayerId::Two), vec![block.clone(), Action::PassPriority]);
    game.apply(PlayerId::Two, block).unwrap();
    game.apply(PlayerId::Two, Action::PassPriority).unwrap();
    assert!(game.blockers_declared);
    assert!(game.battlefield[0].blocked);
    pass_pair(&mut game);
    assert_eq!(game.step, Step::CombatDamage);
    assert!(game.battlefield.is_empty());
    assert_eq!(game.players[0].graveyard.len(), 1);
    assert_eq!(game.players[1].graveyard.len(), 1);
    assert_eq!(game.players[1].life, 20);
    pass_pair(&mut game);
    assert_eq!(game.step, Step::EndCombat);
    pass_pair(&mut game);
    assert_eq!(game.step, Step::PostcombatMain);
    assert!(matches!(game.combat_damage_stage, osarena::state::CombatDamageStage::NotStarted));
}

#[test]
fn without_attackers_combat_skips_to_its_end() {
    let mut game = ready_game();
    game.battlefield = vec![creature(1, cards::GRIZZLY_BEARS, PlayerId::One)];
    game.step = Step::DeclareAttackers;
    game.apply(PlayerId::One, Action::PassPriority).unwrap();
    assert!(game.attackers_declared);
    pass_pair(&mut game);
    assert_eq!(game.step, Step::EndCombat);
}

fn full_hand(count: u32) -> Vec<CardInstance> {
    (0..count).map(|i| card(60 + i, cards::GRIZZLY_BEARS, PlayerId::One)).collect()
}

#[test]
fn cleanup_asks_for_a_discard_down_to_seven() {
    let mut game = ready_game();
    game.step = Step::End;
    game.players[0].hand = full_hand(9);
    pass_pair(&mut game);
    assert_eq!(game.step, Step::Cleanup);
    assert_eq!(game.pending_decisions.len(), 1);
    assert_eq!(game.pending_decisions[0].minimum, 2);
    assert_eq!(game.pending_decisions[0].maximum, 2);
    assert_eq!(game.acting_player(), PlayerId::One);
    let offered = game.legal_actions(PlayerId::One);
    assert_eq!(offered.len(), 36);
    assert_eq!(offered[0], Action::ChooseDecision { options: vec![GameObjectId(60), GameObjectId(61)] });
    assert!(!offered.contains(&Action::PassPriority));
    assert_eq!(game.apply(PlayerId::Two, Action::PassPriority), Err(ActionError::NotYourDecision));
    assert_eq!(
        game.apply(PlayerId::One, Action::ChooseDecision { options: vec![GameObjectId(60)] }),
        Err(ActionError::IllegalAction)
    );
    game.apply(PlayerId::One, Action::ChooseDecision { options: vec![GameObjectId(62), GameObjectId(68)] }).unwrap();
    assert_eq!(game.players[0].hand.len(), 7);
    assert!(!game.players[0].hand.iter().any(|c| c.id == GameObjectId(62) || c.id == GameObjectId(68)));
    assert_eq!(game.players[0].graveyard.len(), 2);
    assert!(game.pending_decisions.is_empty());
    assert_eq!(game.active_player, PlayerId::Two);
    assert_eq!(game.step, Step::Upkeep);
}

#[test]
fn seven_cards_need_no_cleanup_discard() {
    let mut game = ready_game();
    game.step = Step::End;
    game.players[0].hand = full_hand(7);
    pass_pair(&mut game);
    assert!(game.pending_decisions.is_empty());
    assert_eq!(game.active_player, PlayerId::Two);
    assert_eq!(game.players[0].hand.len(), 7);
}

#[test]
fn a_discard_the_decision_does_not_allow_changes_nothing() {
    let mut game = ready_game();
    game.step = Step::End;
    game.players[0].hand = full_hand(8);
    pass_pair(&mut game);
    let before = game.players[0].hand.clone();
    game.choose_decision(PlayerId::One, &vec![GameObjectId(60), GameObjectId(61)]);
    assert_eq!(game.players[0].hand, before);
    game.choose_decision(PlayerId::One, &vec![GameObjectId(99)]);
    assert_eq!(game.players[0].hand, before);
    game.choose_decision(PlayerId::Two, &vec![GameObjectId(60)]);
    assert_eq!(game.players[0].hand, before);
    game.choose_decision(PlayerId::One, &vec![GameObjectId(67)]);
    assert_eq!(game.players[0].hand.len(), 7);
    assert_eq!(game.step, Step::Upkeep);
}

#[test]
fn only_a_land_is_played_as_a_land() {
    let mut game = ready_game();
    game.players[0].hand = vec![card(50, cards::GRIZZLY_BEARS, PlayerId::One)];
    game.play_land(PlayerId::One, GameObjectId(50));
    assert_eq!(game.players[0].hand.len(), 1);
    assert!(game.battlefield.is_empty());
    assert_eq!(game.players[0].lands_played_this_turn, 0);
}
