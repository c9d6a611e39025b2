use osarena::card::cards;
use osarena::engine::ActionError;
use osarena::ids::{CardDefinitionId, GameObjectId, PlayerId};
use osarena::state::{
    Action, CardInstance, CombatDamageStage, Game, Permanent, PlayerState, Step, Target,
};

fn player() -> PlayerState {
    PlayerState {
        life: 20,
        library: Vec::new(),
        hand: Vec::new(),
        graveyard: Vec::new(),
        exile: Vec::new(),
        outside_game: Vec::new(),
        command: Vec::new(),
        companion: None,
        lands_played_this_turn: 0,
    }
}

fn ready_game() -> Game {
    Game {
        players: vec![player(), player()],
        battlefield: Vec::new(),
        stack: Vec::new(),
        emblems: Vec::new(),
        active_player: PlayerId::One,
        priority: PlayerId::One,
        starting_player: PlayerId::One,
        step: Step::PrecombatMain,
        turns_started: vec![1, 0],
        consecutive_passes: 0,
        attackers_declared: false,
        blockers_declared: false,
        combat_damage_stage: CombatDamageStage::NotStarted,
        pending_combat_attackers: Vec::new(),
        combat_blocked_attackers: Vec::new(),
        combat_damage_assignments: Vec::new(),
        events: Vec::new(),
        triggers: Vec::new(),
        next_object_id: 1,
        pregame: None,
        pending_decisions: Vec::new(),
        creature_died_this_turn: false,
        creatures_died_this_turn: 0,
        winner: None,
    }
}

fn card(id: u32, definition: CardDefinitionId, owner: PlayerId) -> CardInstance {
    CardInstance { id: GameObjectId(id), definition, owner }
}

fn permanent(id: u32, definition: CardDefinitionId, controller: PlayerId) -> Permanent {
    Permanent::entering(card(id, definition, controller), controller, 0)
}

fn bolt_at(target: Target) -> Action {
    Action::CastSpell { card: GameObjectId(50), targets: vec![target], x: 0 }
}

fn bolt_game() -> Game {
    let mut game = ready_game();
    game.players[0].hand = vec![card(50, cards::LIGHTNING_BOLT, PlayerId::One)];
    game.battlefield = vec![
        permanent(100, cards::MOUNTAIN, PlayerId::One),
        permanent(101, cards::GRIZZLY_BEARS, PlayerId::Two),
    ];
    game
}

fn both_pass(game: &mut Game) {
    let first = game.priority;
    game.apply(first, Action::PassPriority).unwrap();
    let second = game.priority;
    game.apply(second, Action::PassPriority).unwrap();
}

#[test]
fn lightning_bolt_is_offered_at_each_legal_target() {
    let game = bolt_game();
    let spells: Vec<Action> = game
        .legal_actions(PlayerId::One)
        .into_iter()
        .filter(|action| matches!(action, Action::CastSpell { .. }))
        .collect();
    assert_eq!(
        spells,
        vec![
            bolt_at(Target::Player(PlayerId::One)),
            bolt_at(Target::Player(PlayerId::Two)),
            bolt_at(Target::Permanent(GameObjectId(101))),
        ]
    );
}

#[test]
fn no_spell_without_the_mana_for_it() {
    let mut game = bolt_game();
    game.battlefield[0].tapped = true;
    let offered = game.legal_actions(PlayerId::One);
    assert!(!offered.iter().any(|action| matches!(action, Action::CastSpell { .. })));
    assert_eq!(game.apply(PlayerId::One, bolt_at(Target::Player(PlayerId::Two))), Err(ActionError::IllegalAction));
    let mut game = bolt_game();
    game.battlefield[0] = permanent(100, cards::PLAINS, PlayerId::One);
    assert!(!game.legal_actions(PlayerId::One).iter().any(|action| matches!(action, Action::CastSpell { .. })));
}

#[test]
fn casting_lightning_bolt_puts_it_on_the_stack_and_taps_a_mountain() {
    let mut game = bolt_game();
    game.consecutive_passes = 1;
    game.apply(PlayerId::One, bolt_at(Target::Player(PlayerId::Two))).unwrap();
    assert!(game.players[0].hand.is_empty());
    assert!(game.battlefield[0].tapped);
    assert_eq!(game.stack.len(), 1);
    assert_eq!(game.stack[0].id, GameObjectId(1));
    assert_eq!(game.stack[0].spell, Some(card(1, cards::LIGHTNING_BOLT, PlayerId::One)));
    assert_eq!(game.stack[0].targets, vec![Target::Player(PlayerId::Two)]);
    assert_eq!(game.consecutive_passes, 0);
    assert_eq!(game.priority, PlayerId::One);
}

#[test]
fn lightning_bolt_deals_three_damage_to_a_player() {
    let mut game = bolt_game();
    game.apply(PlayerId::One, bolt_at(Target::Player(PlayerId::Two))).unwrap();
    both_pass(&mut game);
    assert!(game.stack.is_empty());
    assert_eq!(game.players[1].life, 17);
    assert_eq!(game.players[0].graveyard, vec![card(2, cards::LIGHTNING_BOLT, PlayerId::One)]);
}

#[test]
fn lightning_bolt_kills_a_two_toughness_creature() {
    let mut game = bolt_game();
    game.apply(PlayerId::One, bolt_at(Target::Permanent(GameObjectId(101)))).unwrap();
    both_pass(&mut game);
    assert_eq!(game.battlefield.len(), 1);
    assert_eq!(game.players[1].graveyard.len(), 1);
    assert_eq!(game.players[1].graveyard[0].definition, cards::GRIZZLY_BEARS);
    assert_eq!(game.players[0].graveyard.len(), 1);
}

#[test]
fn lightning_bolt_without_its_target_does_nothing() {
    let mut game = bolt_game();
    game.apply(PlayerId::One, bolt_at(Target::Permanent(GameObjectId(101)))).unwrap();
    game.battlefield.pop();
    both_pass(&mut game);
    assert_eq!(game.players[0].life, 20);
    assert_eq!(game.players[1].life, 20);
    assert_eq!(game.players[0].graveyard.len(), 1);
}

#[test]
fn an_instant_may_be_cast_on_the_opponents_turn() {
    let mut game = bolt_game();
    game.active_player = PlayerId::Two;
    game.priority = PlayerId::One;
    game.step = Step::Upkeep;
    assert!(game.legal_actions(PlayerId::One).contains(&bolt_at(Target::Player(PlayerId::Two))));
}

fn casts(game: &Game, player: PlayerId) -> Vec<Action> {
    game.legal_actions(player)
        .into_iter()
        .filter(|action| matches!(action, Action::CastSpell { .. }))
        .collect()
}

fn cast(id: u32) -> Action {
    Action::CastSpell { card: GameObjectId(id), targets: Vec::new(), x: 0 }
}

#[test]
fn a_creature_spell_resolves_onto_the_battlefield() {
    let mut game = ready_game();
    game.players[0].hand = vec![card(60, cards::SAVANNAH_LIONS, PlayerId::One)];
    game.battlefield = vec![permanent(100, cards::PLAINS, PlayerId::One)];
    assert_eq!(casts(&game, PlayerId::One), vec![cast(60)]);
    game.apply(PlayerId::One, cast(60)).unwrap();
    assert!(game.battlefield[0].tapped);
    assert_eq!(game.stack.len(), 1);
    both_pass(&mut game);
    assert!(game.stack.is_empty());
    assert_eq!(game.battlefield.len(), 2);
    assert_eq!(game.battlefield[1].card, card(2, cards::SAVANNAH_LIONS, PlayerId::One));
    assert_eq!(game.battlefield[1].controller, PlayerId::One);
    assert!(game.players[0].graveyard.is_empty());
}

#[test]
fn a_cost_needs_each_colour_and_enough_lands() {
    let mut game = ready_game();
    game.players[0].hand = vec![
        card(60, cards::SERRA_ANGEL, PlayerId::One),
        card(61, cards::BALL_LIGHTNING, PlayerId::One),
        card(62, cards::GRIZZLY_BEARS, PlayerId::One),
        card(63, cards::DARKSTEEL_MYR, PlayerId::One),
    ];
    game.battlefield = vec![
        permanent(100, cards::PLAINS, PlayerId::One),
        permanent(101, cards::PLAINS, PlayerId::One),
        permanent(102, cards::MOUNTAIN, PlayerId::One),
        permanent(103, cards::MOUNTAIN, PlayerId::One),
    ];
    assert_eq!(casts(&game, PlayerId::One), vec![cast(63)]);
    game.battlefield.push(permanent(104, cards::MOUNTAIN, PlayerId::One));
    assert_eq!(casts(&game, PlayerId::One), vec![cast(60), cast(61), cast(63)]);
    game.apply(PlayerId::One, cast(60)).unwrap();
    assert!(game.battlefield.iter().all(|land| land.tapped));
}

#[test]
fn a_creature_spell_waits_for_its_own_main_phase_and_an_empty_stack() {
    let mut game = ready_game();
    game.players[0].hand = vec![card(60, cards::SAVANNAH_LIONS, PlayerId::One)];
    game.battlefield = vec![permanent(100, cards::PLAINS, PlayerId::One)];
    game.step = Step::Upkeep;
    assert!(casts(&game, PlayerId::One).is_empty());
    game.step = Step::PrecombatMain;
    game.active_player = PlayerId::Two;
    assert!(casts(&game, PlayerId::One).is_empty());
}

fn fireball(targets: Vec<Target>, x: u16) -> Action {
    Action::CastSpell { card: GameObjectId(70), targets, x }
}

fn fireball_game(mountains: u32) -> Game {
    let mut game = ready_game();
    game.players[0].hand = vec![card(70, cards::FIREBALL, PlayerId::One)];
    game.battlefield = (0..mountains).map(|i| permanent(100 + i, cards::MOUNTAIN, PlayerId::One)).collect();
    game.battlefield.push(permanent(200, cards::GRIZZLY_BEARS, PlayerId::Two));
    game
}

#[test]
fn fireball_offers_every_target_set_and_every_payable_x() {
    let game = fireball_game(2);
    let one = Target::Player(PlayerId::One);
    let two = Target::Player(PlayerId::Two);
    let bears = Target::Permanent(GameObjectId(200));
    assert_eq!(
        casts(&game, PlayerId::One),
        vec![
            fireball(vec![one], 0),
            fireball(vec![one], 1),
            fireball(vec![two], 0),
            fireball(vec![two], 1),
            fireball(vec![bears], 0),
            fireball(vec![bears], 1),
            fireball(vec![one, two], 0),
            fireball(vec![one, bears], 0),
            fireball(vec![two, bears], 0),
        ]
    );
    assert_eq!(game.validated_cast_signature(PlayerId::One, GameObjectId(70), &vec![two, two], 0), None);
    assert_eq!(game.validated_cast_signature(PlayerId::One, GameObjectId(70), &vec![two], 2), None);
    assert!(game.validated_cast_signature(PlayerId::One, GameObjectId(70), &vec![two], 1).is_some());
}

#[test]
fn fireball_divides_its_damage_evenly_and_pays_for_extra_targets() {
    let mut game = fireball_game(6);
    let two = Target::Player(PlayerId::Two);
    let bears = Target::Permanent(GameObjectId(200));
    game.apply(PlayerId::One, fireball(vec![two, bears], 4)).unwrap();
    assert!(game.battlefield.iter().filter(|p| p.card.definition == cards::MOUNTAIN).all(|land| land.tapped));
    assert_eq!(game.stack[0].x, 4);
    both_pass(&mut game);
    assert_eq!(game.players[1].life, 18);
    assert_eq!(game.players[1].graveyard.len(), 1);
    assert_eq!(game.players[0].graveyard.len(), 1);
}

#[test]
fn fireball_rounds_each_share_down() {
    let mut game = fireball_game(5);
    let one = Target::Player(PlayerId::One);
    let two = Target::Player(PlayerId::Two);
    game.apply(PlayerId::One, fireball(vec![one, two], 3)).unwrap();
    assert_eq!(game.battlefield.iter().filter(|p| p.tapped).count(), 5);
    both_pass(&mut game);
    assert_eq!(game.players[0].life, 19);
    assert_eq!(game.players[1].life, 19);
}
