use osarena::card::KeywordAbility;
use osarena::card_runtime::{CardRuntime, PileChoice, PileSplit, ResolvedAbility, TargetIndex, TargetSelection};
use osarena::mana::ManaAbilityActivation;
use osarena::state::{Target, ZoneKind};
use osarena::card::cards;
use osarena::ids::{CardDefinitionId, GameObjectId, PlayerId};
use osarena::state::{
    CardInstance, CombatDamageStage, Game, Permanent, PlayerState, Step,
};

fn player() -> PlayerState {
    PlayerState {
        life: 20,
        library: Vec::new(),
        hand: Vec::new(),
        graveyard: Vec::new(),
        exile: Vec::new(),
        outside_game: Vec::new(),
        command: Vec::new(),
        companion: None,
        lands_played_this_turn: 0,
    }
}

fn ready_game() -> Game {
    Game {
        players: vec![player(), player()],
        battlefield: Vec::new(),
        stack: Vec::new(),
        emblems: Vec::new(),
        active_player: PlayerId::One,
        priority: PlayerId::One,
        starting_player: PlayerId::One,
        step: Step::PrecombatMain,
        turns_started: vec![1, 0],
        consecutive_passes: 0,
        attackers_declared: false,
        blockers_declared: false,
        combat_damage_stage: CombatDamageStage::NotStarted,
        pending_combat_attackers: Vec::new(),
        combat_blocked_attackers: Vec::new(),
        combat_damage_assignments: Vec::new(),
        events: Vec::new(),
        triggers: Vec::new(),
        next_object_id: 1,
        pregame: None,
        pending_decisions: Vec::new(),
        creature_died_this_turn: false,
        creatures_died_this_turn: 0,
        winner: None,
    }
}

fn card(id: u32, definition: CardDefinitionId, owner: PlayerId) -> CardInstance {
    CardInstance { id: GameObjectId(id), definition, owner }
}

fn creature(id: u32, definition: CardDefinitionId, controller: PlayerId) -> Permanent {
    Permanent::entering(card(id, definition, controller), controller, 0)
}

#[test]
fn take_card_from_zone_removes_the_first_match() {
    let mut game = ready_game();
    game.players[0].graveyard = vec![card(5, cards::MOUNTAIN, PlayerId::One), card(6, cards::PLAINS, PlayerId::One)];
    let taken = game.take_card_from_zone(PlayerId::One, ZoneKind::Graveyard, GameObjectId(6));
    assert_eq!(taken, Some(card(6, cards::PLAINS, PlayerId::One)));
    assert_eq!(game.players[0].graveyard.len(), 1);
    assert_eq!(game.take_card_from_zone(PlayerId::One, ZoneKind::Battlefield, GameObjectId(5)), None);
    assert_eq!(game.take_card_from_zone(PlayerId::One, ZoneKind::Hand, GameObjectId(5)), None);
}

#[test]
fn exiling_a_card_gives_it_a_new_id() {
    let mut game = ready_game();
    game.next_object_id = 40;
    game.players[1].hand = vec![card(5, cards::GRIZZLY_BEARS, PlayerId::Two)];
    assert_eq!(game.exile_card_returning_card(GameObjectId(5)), Some(GameObjectId(40)));
    assert!(game.players[1].hand.is_empty());
    assert_eq!(game.players[1].exile, vec![card(40, cards::GRIZZLY_BEARS, PlayerId::Two)]);
    assert_eq!(game.exile_card_returning_card(GameObjectId(40)), None);
    assert_eq!(game.exile_card_returning_card(GameObjectId(77)), None);
    assert_eq!(game.next_object_id, 41);
}

#[test]
fn an_exiled_card_returns_to_the_battlefield_or_hand() {
    let mut game = ready_game();
    game.next_object_id = 40;
    game.players[0].exile = vec![card(5, cards::GRIZZLY_BEARS, PlayerId::One), card(6, cards::SAVANNAH_LIONS, PlayerId::One)];
    game.return_exiled_card(GameObjectId(5), ZoneKind::Battlefield, Some(KeywordAbility::Haste), Some(PlayerId::Two));
    assert_eq!(game.battlefield.len(), 1);
    assert_eq!(game.battlefield[0].card.id, GameObjectId(40));
    assert_eq!(game.battlefield[0].controller, PlayerId::Two);
    assert!(game.battlefield[0].granted.haste);
    game.return_exiled_card(GameObjectId(6), ZoneKind::Hand, None, None);
    assert_eq!(game.players[0].hand, vec![card(41, cards::SAVANNAH_LIONS, PlayerId::One)]);
    assert!(game.players[0].exile.is_empty());
    game.return_exiled_card(GameObjectId(6), ZoneKind::Hand, None, None);
    assert_eq!(game.next_object_id, 42);
}

#[test]
fn resolved_ability_facts() {
    let ability = ResolvedAbility {
        controller: PlayerId::Two,
        targets: vec![
            TargetSelection { targets: vec![Target::Permanent(GameObjectId(3)), Target::Player(PlayerId::One)] },
            TargetSelection { targets: vec![Target::Permanent(GameObjectId(4))] },
        ],
    };
    assert_eq!(ability.controller(), PlayerId::Two);
    assert_eq!(ability.target_player(TargetIndex(0)), Some(PlayerId::One));
    assert_eq!(ability.target_player(TargetIndex(1)), None);
    assert_eq!(ability.target_player(TargetIndex(2)), None);
}

#[test]
fn pile_facts() {
    let split = PileSplit {
        resolving_controller: PlayerId::One,
        subject: PlayerId::Two,
        first: vec![GameObjectId(1)],
        second: vec![],
    };
    assert_eq!(split.subject(), PlayerId::Two);
    let choice = PileChoice {
        resolving_controller: PlayerId::One,
        subject: PlayerId::Two,
        chosen: vec![GameObjectId(1), GameObjectId(2)],
        unchosen: vec![GameObjectId(3)],
    };
    assert_eq!(choice.resolving_controller(), PlayerId::One);
    assert_eq!(choice.subject(), PlayerId::Two);
    assert_eq!(choice.into_parts(), (vec![GameObjectId(1), GameObjectId(2)], vec![GameObjectId(3)]));
}

#[test]
fn a_card_runtime_sacrifices_only_what_the_player_controls() {
    let mut game = ready_game();
    game.battlefield = vec![
        creature(1, cards::GRIZZLY_BEARS, PlayerId::One),
        creature(2, cards::SAVANNAH_LIONS, PlayerId::Two),
        creature(3, cards::SERRA_ANGEL, PlayerId::One),
    ];
    let mut runtime = CardRuntime { game };
    assert_eq!(runtime.controlled_permanents(PlayerId::One), vec![GameObjectId(1), GameObjectId(3)]);
    runtime.sacrifice_permanents_simultaneously(&vec![GameObjectId(1), GameObjectId(2)], PlayerId::One, PlayerId::Two);
    assert_eq!(runtime.game.battlefield.len(), 2);
    assert_eq!(runtime.game.players[0].graveyard.len(), 1);
    assert!(runtime.game.players[1].graveyard.is_empty());
}

#[test]
fn lands_make_mana() {
    let mut game = ready_game();
    let mut tapped = creature(2, cards::PLAINS, PlayerId::One);
    tapped.tapped = true;
    game.battlefield = vec![
        creature(1, cards::MOUNTAIN, PlayerId::One),
        tapped,
        creature(3, cards::PLAINS, PlayerId::One),
        creature(4, cards::MOUNTAIN, PlayerId::Two),
        creature(5, cards::GRIZZLY_BEARS, PlayerId::One),
    ];
    assert_eq!(game.available_mana(PlayerId::One), 2);
    assert_eq!(
        game.mana_ability_activations(&game.battlefield[0]),
        vec![ManaAbilityActivation { source: GameObjectId(1), produces: osarena::card::ManaColor::Red }]
    );
    assert!(game.mana_ability_activations(&game.battlefield[4]).is_empty());
    game.pay_generic(PlayerId::One, 1);
    assert!(game.battlefield[0].tapped);
    assert!(!game.battlefield[2].tapped);
    assert_eq!(game.available_mana(PlayerId::One), 1);
}

#[test]
fn exile_and_return_to_hand() {
    let mut game = ready_game();
    game.next_object_id = 10;
    game.players[0].hand = vec![card(5, cards::SERRA_ANGEL, PlayerId::One)];
    let exiled = game.exile_card_returning_card(GameObjectId(5)).unwrap();
    assert_eq!(exiled, GameObjectId(10));
    game.return_exiled_card(exiled, ZoneKind::Hand, None, None);
    assert_eq!(game.players[0].hand, vec![card(11, cards::SERRA_ANGEL, PlayerId::One)]);
    assert!(game.players[0].exile.is_empty());
}
