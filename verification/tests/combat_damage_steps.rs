use osarena::card::cards;
use osarena::ids::{AbilityId, CardDefinitionId, CardPartId, GameObjectId, PlayerId};
use osarena::state::{
    AbilityOrigin, Action, AttackDefender, CardInstance, CombatDamageStage, CounterKind, Game,
    Permanent, PlayerState, Step,
};

fn player() -> PlayerState {
    PlayerState {
        life: 20,
        library: Vec::new(),
        hand: Vec::new(),
        graveyard: Vec::new(),
        exile: Vec::new(),
        outside_game: Vec::new(),
        command: Vec::new(),
        companion: None,
        lands_played_this_turn: 0,
    }
}

/// A game past the opening hands: player one's first precombat main phase,
/// holding priority, with nothing in any zone.
fn ready_game() -> Game {
    Game {
        players: vec![player(), player()],
        battlefield: Vec::new(),
        stack: Vec::new(),
        emblems: Vec::new(),
        active_player: PlayerId::One,
        priority: PlayerId::One,
        starting_player: PlayerId::One,
        step: Step::PrecombatMain,
        turns_started: vec![1, 0],
        consecutive_passes: 0,
        attackers_declared: false,
        blockers_declared: false,
        combat_damage_stage: CombatDamageStage::NotStarted,
        pending_combat_attackers: Vec::new(),
        combat_blocked_attackers: Vec::new(),
        combat_damage_assignments: Vec::new(),
        events: Vec::new(),
        triggers: Vec::new(),
        next_object_id: 1,
        pregame: None,
        pending_decisions: Vec::new(),
        creature_died_this_turn: false,
        creatures_died_this_turn: 0,
        winner: None,
    }
}

fn creature(id: u32, definition: CardDefinitionId, controller: PlayerId) -> Permanent {
    Permanent::entering(
        CardInstance { id: GameObjectId(id), definition, owner: controller },
        controller,
        0,
    )
}

fn pass_priority_pair(game: &mut Game) {
    for _ in 0..2 {
        let player = game.priority;
        game.apply(player, Action::PassPriority).unwrap();
    }
}

#[test]
fn domri_ultimate_grants_two_combat_damage_steps() {
    let mut game = ready_game();
    let mut domri = creature(10_000, cards::DOMRI_RADE, PlayerId::One);
    domri.set_counters(CounterKind::Loyalty, 7);
    let domri_id = domri.card.id;
    let attacker = creature(10_001, cards::SAVANNAH_LIONS, PlayerId::One);
    let attacker_id = attacker.card.id;
    game.battlefield = vec![domri, attacker];

    let ultimate = Action::ActivateAbility {
        source: domri_id,
        ability: AbilityOrigin::Printed {
            definition: cards::DOMRI_RADE,
            part: CardPartId::PRIMARY,
            ability: AbilityId(2),
        },
        targets: Vec::new(),
        sacrifice: None,
        x: 0,
    };
    assert!(game.legal_actions(PlayerId::One).contains(&ultimate));
    game.apply(PlayerId::One, ultimate).unwrap();
    pass_priority_pair(&mut game);

    assert_eq!(game.emblems.len(), 1);
    let attacker = game
        .battlefield
        .iter_mut()
        .find(|permanent| permanent.card.id == attacker_id)
        .unwrap();
    attacker.attacking = true;
    attacker.attack_defender = Some(AttackDefender::Player(PlayerId::Two));

    game.step = Step::DeclareBlockers;
    game.advance_step();

    assert_eq!(game.step, Step::CombatDamage);
    assert!(game.regular_combat_damage_pending());
    assert_eq!(game.players[PlayerId::Two.index()].life, 18);

    pass_priority_pair(&mut game);

    assert_eq!(game.step, Step::CombatDamage);
    assert!(!game.regular_combat_damage_pending());
    assert_eq!(game.players[PlayerId::Two.index()].life, 16);
}
