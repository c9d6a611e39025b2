use osarena::damage_delivery::damage_distributions;
use osarena::state::{Action, AttackDefender, CombatDamageAssignment, Target};
use osarena::card::cards;
use osarena::ids::{CardDefinitionId, GameObjectId, PlayerId};
use osarena::state::{
    CardInstance, CombatDamageStage, CreatureFilter, Game, Permanent, PlayerState, Step,
};
use osarena::card::{KeywordAbility, ManaColor};

fn player() -> PlayerState {
    PlayerState {
        life: 20,
        library: Vec::new(),
        hand: Vec::new(),
        graveyard: Vec::new(),
        exile: Vec::new(),
        outside_game: Vec::new(),
        command: Vec::new(),
        companion: None,
        lands_played_this_turn: 0,
    }
}

fn ready_game() -> Game {
    Game {
        players: vec![player(), player()],
        battlefield: Vec::new(),
        stack: Vec::new(),
        emblems: Vec::new(),
        active_player: PlayerId::One,
        priority: PlayerId::One,
        starting_player: PlayerId::One,
        step: Step::PrecombatMain,
        turns_started: vec![1, 0],
        consecutive_passes: 0,
        attackers_declared: false,
        blockers_declared: false,
        combat_damage_stage: CombatDamageStage::NotStarted,
        pending_combat_attackers: Vec::new(),
        combat_blocked_attackers: Vec::new(),
        combat_damage_assignments: Vec::new(),
        events: Vec::new(),
        triggers: Vec::new(),
        next_object_id: 1,
        pregame: None,
        pending_decisions: Vec::new(),
        creature_died_this_turn: false,
        creatures_died_this_turn: 0,
        winner: None,
    }
}

fn card(id: u32, definition: CardDefinitionId, owner: PlayerId) -> CardInstance {
    CardInstance { id: GameObjectId(id), definition, owner }
}

fn creature(id: u32, definition: CardDefinitionId, controller: PlayerId) -> Permanent {
    Permanent::entering(card(id, definition, controller), controller, 0)
}

fn attacking(id: u32, definition: CardDefinitionId) -> Permanent {
    let mut permanent = creature(id, definition, PlayerId::One);
    permanent.attacking = true;
    permanent.attack_defender = Some(AttackDefender::Player(PlayerId::Two));
    permanent
}

fn blocking(id: u32, definition: CardDefinitionId, attacker: u32) -> Permanent {
    let mut permanent = creature(id, definition, PlayerId::Two);
    permanent.blocking = Some(GameObjectId(attacker));
    permanent
}

#[test]
fn damage_distributions_list_every_division() {
    assert_eq!(damage_distributions(2, 3), vec![vec![0, 3], vec![1, 2], vec![2, 1], vec![3, 0]]);
    assert_eq!(damage_distributions(0, 0), vec![Vec::<u16>::new()]);
    assert!(damage_distributions(0, 2).is_empty());
    assert_eq!(damage_distributions(1, 4), vec![vec![4]]);
    let three = damage_distributions(3, 4);
    assert_eq!(three.len(), 15);
    assert!(three.iter().all(|amounts| amounts.len() == 3 && amounts.iter().sum::<u16>() == 4));
}

#[test]
fn trample_spills_only_past_lethal_damage() {
    let mut game = ready_game();
    game.battlefield = vec![attacking(1, cards::BALL_LIGHTNING), blocking(2, cards::GRIZZLY_BEARS, 1)];
    let actions = game.combat_assignment_actions(GameObjectId(1));
    assert_eq!(actions.len(), 5);
    for action in &actions {
        match action {
            Action::AssignCombatDamage { attacker, assignments } => {
                assert_eq!(*attacker, GameObjectId(1));
                assert_eq!(assignments.len(), 2);
                assert_eq!(assignments[0].recipient, Target::Permanent(GameObjectId(2)));
                assert_eq!(assignments[1].recipient, Target::Player(PlayerId::Two));
                assert_eq!(assignments[0].amount + assignments[1].amount, 6);
                assert!(assignments[1].amount == 0 || assignments[0].amount >= 2);
            }
            _ => panic!("not a damage assignment"),
        }
    }
    let split = game.default_damage_split(GameObjectId(1), &vec![GameObjectId(2)]);
    assert_eq!(split, vec![(Target::Permanent(GameObjectId(2)), 2), (Target::Player(PlayerId::Two), 4)]);
}

#[test]
fn deathtouch_makes_one_damage_lethal() {
    let mut game = ready_game();
    game.battlefield = vec![attacking(1, cards::TYPHOID_RATS), blocking(2, cards::SERRA_ANGEL, 1)];
    assert_eq!(game.lethal_damage(GameObjectId(2)), 4);
    assert_eq!(game.lethal_damage_from(GameObjectId(2), GameObjectId(1)), 1);
}

#[test]
fn a_single_blocker_without_trample_leaves_no_choice() {
    let mut game = ready_game();
    game.battlefield = vec![attacking(1, cards::GRIZZLY_BEARS), blocking(2, cards::SAVANNAH_LIONS, 1)];
    let actions = game.combat_assignment_actions(GameObjectId(1));
    assert_eq!(
        actions,
        vec![Action::AssignCombatDamage {
            attacker: GameObjectId(1),
            assignments: vec![CombatDamageAssignment { recipient: Target::Permanent(GameObjectId(2)), amount: 2 }],
        }]
    );
}

#[test]
fn first_strike_kills_before_regular_damage() {
    let mut game = ready_game();
    game.battlefield = vec![attacking(1, cards::WHITE_KNIGHT), blocking(2, cards::GRIZZLY_BEARS, 1)];
    game.step = Step::DeclareBlockers;
    game.advance_step();
    assert_eq!(game.step, Step::CombatDamage);
    assert!(game.regular_combat_damage_pending());
    assert_eq!(game.battlefield.len(), 1);
    assert_eq!(game.battlefield[0].card.id, GameObjectId(1));
    assert_eq!(game.players[1].graveyard.len(), 1);
    game.advance_step();
    assert!(!game.regular_combat_damage_pending());
    assert_eq!(game.battlefield[0].damage, 0);
    assert_eq!(game.players[1].life, 20);
}

#[test]
fn an_unblocked_attacker_hits_its_defender() {
    let mut game = ready_game();
    game.battlefield = vec![attacking(1, cards::SERRA_ANGEL)];
    game.step = Step::DeclareBlockers;
    game.advance_step();
    assert!(!game.regular_combat_damage_pending());
    assert_eq!(game.players[1].life, 16);
}

#[test]
fn a_blocked_attacker_whose_blocker_left_deals_no_damage() {
    let mut game = ready_game();
    game.battlefield = vec![attacking(1, cards::SERRA_ANGEL)];
    game.combat_blocked_attackers = vec![GameObjectId(1)];
    game.step = Step::DeclareBlockers;
    game.advance_step();
    assert_eq!(game.players[1].life, 20);
}

#[test]
fn a_real_choice_waits_for_the_assignment() {
    let mut game = ready_game();
    game.battlefield = vec![attacking(1, cards::BALL_LIGHTNING), blocking(2, cards::GRIZZLY_BEARS, 1)];
    game.step = Step::DeclareBlockers;
    game.advance_step();
    assert_eq!(game.pending_combat_attackers, vec![GameObjectId(1)]);
    assert_eq!(game.acting_player(), PlayerId::One);
    let choice = Action::AssignCombatDamage {
        attacker: GameObjectId(1),
        assignments: vec![
            CombatDamageAssignment { recipient: Target::Permanent(GameObjectId(2)), amount: 2 },
            CombatDamageAssignment { recipient: Target::Player(PlayerId::Two), amount: 4 },
        ],
    };
    assert!(game.legal_actions(PlayerId::One).contains(&choice));
    game.apply(PlayerId::One, choice).unwrap();
    assert!(game.pending_combat_attackers.is_empty());
    assert_eq!(game.players[1].life, 16);
    assert_eq!(game.battlefield.len(), 0);
}

#[test]
fn banding_offers_each_pair_once_in_id_order() {
    let mut game = ready_game();
    game.battlefield = vec![attacking(7, cards::BENALISH_HERO), attacking(3, cards::GRIZZLY_BEARS)];
    assert_eq!(
        game.band_actions(PlayerId::One),
        vec![Action::BandAttackers { first: GameObjectId(3), second: GameObjectId(7) }]
    );
    game.form_band(GameObjectId(3), GameObjectId(7));
    assert!(game.share_a_band(GameObjectId(3), GameObjectId(7)));
    assert!(game.band_actions(PlayerId::One).is_empty());
}

#[test]
fn two_creatures_without_banding_cannot_band() {
    let mut game = ready_game();
    game.battlefield = vec![attacking(3, cards::GRIZZLY_BEARS), attacking(4, cards::SAVANNAH_LIONS)];
    assert!(game.band_actions(PlayerId::One).is_empty());
}

#[test]
fn lifelink_gains_what_it_deals() {
    let mut game = ready_game();
    game.battlefield = vec![attacking(1, cards::LURRUS_OF_THE_DREAM_DEN)];
    game.step = Step::DeclareBlockers;
    game.advance_step();
    assert_eq!(game.players[1].life, 17);
    assert_eq!(game.players[0].life, 23);
    assert!(game.battlefield[0].dealt_damage_to_opponent_this_turn);
}

#[test]
fn protection_prevents_damage_from_its_colour() {
    let mut game = ready_game();
    game.battlefield = vec![creature(1, cards::TYPHOID_RATS, PlayerId::Two), creature(2, cards::WHITE_KNIGHT, PlayerId::One)];
    let dealt = game.damage_target_from(Some(GameObjectId(1)), Some(Target::Permanent(GameObjectId(2))), 3);
    assert_eq!(dealt, 0);
    assert_eq!(game.battlefield[1].damage, 0);
    let dealt = game.damage_target_from(Some(GameObjectId(1)), Some(Target::Permanent(GameObjectId(1))), 1);
    assert_eq!(dealt, 1);
    assert!(game.battlefield[0].deathtouch_damage);
}

#[test]
fn damage_to_a_planeswalker_removes_loyalty() {
    let mut game = ready_game();
    game.battlefield = vec![creature(1, cards::DOMRI_RADE, PlayerId::Two)];
    game.damage_target(Some(Target::Permanent(GameObjectId(1))), 2);
    assert_eq!(game.battlefield[0].loyalty, 1);
    game.check_state_based_actions();
    assert_eq!(game.battlefield[0].loyalty, 1);
    game.damage_target(Some(Target::Permanent(GameObjectId(1))), 5);
    game.check_state_based_actions();
    assert!(game.battlefield.is_empty());
    assert_eq!(game.players[1].graveyard.len(), 1);
}

#[test]
fn undying_returns_with_a_counter() {
    let mut game = ready_game();
    game.next_object_id = 50;
    game.battlefield = vec![creature(1, cards::YOUNG_WOLF, PlayerId::One)];
    game.destroy_permanent(GameObjectId(1));
    assert_eq!(game.battlefield.len(), 1);
    assert_eq!(game.battlefield[0].card.id, GameObjectId(51));
    assert_eq!(game.battlefield[0].plus_one_counters, 1);
    assert_eq!(game.creatures_died_this_turn, 1);
    game.destroy_permanent(GameObjectId(51));
    assert!(game.battlefield.is_empty());
    assert_eq!(game.players[0].graveyard.len(), 1);
}

fn blocks(actions: &[Action]) -> Vec<(u32, u32)> {
    actions
        .iter()
        .filter_map(|action| match action {
            Action::DeclareBlocker { blocker, attacker } => Some((blocker.0, attacker.0)),
            _ => None,
        })
        .collect()
}

fn blocking_game() -> Game {
    let mut game = ready_game();
    game.step = Step::DeclareBlockers;
    game.attackers_declared = true;
    game.battlefield.push(attacking(1, cards::GRIZZLY_BEARS));
    game.battlefield.push(attacking(2, cards::SAVANNAH_LIONS));
    game.battlefield.push(creature(3, cards::GRIZZLY_BEARS, PlayerId::Two));
    game.battlefield.push(creature(4, cards::GIANT_SPIDER, PlayerId::Two));
    game
}

#[test]
fn without_rules_every_blocker_may_block_every_attacker() {
    let game = blocking_game();
    assert_eq!(blocks(&game.blocker_actions(PlayerId::Two)), vec![(3, 1), (3, 2), (4, 1), (4, 2)]);
    assert!(!game.block_requirement_outstanding(&game.blocker_actions(PlayerId::Two)));
}

#[test]
fn a_lure_requirement_takes_the_other_blocks_away() {
    let mut game = blocking_game();
    game.battlefield[0].blocking_rules.must_be_blocked_by = Some(CreatureFilter::Any);
    assert_eq!(blocks(&game.available_blocker_actions(PlayerId::Two)).len(), 4);
    let required = game.blocker_actions(PlayerId::Two);
    assert_eq!(blocks(&required), vec![(3, 1), (4, 1)]);
    assert!(game.block_requirement_outstanding(&required));
    game.priority = PlayerId::Two;
    let legal = game.legal_actions(PlayerId::Two);
    assert!(!legal.contains(&Action::PassPriority));
}

#[test]
fn a_requirement_binds_only_the_creatures_it_names() {
    let mut game = blocking_game();
    game.battlefield[0].blocking_rules.must_be_blocked_by =
        Some(CreatureFilter::WithKeyword(KeywordAbility::Reach));
    assert_eq!(blocks(&game.blocker_actions(PlayerId::Two)), vec![(3, 1), (3, 2), (4, 1)]);
}

#[test]
fn blocking_restrictions_remove_blocks() {
    let mut game = blocking_game();
    game.battlefield[2].blocking_rules.cannot_block = true;
    assert_eq!(blocks(&game.blocker_actions(PlayerId::Two)), vec![(4, 1), (4, 2)]);
    game.battlefield[1].blocking_rules.cannot_be_blocked = true;
    assert_eq!(blocks(&game.blocker_actions(PlayerId::Two)), vec![(4, 1)]);
    let mut game = blocking_game();
    game.battlefield[0].blocking_rules.cannot_be_blocked_by = Some(CreatureFilter::OfColor(ManaColor::Green));
    game.battlefield[3].blocking_rules.can_block_only = Some(CreatureFilter::OfColor(ManaColor::White));
    assert_eq!(blocks(&game.blocker_actions(PlayerId::Two)), vec![(3, 2), (4, 2)]);
}
