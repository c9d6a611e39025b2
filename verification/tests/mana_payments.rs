use osarena::card::ManaColor;
use osarena::mana_payments::{
    add_fixed_mana, FlexibleManaPayment, FlexibleManaSymbol, ManaCost, ManaPaymentChoice,
};
use osarena::state::Game;

const TWO_W: FlexibleManaSymbol = FlexibleManaSymbol::TwoBrid(ManaColor::White);
const W_P: FlexibleManaSymbol = FlexibleManaSymbol::Phyrexian(ManaColor::White);
const R_P: FlexibleManaSymbol = FlexibleManaSymbol::Phyrexian(ManaColor::Red);
const W_U: FlexibleManaSymbol = FlexibleManaSymbol::Hybrid(ManaColor::White, ManaColor::Blue);

fn cost() -> ManaCost {
    ManaCost {
        white: 0,
        blue: 0,
        black: 0,
        red: 0,
        green: 0,
        colorless: 0,
        generic: 1,
        flexible: [0; 20],
    }
}

fn pay(symbol: FlexibleManaSymbol, count: u16) -> FlexibleManaPayment {
    FlexibleManaPayment { symbol, count }
}

fn choice(alternatives: Vec<FlexibleManaPayment>) -> ManaPaymentChoice {
    ManaPaymentChoice { alternatives }
}

#[test]
fn add_fixed_mana_adds_or_refuses_an_overflow() {
    let mut cost = cost();
    assert_eq!(add_fixed_mana(&mut cost, ManaColor::Red, 2), Some(()));
    assert_eq!(cost.red, 2);
    cost.green = u16::MAX;
    assert_eq!(add_fixed_mana(&mut cost, ManaColor::Green, 1), None);
    assert_eq!(cost.green, u16::MAX);
    assert_eq!(add_fixed_mana(&mut cost, ManaColor::Colorless, 3), Some(()));
    assert_eq!(cost.colorless, 3);
}

#[test]
fn payment_choices_cover_every_announcement() {
    let mut cost = cost();
    cost.flexible[0] = 1; // {2/W}
    cost.flexible[5] = 1; // {W/P}
    cost.flexible[10] = 2; // {W/U}: no announced alternative
    let choices = Game::mana_payment_choices(cost);
    let listed: Vec<Vec<FlexibleManaPayment>> = choices.into_iter().map(|choice| choice.alternatives).collect();
    assert_eq!(
        listed,
        vec![vec![], vec![pay(W_P, 1)], vec![pay(TWO_W, 1)], vec![pay(TWO_W, 1), pay(W_P, 1)]]
    );
    let plain = Game::mana_payment_choices(self::cost());
    assert_eq!(plain.len(), 1);
    assert!(plain[0].alternatives.is_empty());
}

#[test]
fn locking_a_choice_gives_the_residual_cost_and_life() {
    let mut cost = cost();
    cost.flexible[0] = 2; // {2/W}{2/W}
    cost.flexible[5] = 1; // {W/P}
    let locked = Game::locked_mana_payment(cost, &choice(vec![pay(TWO_W, 1), pay(W_P, 1)]), false).unwrap();
    assert_eq!(locked.0.generic, 3);
    assert_eq!(locked.0.white, 1);
    assert_eq!(locked.0.flexible, [0; 20]);
    assert_eq!(locked.1, 2);
    let kept = Game::locked_mana_payment(cost, &choice(vec![]), false).unwrap();
    assert_eq!(kept.0.white, 2);
    assert_eq!(kept.0.generic, 1);
    assert_eq!(kept.0.flexible[5], 1);
    assert_eq!(kept.1, 0);
    let any = Game::locked_mana_payment(cost, &choice(vec![]), true).unwrap();
    assert_eq!(any.0.white, 0);
    assert_eq!(any.0.generic, 4);
    assert_eq!(any.0.flexible, [0; 20]);
}

#[test]
fn ill_formed_choices_lock_nothing() {
    let mut cost = cost();
    cost.flexible[0] = 1;
    cost.flexible[10] = 1;
    assert!(Game::locked_mana_payment(cost, &choice(vec![pay(TWO_W, 0)]), false).is_none());
    assert!(Game::locked_mana_payment(cost, &choice(vec![pay(TWO_W, 1), pay(TWO_W, 1)]), false).is_none());
    assert!(Game::locked_mana_payment(cost, &choice(vec![pay(W_U, 1)]), false).is_none());
    assert!(Game::locked_mana_payment(cost, &choice(vec![pay(TWO_W, 2)]), false).is_none());
}

#[test]
fn life_for_phyrexian_symbols() {
    let paid = choice(vec![pay(W_P, 2), pay(TWO_W, 1), pay(R_P, 1)]);
    assert_eq!(Game::mana_payment_life(&paid), Some(6));
    assert_eq!(Game::phyrexian_symbols_paid_with_life(&paid), Some(3));
    let hybrid = choice(vec![pay(W_U, 1)]);
    assert_eq!(Game::mana_payment_life(&hybrid), None);
    assert_eq!(Game::phyrexian_symbols_paid_with_life(&hybrid), None);
    let huge = choice(vec![pay(W_P, 40_000)]);
    assert_eq!(Game::mana_payment_life(&huge), None);
    assert_eq!(Game::phyrexian_symbols_paid_with_life(&huge), Some(40_000));
}
