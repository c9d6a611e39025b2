//! Mana costs with flexible symbols, and locking the announced branches of
//! those symbols into one payment.
//!
//! Paying life for a Phyrexian symbol, or the generic half of a two-brid
//! symbol, is an announced choice. These helpers enumerate the choices and
//! turn one into the residual mana cost and the life it costs.
use vstd::prelude::*;

use crate::card::ManaColor;

verus! {

/// A mana symbol that can be paid in more than one way.
#[derive(Clone, Copy, Debug, PartialEq, Eq, Structural)]
pub enum FlexibleManaSymbol {
    /// Two generic mana or one mana of the colour.
    TwoBrid(ManaColor),
    /// One mana of the colour or 2 life.
    Phyrexian(ManaColor),
    /// One mana of either colour.
    Hybrid(ManaColor, ManaColor),
}

/// Every flexible symbol, in the order payments are locked.
pub open spec fn all_symbols() -> Seq<FlexibleManaSymbol> {
    seq![
        FlexibleManaSymbol::TwoBrid(ManaColor::White),
        FlexibleManaSymbol::TwoBrid(ManaColor::Blue),
        FlexibleManaSymbol::TwoBrid(ManaColor::Black),
        FlexibleManaSymbol::TwoBrid(ManaColor::Red),
        FlexibleManaSymbol::TwoBrid(ManaColor::Green),
        FlexibleManaSymbol::Phyrexian(ManaColor::White),
        FlexibleManaSymbol::Phyrexian(ManaColor::Blue),
        FlexibleManaSymbol::Phyrexian(ManaColor::Black),
        FlexibleManaSymbol::Phyrexian(ManaColor::Red),
        FlexibleManaSymbol::Phyrexian(ManaColor::Green),
        FlexibleManaSymbol::Hybrid(ManaColor::White, ManaColor::Blue),
        FlexibleManaSymbol::Hybrid(ManaColor::Blue, ManaColor::Black),
        FlexibleManaSymbol::Hybrid(ManaColor::Black, ManaColor::Red),
        FlexibleManaSymbol::Hybrid(ManaColor::Red, ManaColor::Green),
        FlexibleManaSymbol::Hybrid(ManaColor::Green, ManaColor::White),
        FlexibleManaSymbol::Hybrid(ManaColor::White, ManaColor::Black),
        FlexibleManaSymbol::Hybrid(ManaColor::Blue, ManaColor::Red),
        FlexibleManaSymbol::Hybrid(ManaColor::Black, ManaColor::Green),
        FlexibleManaSymbol::Hybrid(ManaColor::Red, ManaColor::White),
        FlexibleManaSymbol::Hybrid(ManaColor::Green, ManaColor::Blue),
    ]
}

pub fn symbols() -> (all: Vec<FlexibleManaSymbol>)
    ensures
        all@ == all_symbols(),
{
    let all = vec![
        FlexibleManaSymbol::TwoBrid(ManaColor::White),
        FlexibleManaSymbol::TwoBrid(ManaColor::Blue),
        FlexibleManaSymbol::TwoBrid(ManaColor::Black),
        FlexibleManaSymbol::TwoBrid(ManaColor::Red),
        FlexibleManaSymbol::TwoBrid(ManaColor::Green),
        FlexibleManaSymbol::Phyrexian(ManaColor::White),
        FlexibleManaSymbol::Phyrexian(ManaColor::Blue),
        FlexibleManaSymbol::Phyrexian(ManaColor::Black),
        FlexibleManaSymbol::Phyrexian(ManaColor::Red),
        FlexibleManaSymbol::Phyrexian(ManaColor::Green),
        FlexibleManaSymbol::Hybrid(ManaColor::White, ManaColor::Blue),
        FlexibleManaSymbol::Hybrid(ManaColor::Blue, ManaColor::Black),
        FlexibleManaSymbol::Hybrid(ManaColor::Black, ManaColor::Red),
        FlexibleManaSymbol::Hybrid(ManaColor::Red, ManaColor::Green),
        FlexibleManaSymbol::Hybrid(ManaColor::Green, ManaColor::White),
        FlexibleManaSymbol::Hybrid(ManaColor::White, ManaColor::Black),
        FlexibleManaSymbol::Hybrid(ManaColor::Blue, ManaColor::Red),
        FlexibleManaSymbol::Hybrid(ManaColor::Black, ManaColor::Green),
        FlexibleManaSymbol::Hybrid(ManaColor::Red, ManaColor::White),
        FlexibleManaSymbol::Hybrid(ManaColor::Green, ManaColor::Blue),
    ];
    proof {
        assert(all@ =~= all_symbols());
    }
    all
}

/// The slot a symbol's count is kept in, its place in the list; a symbol
/// outside the list (a colourless one, or an unlisted pair) has none.
pub open spec fn symbol_slot(symbol: FlexibleManaSymbol) -> Option<int> {
    match symbol {
        FlexibleManaSymbol::TwoBrid(color) => match color {
            ManaColor::White => Some(0),
            ManaColor::Blue => Some(1),
            ManaColor::Black => Some(2),
            ManaColor::Red => Some(3),
            ManaColor::Green => Some(4),
            ManaColor::Colorless => None,
        },
        FlexibleManaSymbol::Phyrexian(color) => match color {
            ManaColor::White => Some(5),
            ManaColor::Blue => Some(6),
            ManaColor::Black => Some(7),
            ManaColor::Red => Some(8),
            ManaColor::Green => Some(9),
            ManaColor::Colorless => None,
        },
        FlexibleManaSymbol::Hybrid(first, second) => match (first, second) {
            (ManaColor::White, ManaColor::Blue) => Some(10),
            (ManaColor::Blue, ManaColor::Black) => Some(11),
            (ManaColor::Black, ManaColor::Red) => Some(12),
            (ManaColor::Red, ManaColor::Green) => Some(13),
            (ManaColor::Green, ManaColor::White) => Some(14),
            (ManaColor::White, ManaColor::Black) => Some(15),
            (ManaColor::Blue, ManaColor::Red) => Some(16),
            (ManaColor::Black, ManaColor::Green) => Some(17),
            (ManaColor::Red, ManaColor::White) => Some(18),
            (ManaColor::Green, ManaColor::Blue) => Some(19),
            _ => None,
        },
    }
}

pub fn slot_of(symbol: FlexibleManaSymbol) -> (slot: Option<usize>)
    ensures
        match slot {
            Some(i) => symbol_slot(symbol) == Some(i as int) && i < 20,
            None => symbol_slot(symbol) is None,
        },
{
    match symbol {
        FlexibleManaSymbol::TwoBrid(color) => match color {
            ManaColor::White => Some(0),
            ManaColor::Blue => Some(1),
            ManaColor::Black => Some(2),
            ManaColor::Red => Some(3),
            ManaColor::Green => Some(4),
            ManaColor::Colorless => None,
        },
        FlexibleManaSymbol::Phyrexian(color) => match color {
            ManaColor::White => Some(5),
            ManaColor::Blue => Some(6),
            ManaColor::Black => Some(7),
            ManaColor::Red => Some(8),
            ManaColor::Green => Some(9),
            ManaColor::Colorless => None,
        },
        FlexibleManaSymbol::Hybrid(first, second) => match (first, second) {
            (ManaColor::White, ManaColor::Blue) => Some(10),
            (ManaColor::Blue, ManaColor::Black) => Some(11),
            (ManaColor::Black, ManaColor::Red) => Some(12),
            (ManaColor::Red, ManaColor::Green) => Some(13),
            (ManaColor::Green, ManaColor::White) => Some(14),
            (ManaColor::White, ManaColor::Black) => Some(15),
            (ManaColor::Blue, ManaColor::Red) => Some(16),
            (ManaColor::Black, ManaColor::Green) => Some(17),
            (ManaColor::Red, ManaColor::White) => Some(18),
            (ManaColor::Green, ManaColor::Blue) => Some(19),
            _ => None,
        },
    }
}

/// The number of generic mana that can pay the symbol instead.
pub open spec fn generic_alternative(symbol: FlexibleManaSymbol) -> Option<u16> {
    match symbol {
        FlexibleManaSymbol::TwoBrid(_) => Some(2),
        _ => None,
    }
}

/// The life that can pay the symbol instead.
pub open spec fn life_cost(symbol: FlexibleManaSymbol) -> Option<u16> {
    match symbol {
        FlexibleManaSymbol::Phyrexian(_) => Some(2),
        _ => None,
    }
}

/// A mana cost: fixed coloured and colourless mana, generic mana, and how
/// many of each flexible symbol, slot by slot in the order of the list.
#[derive(Clone, Copy, Debug)]
pub struct ManaCost {
    pub white: u16,
    pub blue: u16,
    pub black: u16,
    pub red: u16,
    pub green: u16,
    pub colorless: u16,
    pub generic: u16,
    pub flexible: [u16; 20],
}

/// A mana cost as a mathematical value.
#[verifier::ext_equal]
pub struct ManaCostView {
    pub white: u16,
    pub blue: u16,
    pub black: u16,
    pub red: u16,
    pub green: u16,
    pub colorless: u16,
    pub generic: u16,
    pub flexible: Seq<u16>,
}

impl View for ManaCost {
    type V = ManaCostView;

    open spec fn view(&self) -> ManaCostView {
        ManaCostView {
            white: self.white,
            blue: self.blue,
            black: self.black,
            red: self.red,
            green: self.green,
            colorless: self.colorless,
            generic: self.generic,
            flexible: self.flexible@,
        }
    }
}

impl ManaCostView {
    /// How many copies of the symbol the cost has.
    pub open spec fn count(self, symbol: FlexibleManaSymbol) -> u16 {
        match symbol_slot(symbol) {
            Some(i) => self.flexible[i],
            None => 0,
        }
    }

    /// The cost without `n` copies of the symbol, when it has that many.
    pub open spec fn without_flexible(self, symbol: FlexibleManaSymbol, n: u16) -> Option<ManaCostView> {
        match symbol_slot(symbol) {
            Some(i) => if self.flexible[i] >= n {
                Some(ManaCostView { flexible: self.flexible.update(i, (self.flexible[i] - n) as u16), ..self })
            } else {
                None
            },
            None => if n == 0 {
                Some(self)
            } else {
                None
            },
        }
    }

    /// The mana of one colour the cost asks for.
    pub open spec fn fixed(self, color: ManaColor) -> u16 {
        match color {
            ManaColor::White => self.white,
            ManaColor::Blue => self.blue,
            ManaColor::Black => self.black,
            ManaColor::Red => self.red,
            ManaColor::Green => self.green,
            ManaColor::Colorless => self.colorless,
        }
    }

    /// The cost asking for a different amount of one colour.
    pub open spec fn with_fixed(self, color: ManaColor, amount: u16) -> ManaCostView {
        match color {
            ManaColor::White => ManaCostView { white: amount, ..self },
            ManaColor::Blue => ManaCostView { blue: amount, ..self },
            ManaColor::Black => ManaCostView { black: amount, ..self },
            ManaColor::Red => ManaCostView { red: amount, ..self },
            ManaColor::Green => ManaCostView { green: amount, ..self },
            ManaColor::Colorless => ManaCostView { colorless: amount, ..self },
        }
    }

    /// The cost with `amount` more of a colour, unless the count overflows.
    pub open spec fn plus_fixed(self, color: ManaColor, amount: u16) -> Option<ManaCostView> {
        if self.fixed(color) + amount <= u16::MAX {
            Some(self.with_fixed(color, (self.fixed(color) + amount) as u16))
        } else {
            None
        }
    }

    /// The cost with `amount` more generic mana, unless it overflows.
    pub open spec fn plus_generic(self, amount: int) -> Option<ManaCostView> {
        if 0 <= amount && self.generic + amount <= u16::MAX {
            Some(ManaCostView { generic: (self.generic + amount) as u16, ..self })
        } else {
            None
        }
    }
}

/// Paying `count` copies of a symbol its alternative way.
#[derive(Clone, Copy, Debug, PartialEq, Eq, Structural)]
pub struct FlexibleManaPayment {
    pub symbol: FlexibleManaSymbol,
    pub count: u16,
}

/// One announced way to pay the flexible symbols of a cost.
#[derive(Clone, Debug)]
pub struct ManaPaymentChoice {
    pub alternatives: Vec<FlexibleManaPayment>,
}

impl View for ManaPaymentChoice {
    type V = Seq<FlexibleManaPayment>;

    open spec fn view(&self) -> Seq<FlexibleManaPayment> {
        self.alternatives@
    }
}

pub open spec fn choice_views(choices: Seq<ManaPaymentChoice>) -> Seq<Seq<FlexibleManaPayment>> {
    choices.map_values(|choice: ManaPaymentChoice| choice@)
}

/// Whether the symbol has an announced alternative at all.
pub open spec fn has_alternative(symbol: FlexibleManaSymbol) -> bool {
    generic_alternative(symbol) is Some || life_cost(symbol) is Some
}

/// Every announced configuration for the symbols in `symbols`, after the
/// payments already `selected`: for each symbol the cost holds and that has
/// an alternative, 0 up to all of its copies paid the alternative way.
pub open spec fn choices_from(
    cost: ManaCostView,
    symbols: Seq<FlexibleManaSymbol>,
    selected: Seq<FlexibleManaPayment>,
) -> Seq<Seq<FlexibleManaPayment>>
    decreases symbols.len(), 1int, 0int,
{
    if symbols.len() == 0 {
        seq![selected]
    } else {
        let symbol = symbols[0];
        let count = cost.count(symbol);
        if count == 0 || !has_alternative(symbol) {
            choices_from(cost, symbols.drop_first(), selected)
        } else {
            choices_over(cost, symbols, selected, count as int + 1)
        }
    }
}

/// The configurations with the first symbol paid its alternative way for
/// 0 up to `n - 1` copies.
pub open spec fn choices_over(
    cost: ManaCostView,
    symbols: Seq<FlexibleManaSymbol>,
    selected: Seq<FlexibleManaPayment>,
    n: int,
) -> Seq<Seq<FlexibleManaPayment>>
    decreases symbols.len(), 0int, n,
{
    if n <= 0 || symbols.len() == 0 {
        Seq::empty()
    } else {
        let alternative = n - 1;
        let next = if alternative > 0 {
            selected.push(FlexibleManaPayment { symbol: symbols[0], count: alternative as u16 })
        } else {
            selected
        };
        choices_over(cost, symbols, selected, n - 1) + choices_from(cost, symbols.drop_first(), next)
    }
}

/// The life a choice costs, unless it overflows or names a symbol with no
/// alternative; payments before the first `k` count.
pub open spec fn life_upto(alternatives: Seq<FlexibleManaPayment>, k: int) -> Option<u16>
    decreases k,
{
    if k <= 0 {
        Some(0)
    } else {
        match life_upto(alternatives, k - 1) {
            None => None,
            Some(total) => {
                let payment = alternatives[k - 1];
                match life_cost(payment.symbol) {
                    Some(amount) => if amount * payment.count <= u16::MAX && total + amount * payment.count
                        <= u16::MAX {
                        Some((total + amount * payment.count) as u16)
                    } else {
                        None
                    },
                    None => if generic_alternative(payment.symbol) is Some {
                        Some(total)
                    } else {
                        None
                    },
                }
            },
        }
    }
}

/// How many Phyrexian symbols the choice pays with life, unless it
/// overflows or names a symbol with no alternative.
pub open spec fn phyrexian_upto(alternatives: Seq<FlexibleManaPayment>, k: int) -> Option<u16>
    decreases k,
{
    if k <= 0 {
        Some(0)
    } else {
        match phyrexian_upto(alternatives, k - 1) {
            None => None,
            Some(total) => {
                let payment = alternatives[k - 1];
                if life_cost(payment.symbol) is Some {
                    if total + payment.count <= u16::MAX {
                        Some((total + payment.count) as u16)
                    } else {
                        None
                    }
                } else if generic_alternative(payment.symbol) is Some {
                    Some(total)
                } else {
                    None
                }
            },
        }
    }
}

/// The payment at `i` pays at least one copy, of a symbol with an
/// alternative, not named by an earlier payment.
pub open spec fn payment_ok(alternatives: Seq<FlexibleManaPayment>, i: int) -> bool {
    &&& alternatives[i].count > 0
    &&& has_alternative(alternatives[i].symbol)
    &&& forall|j: int| 0 <= j < i ==> alternatives[j].symbol != alternatives[i].symbol
}

/// A choice is well formed when every payment is.
pub open spec fn choice_well_formed(alternatives: Seq<FlexibleManaPayment>) -> bool {
    forall|i: int| 0 <= i < alternatives.len() ==> #[trigger] payment_ok(alternatives, i)
}

/// How many copies of the symbol the choice pays the alternative way.
pub open spec fn selected_count(alternatives: Seq<FlexibleManaPayment>, symbol: FlexibleManaSymbol) -> u16
    decreases alternatives.len(),
{
    if alternatives.len() == 0 {
        0
    } else if alternatives[0].symbol == symbol {
        alternatives[0].count
    } else {
        selected_count(alternatives.drop_first(), symbol)
    }
}

/// Locks one symbol: the selected copies are paid the alternative way and
/// the rest become the symbol's colour (or, with `any_color`, generic mana).
pub open spec fn lock_symbol(
    cost: ManaCostView,
    life: u16,
    symbol: FlexibleManaSymbol,
    selected: u16,
    any_color: bool,
) -> Option<(ManaCostView, u16)> {
    let printed = cost.count(symbol);
    if selected > printed {
        None
    } else {
        match symbol {
            FlexibleManaSymbol::TwoBrid(color) => match cost.without_flexible(symbol, printed) {
                None => None,
                Some(removed) => if 2 * selected > u16::MAX {
                    None
                } else {
                    match removed.plus_generic(2 * selected) {
                        None => None,
                        Some(paid) => {
                            let colored = (printed - selected) as u16;
                            if any_color {
                                match paid.plus_generic(colored as int) {
                                    Some(done) => Some((done, life)),
                                    None => None,
                                }
                            } else {
                                match paid.plus_fixed(color, colored) {
                                    Some(done) => Some((done, life)),
                                    None => None,
                                }
                            }
                        },
                    }
                },
            },
            FlexibleManaSymbol::Phyrexian(_) => match cost.without_flexible(symbol, selected) {
                None => None,
                Some(removed) => if 2 * selected > u16::MAX || life + 2 * selected > u16::MAX {
                    None
                } else {
                    let paid_life = (life + 2 * selected) as u16;
                    if any_color {
                        let colored = (printed - selected) as u16;
                        match removed.without_flexible(symbol, colored) {
                            None => None,
                            Some(emptied) => match emptied.plus_generic(colored as int) {
                                Some(done) => Some((done, paid_life)),
                                None => None,
                            },
                        }
                    } else {
                        Some((removed, paid_life))
                    }
                },
            },
            FlexibleManaSymbol::Hybrid(_, _) => if selected != 0 {
                None
            } else {
                Some((cost, life))
            },
        }
    }
}

/// The cost and life after locking the first `k` symbols of the list.
pub open spec fn lock_upto(
    cost: ManaCostView,
    alternatives: Seq<FlexibleManaPayment>,
    any_color: bool,
    k: int,
) -> Option<(ManaCostView, u16)>
    decreases k,
{
    if k <= 0 {
        Some((cost, 0))
    } else {
        match lock_upto(cost, alternatives, any_color, k - 1) {
            None => None,
            Some((locked, life)) => lock_symbol(
                locked,
                life,
                all_symbols()[k - 1],
                selected_count(alternatives, all_symbols()[k - 1]),
                any_color,
            ),
        }
    }
}

/// The locked mana cost and life bill of a choice, when it is well formed
/// and nothing overflows.
pub open spec fn spec_locked_mana_payment(
    cost: ManaCostView,
    alternatives: Seq<FlexibleManaPayment>,
    any_color: bool,
) -> Option<(ManaCostView, u16)> {
    if choice_well_formed(alternatives) {
        lock_upto(cost, alternatives, any_color, 20)
    } else {
        None
    }
}


impl ManaCost {
    /// How many copies of the symbol the cost has.
    pub fn flexible_count(&self, symbol: FlexibleManaSymbol) -> (count: u16)
        ensures
            count == self@.count(symbol),
    {
        match slot_of(symbol) {
            Some(i) => self.flexible[i],
            None => 0,
        }
    }

    /// The cost without `n` copies of the symbol, when it has that many.
    pub fn without_flexible(self, symbol: FlexibleManaSymbol, n: u16) -> (rest: Option<ManaCost>)
        ensures
            match rest {
                Some(rest) => self@.without_flexible(symbol, n) == Some(rest@),
                None => self@.without_flexible(symbol, n) is None,
            },
    {
        match slot_of(symbol) {
            Some(i) => {
                if self.flexible[i] >= n {
                    let mut rest = self;
                    rest.flexible[i] = self.flexible[i] - n;
                    proof {
                        assert(rest@ =~= (ManaCostView {
                            flexible: self@.flexible.update(i as int, (self@.flexible[i as int] - n) as u16),
                            ..self@
                        }));
                    }
                    Some(rest)
                } else {
                    None
                }
            },
            None => if n == 0 {
                Some(self)
            } else {
                None
            },
        }
    }

    /// The cost with `amount` more generic mana, unless it overflows.
    pub fn plus_generic(self, amount: u64) -> (more: Option<ManaCost>)
        ensures
            match more {
                Some(more) => self@.plus_generic(amount as int) == Some(more@),
                None => self@.plus_generic(amount as int) is None,
            },
    {
        if amount <= 65535 && (self.generic as u64) + amount <= 65535 {
            let mut more = self;
            more.generic = ((self.generic as u64) + amount) as u16;
            proof {
                assert(more@ =~= (ManaCostView { generic: (self@.generic + amount) as u16, ..self@ }));
            }
            Some(more)
        } else {
            None
        }
    }
}

/// Adds `amount` mana of one colour to the cost, unless the count
/// overflows; then the cost is left alone.
pub fn add_fixed_mana(cost: &mut ManaCost, color: ManaColor, amount: u16) -> (added: Option<()>)
    ensures
        match added {
            Some(()) => old(cost)@.plus_fixed(color, amount) == Some(final(cost)@),
            None => old(cost)@.plus_fixed(color, amount) is None && final(cost)@ == old(cost)@,
        },
{
    let current: u16 = match color {
        ManaColor::White => cost.white,
        ManaColor::Blue => cost.blue,
        ManaColor::Black => cost.black,
        ManaColor::Red => cost.red,
        ManaColor::Green => cost.green,
        ManaColor::Colorless => cost.colorless,
    };
    let total = match current.checked_add(amount) {
        Some(total) => total,
        None => return None,
    };
    match color {
        ManaColor::White => cost.white = total,
        ManaColor::Blue => cost.blue = total,
        ManaColor::Black => cost.black = total,
        ManaColor::Red => cost.red = total,
        ManaColor::Green => cost.green = total,
        ManaColor::Colorless => cost.colorless = total,
    }
    proof {
        assert(cost@ =~= old(cost)@.with_fixed(color, total));
    }
    Some(())
}

fn has_alternative_exec(symbol: FlexibleManaSymbol) -> (has: bool)
    ensures
        has == has_alternative(symbol),
{
    match symbol {
        FlexibleManaSymbol::TwoBrid(_) => true,
        FlexibleManaSymbol::Phyrexian(_) => true,
        FlexibleManaSymbol::Hybrid(_, _) => false,
    }
}

fn visit_symbols(
    cost: &ManaCost,
    all: &Vec<FlexibleManaSymbol>,
    start: usize,
    selected: &mut Vec<FlexibleManaPayment>,
    choices: &mut Vec<ManaPaymentChoice>,
)
    requires
        start <= all@.len(),
    ensures
        final(selected)@ == old(selected)@,
        choice_views(final(choices)@) == choice_views(old(choices)@) + choices_from(
            cost@,
            all@.subrange(start as int, all@.len() as int),
            old(selected)@,
        ),
    decreases all@.len() - start,
{
    let ghost symbols = all@.subrange(start as int, all@.len() as int);
    if start == all.len() {
        let ghost before = choices@;
        let choice = ManaPaymentChoice { alternatives: selected.clone() };
        choices.push(choice);
        proof {
            assert(choice@ == selected@);
            assert(choice_views(choices@) =~= choice_views(before) + seq![selected@]);
        }
        return;
    }
    let symbol = all[start];
    proof {
        assert(symbols[0] == symbol);
        assert(symbols.drop_first() =~= all@.subrange(start + 1, all@.len() as int));
    }
    let count = cost.flexible_count(symbol);
    if count == 0 || !has_alternative_exec(symbol) {
        visit_symbols(cost, all, start + 1, selected, choices);
        return;
    }
    let ghost base = choice_views(choices@);
    let ghost chosen = selected@;
    let mut alternative: u32 = 0;
    while alternative <= count as u32
        invariant
            start < all.len(),
            symbols == all@.subrange(start as int, all@.len() as int),
            symbols[0] == symbol,
            symbols.drop_first() == all@.subrange(start + 1, all@.len() as int),
            alternative <= count as u32 + 1,
            selected@ == chosen,
            choice_views(choices@) == base + choices_over(cost@, symbols, chosen, alternative as int),
        decreases count as u32 + 1 - alternative,
    {
        if alternative > 0 {
            selected.push(FlexibleManaPayment { symbol, count: alternative as u16 });
        }
        let ghost next = selected@;
        visit_symbols(cost, all, start + 1, selected, choices);
        if alternative > 0 {
            selected.pop();
            proof {
                assert(selected@ =~= chosen);
            }
        }
        proof {
            if alternative > 0 {
                assert(next == chosen.push(FlexibleManaPayment { symbol: symbols[0], count: alternative as u16 }));
            }
            assert(choice_views(choices@) =~= base + choices_over(cost@, symbols, chosen, alternative + 1));
        }
        alternative = alternative + 1;
    }
}

pub open spec fn locked_view(locked: Option<(ManaCost, u16)>) -> Option<(ManaCostView, u16)> {
    match locked {
        Some((cost, life)) => Some((cost@, life)),
        None => None,
    }
}

fn lock_symbol_exec(cost: ManaCost, life: u16, symbol: FlexibleManaSymbol, selected: u16, any_color: bool) -> (locked:
    Option<(ManaCost, u16)>)
    ensures
        locked_view(locked) == lock_symbol(cost@, life, symbol, selected, any_color),
{
    let printed = cost.flexible_count(symbol);
    if selected > printed {
        return None;
    }
    match symbol {
        FlexibleManaSymbol::TwoBrid(color) => {
            let removed = match cost.without_flexible(symbol, printed) {
                Some(removed) => removed,
                None => return None,
            };
            if 2 * (selected as u32) > 65535 {
                return None;
            }
            let paid = match removed.plus_generic(2 * (selected as u64)) {
                Some(paid) => paid,
                None => return None,
            };
            let colored = printed - selected;
            if any_color {
                match paid.plus_generic(colored as u64) {
                    Some(done) => Some((done, life)),
                    None => None,
                }
            } else {
                let mut done = paid;
                match add_fixed_mana(&mut done, color, colored) {
                    Some(()) => Some((done, life)),
                    None => None,
                }
            }
        },
        FlexibleManaSymbol::Phyrexian(_) => {
            let removed = match cost.without_flexible(symbol, selected) {
                Some(removed) => removed,
                None => return None,
            };
            if 2 * (selected as u32) > 65535 || (life as u32) + 2 * (selected as u32) > 65535 {
                return None;
            }
            let paid_life = ((life as u32) + 2 * (selected as u32)) as u16;
            if any_color {
                let colored = printed - selected;
                match removed.without_flexible(symbol, colored) {
                    Some(emptied) => match emptied.plus_generic(colored as u64) {
                        Some(done) => Some((done, paid_life)),
                        None => None,
                    },
                    None => None,
                }
            } else {
                Some((removed, paid_life))
            }
        },
        FlexibleManaSymbol::Hybrid(_, _) => if selected != 0 {
            None
        } else {
            Some((cost, life))
        },
    }
}

fn selected_count_exec(alternatives: &Vec<FlexibleManaPayment>, symbol: FlexibleManaSymbol) -> (count: u16)
    ensures
        count == selected_count(alternatives@, symbol),
{
    let mut i: usize = 0;
    proof {
        assert(alternatives@.subrange(0, alternatives@.len() as int) =~= alternatives@);
    }
    while i < alternatives.len()
        invariant
            i <= alternatives@.len(),
            selected_count(alternatives@, symbol) == selected_count(
                alternatives@.subrange(i as int, alternatives@.len() as int),
                symbol,
            ),
        decreases alternatives@.len() - i,
    {
        proof {
            assert(alternatives@.subrange(i as int, alternatives@.len() as int).drop_first()
                =~= alternatives@.subrange(i + 1, alternatives@.len() as int));
            assert(alternatives@.subrange(i as int, alternatives@.len() as int)[0] == alternatives@[i as int]);
        }
        if alternatives[i].symbol == symbol {
            return alternatives[i].count;
        }
        i = i + 1;
    }
    proof {
        assert(alternatives@.subrange(i as int, alternatives@.len() as int) =~= Seq::<FlexibleManaPayment>::empty());
    }
    0
}

fn contains_symbol(symbols: &Vec<FlexibleManaSymbol>, symbol: FlexibleManaSymbol) -> (found: bool)
    ensures
        found == symbols@.contains(symbol),
{
    let mut i: usize = 0;
    while i < symbols.len()
        invariant
            i <= symbols@.len(),
            forall|j: int| 0 <= j < i ==> symbols@[j] != symbol,
        decreases symbols@.len() - i,
    {
        if symbols[i] == symbol {
            return true;
        }
        i = i + 1;
    }
    false
}

fn choice_is_well_formed(alternatives: &Vec<FlexibleManaPayment>) -> (well_formed: bool)
    ensures
        well_formed == choice_well_formed(alternatives@),
{
    let mut seen: Vec<FlexibleManaSymbol> = Vec::new();
    let mut i: usize = 0;
    while i < alternatives.len()
        invariant
            i <= alternatives@.len(),
            seen@.len() == i,
            forall|k: int| 0 <= k < i ==> seen@[k] == alternatives@[k].symbol,
            forall|k: int| 0 <= k < i ==> #[trigger] payment_ok(alternatives@, k),
        decreases alternatives@.len() - i,
    {
        let payment = alternatives[i];
        let repeated = contains_symbol(&seen, payment.symbol);
        if payment.count == 0 || repeated || !has_alternative_exec(payment.symbol) {
            proof {
                if repeated {
                    let j = choose|j: int| 0 <= j < seen@.len() && seen@[j] == payment.symbol;
                    assert(alternatives@[j].symbol == alternatives@[i as int].symbol);
                }
                assert(!payment_ok(alternatives@, i as int));
            }
            return false;
        }
        proof {
            assert forall|j: int| 0 <= j < i implies alternatives@[j].symbol != alternatives@[i as int].symbol by {
                assert(seen@[j] == alternatives@[j].symbol);
            }
            assert(payment_ok(alternatives@, i as int));
        }
        seen.push(payment.symbol);
        i = i + 1;
    }
    true
}

impl crate::state::Game {
    /// Every announced way to pay the cost's flexible symbols: for each
    /// symbol with an alternative, from none up to every copy paid the
    /// alternative way.
    pub fn mana_payment_choices(cost: ManaCost) -> (choices: Vec<ManaPaymentChoice>)
        ensures
            choice_views(choices@) == choices_from(cost@, all_symbols(), Seq::empty()),
    {
        let all = symbols();
        let mut selected: Vec<FlexibleManaPayment> = Vec::new();
        let mut choices: Vec<ManaPaymentChoice> = Vec::new();
        visit_symbols(&cost, &all, 0, &mut selected, &mut choices);
        proof {
            assert(all@.subrange(0, all@.len() as int) =~= all_symbols());
            assert(choice_views(Seq::<ManaPaymentChoice>::empty()) =~= Seq::empty());
            assert(choice_views(choices@) =~= choices_from(cost@, all_symbols(), Seq::empty()));
        }
        choices
    }

    /// Turns an announced choice into the locked mana cost and the life it
    /// costs: the selected copies are paid the alternative way, the rest
    /// become their colour (or generic mana with `any_color`). An ill-formed
    /// choice, or a count that would overflow, gives nothing.
    pub fn locked_mana_payment(cost: ManaCost, choice: &ManaPaymentChoice, any_color: bool) -> (locked: Option<
        (ManaCost, u16),
    >)
        ensures
            locked_view(locked) == spec_locked_mana_payment(cost@, choice@, any_color),
    {
        if !choice_is_well_formed(&choice.alternatives) {
            return None;
        }
        let all = symbols();
        let mut state: Option<(ManaCost, u16)> = Some((cost, 0));
        let mut k: usize = 0;
        while k < 20
            invariant
                k <= 20,
                all@ == all_symbols(),
                locked_view(state) == lock_upto(cost@, choice@, any_color, k as int),
            decreases 20 - k,
        {
            let symbol = all[k];
            let selected = selected_count_exec(&choice.alternatives, symbol);
            state = match state {
                Some((current, life)) => lock_symbol_exec(current, life, symbol, selected, any_color),
                None => None,
            };
            k = k + 1;
        }
        state
    }

    /// The life a choice costs, or nothing when it overflows or names a
    /// symbol with no alternative.
    pub fn mana_payment_life(choice: &ManaPaymentChoice) -> (life: Option<u16>)
        ensures
            life == life_upto(choice@, choice@.len() as int),
    {
        let mut total: Option<u16> = Some(0);
        let mut i: usize = 0;
        while i < choice.alternatives.len()
            invariant
                i <= choice@.len(),
                total == life_upto(choice@, i as int),
            decreases choice@.len() - i,
        {
            let payment = choice.alternatives[i];
            total = match total {
                None => None,
                Some(sum) => match payment.symbol {
                    FlexibleManaSymbol::Phyrexian(_) => if 2 * (payment.count as u32) <= 65535 && (sum as u32) + 2
                        * (payment.count as u32) <= 65535 {
                        Some(((sum as u32) + 2 * (payment.count as u32)) as u16)
                    } else {
                        None
                    },
                    FlexibleManaSymbol::TwoBrid(_) => Some(sum),
                    FlexibleManaSymbol::Hybrid(_, _) => None,
                },
            };
            i = i + 1;
        }
        total
    }

    /// How many Phyrexian symbols the choice pays with life; each lowers a
    /// compleated permanent's starting loyalty.
    pub fn phyrexian_symbols_paid_with_life(choice: &ManaPaymentChoice) -> (count: Option<u16>)
        ensures
            count == phyrexian_upto(choice@, choice@.len() as int),
    {
        let mut total: Option<u16> = Some(0);
        let mut i: usize = 0;
        while i < choice.alternatives.len()
            invariant
                i <= choice@.len(),
                total == phyrexian_upto(choice@, i as int),
            decreases choice@.len() - i,
        {
            let payment = choice.alternatives[i];
            total = match total {
                None => None,
                Some(sum) => match payment.symbol {
                    FlexibleManaSymbol::Phyrexian(_) => sum.checked_add(payment.count),
                    FlexibleManaSymbol::TwoBrid(_) => Some(sum),
                    FlexibleManaSymbol::Hybrid(_, _) => None,
                },
            };
            i = i + 1;
        }
        total
    }
}

} // verus!
