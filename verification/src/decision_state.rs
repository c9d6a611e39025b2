//! Bookkeeping for multi-step decisions.
use vstd::prelude::*;

verus! {

/// The phases in which Balance evens out what the players have: lands, then
/// cards in hand, then creatures.
#[derive(Clone, Copy, Debug, PartialEq, Eq, Structural)]
pub enum BalancePhase {
    Lands,
    Hands,
    Creatures,
}

impl BalancePhase {
    pub open spec fn spec_next(self) -> Option<BalancePhase> {
        match self {
            BalancePhase::Lands => Some(BalancePhase::Hands),
            BalancePhase::Hands => Some(BalancePhase::Creatures),
            BalancePhase::Creatures => None,
        }
    }

    /// The phase after this one, if any.
    pub fn next(self) -> (next: Option<BalancePhase>)
        ensures
            next == self.spec_next(),
    {
        match self {
            BalancePhase::Lands => Some(BalancePhase::Hands),
            BalancePhase::Hands => Some(BalancePhase::Creatures),
            BalancePhase::Creatures => None,
        }
    }
}

} // verus!
