//! Generic mana from lands: each untapped land a player controls makes one
//! mana, and a generic cost is paid by tapping that many of them.
use vstd::prelude::*;

use crate::card::{card_definition, catalog, cards, ManaColor};
use crate::ids::CardDefinitionId;
use crate::ids::{GameObjectId, PlayerId};
use crate::state::{Game, GameView, Permanent};

verus! {

/// An untapped land the player controls: a source of one mana.
pub open spec fn is_untapped_source(player: PlayerId, permanent: Permanent) -> bool {
    &&& permanent.controller == player
    &&& !permanent.tapped
    &&& catalog(permanent.card.definition) matches Some(definition) && definition.types.land
}

pub open spec fn untapped_source(player: PlayerId) -> spec_fn(Permanent) -> Option<GameObjectId> {
    |permanent: Permanent|
        if is_untapped_source(player, permanent) {
            Some(permanent.card.id)
        } else {
            None
        }
}

/// The permanents with the first `amount` of the player's untapped sources
/// tapped, in battlefield order.
pub open spec fn tapped_for(player: PlayerId, permanents: Seq<Permanent>, amount: int) -> Seq<Permanent>
    decreases permanents.len(),
{
    if permanents.len() == 0 {
        Seq::empty()
    } else {
        let first = permanents[0];
        if amount > 0 && is_untapped_source(player, first) {
            seq![Permanent { tapped: true, ..first }] + tapped_for(player, permanents.drop_first(), amount - 1)
        } else {
            seq![first] + tapped_for(player, permanents.drop_first(), amount)
        }
    }
}

impl GameView {
    /// How much generic mana the player can make now.
    pub open spec fn available_mana(self, player: PlayerId) -> nat {
        self.battlefield.filter_map(untapped_source(player)).len()
    }

    /// The player pays a generic cost by tapping that many of their
    /// untapped lands, the first ones on the battlefield first.
    pub open spec fn spec_pay_generic(self, player: PlayerId, amount: int) -> GameView {
        self.with_battlefield(tapped_for(player, self.battlefield, amount))
    }
}

fn is_untapped_source_exec(player: PlayerId, permanent: &Permanent) -> (source: bool)
    ensures
        source == is_untapped_source(player, *permanent),
{
    permanent.controller == player && !permanent.tapped && match card_definition(permanent.card.definition) {
        Some(definition) => definition.types.land,
        None => false,
    }
}

impl Game {
    /// How much generic mana the player can make now.
    pub fn available_mana(&self, player: PlayerId) -> (amount: usize)
        ensures
            amount == self@.available_mana(player),
    {
        let mut count: usize = 0;
        let mut i: usize = 0;
        while i < self.battlefield.len()
            invariant
                i <= self.battlefield@.len(),
                count == self.battlefield@.take(i as int).filter_map(untapped_source(player)).len(),
                count <= i,
            decreases self.battlefield@.len() - i,
        {
            proof {
                self.battlefield@.lemma_filter_map_take_succ(untapped_source(player), i as int);
            }
            if is_untapped_source_exec(player, &self.battlefield[i]) {
                count = count + 1;
            }
            i = i + 1;
        }
        proof {
            assert(self.battlefield@.take(i as int) =~= self.battlefield@);
        }
        count
    }

    /// Pays a generic cost by tapping the player's untapped lands, the first
    /// ones on the battlefield first.
    pub fn pay_generic(&mut self, player: PlayerId, amount: u16)
        ensures
            final(self)@ == old(self)@.spec_pay_generic(player, amount as int),
    {
        let mut field: Vec<Permanent> = Vec::new();
        std::mem::swap(&mut field, &mut self.battlefield);
        let ghost initial = field@;
        let mut paid: Vec<Permanent> = Vec::new();
        let mut remaining: u16 = amount;
        let mut i: usize = 0;
        proof {
            assert(initial.subrange(0, initial.len() as int) =~= initial);
        }
        while i < field.len()
            invariant
                field@ == initial,
                i <= initial.len(),
                remaining <= amount,
                paid@ + tapped_for(player, initial.subrange(i as int, initial.len() as int), remaining as int)
                    == tapped_for(player, initial, amount as int),
            decreases initial.len() - i,
        {
            let permanent = field[i];
            let ghost rest = initial.subrange(i as int, initial.len() as int);
            proof {
                assert(rest[0] == permanent);
                assert(rest.drop_first() =~= initial.subrange(i + 1, initial.len() as int));
            }
            if remaining > 0 && is_untapped_source_exec(player, &permanent) {
                let mut tapped = permanent;
                tapped.tapped = true;
                let ghost before = paid@;
                paid.push(tapped);
                remaining = remaining - 1;
                proof {
                    assert(paid@ =~= before + seq![tapped]);
                    assert(before + (seq![tapped] + tapped_for(
                        player,
                        initial.subrange(i + 1, initial.len() as int),
                        remaining as int,
                    )) =~= paid@ + tapped_for(player, initial.subrange(i + 1, initial.len() as int), remaining as int));
                }
            } else {
                let ghost before = paid@;
                paid.push(permanent);
                proof {
                    assert(paid@ =~= before + seq![permanent]);
                    assert(before + (seq![permanent] + tapped_for(
                        player,
                        initial.subrange(i + 1, initial.len() as int),
                        remaining as int,
                    )) =~= paid@ + tapped_for(player, initial.subrange(i + 1, initial.len() as int), remaining as int));
                }
            }
            i = i + 1;
        }
        proof {
            assert(initial.subrange(i as int, initial.len() as int) =~= Seq::<Permanent>::empty());
            assert(paid@ + Seq::<Permanent>::empty() =~= paid@);
        }
        self.battlefield = paid;
    }
}


/// One way a permanent can make mana: tapping it for one mana of a colour.
#[derive(Clone, Copy, Debug, PartialEq, Eq, Structural)]
pub struct ManaAbilityActivation {
    pub source: GameObjectId,
    pub produces: ManaColor,
}

/// The mana a basic land taps for.
pub open spec fn land_mana(definition: CardDefinitionId) -> Option<ManaColor> {
    if definition == cards::MOUNTAIN {
        Some(ManaColor::Red)
    } else if definition == cards::PLAINS {
        Some(ManaColor::White)
    } else {
        None
    }
}

impl Game {
    /// The permanent's mana abilities.
    pub fn mana_ability_activations(&self, permanent: &Permanent) -> (activations: Vec<ManaAbilityActivation>)
        ensures
            activations@ == match land_mana(permanent.card.definition) {
                Some(color) => seq![ManaAbilityActivation { source: permanent.card.id, produces: color }],
                None => Seq::empty(),
            },
    {
        let mut activations: Vec<ManaAbilityActivation> = Vec::new();
        let definition = permanent.card.definition;
        if definition == cards::MOUNTAIN {
            activations.push(ManaAbilityActivation { source: permanent.card.id, produces: ManaColor::Red });
        } else if definition == cards::PLAINS {
            activations.push(ManaAbilityActivation { source: permanent.card.id, produces: ManaColor::White });
        }
        proof {
            assert(activations@ =~= match land_mana(permanent.card.definition) {
                Some(color) => seq![ManaAbilityActivation { source: permanent.card.id, produces: color }],
                None => Seq::empty(),
            });
        }
        activations
    }
}

} // verus!
