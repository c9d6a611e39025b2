//! Attacking bands.
//!
//! CR 702.21b lets the attacking player declare a band: one or more attacking
//! creatures with banding plus up to one without. Everything the band does
//! afterwards -- being blocked as a group, and handing its controller the
//! blockers' damage assignment -- reads the membership recorded here.
//!
//! Bands are built a pair at a time: merging two groups at a time reaches
//! every band through actions a legal-action list can hold.
use vstd::prelude::*;

use crate::card::{catalog, BandingQuality, KeywordAbility};
use crate::ids::{GameObjectId, PlayerId};
use crate::state::{
    first_match, is_first_match, lemma_first_match_absent, lemma_first_match_found, permanent_with,
    actions_view, Action, ActionView, Game, GameView, Permanent,
};

verus! {

/// An attacking permanent with this id.
pub open spec fn attacking_with(id: GameObjectId) -> spec_fn(Permanent) -> bool {
    |permanent: Permanent| permanent.card.id == id && permanent.attacking
}

/// The id of a permanent attacking in this band.
pub open spec fn band_member(band: u32) -> spec_fn(Permanent) -> Option<GameObjectId> {
    |permanent: Permanent|
        if permanent.attacking && permanent.attacking_band == Some(band) {
            Some(permanent.card.id)
        } else {
            None
        }
}

/// The id of an attacking permanent this player controls.
pub open spec fn attacker_of(player: PlayerId) -> spec_fn(Permanent) -> Option<GameObjectId> {
    |permanent: Permanent|
        if permanent.attacking && permanent.controller == player {
            Some(permanent.card.id)
        } else {
            None
        }
}

/// The highest band index any permanent carries.
pub open spec fn highest_band(battlefield: Seq<Permanent>) -> Option<u32>
    decreases battlefield.len(),
{
    if battlefield.len() == 0 {
        None
    } else {
        let rest = highest_band(battlefield.drop_last());
        match battlefield.last().attacking_band {
            Some(band) => match rest {
                Some(highest) => if band > highest {
                    Some(band)
                } else {
                    Some(highest)
                },
                None => Some(band),
            },
            None => rest,
        }
    }
}

/// The index a newly formed band receives: past every index in use.
pub open spec fn next_band(battlefield: Seq<Permanent>) -> u32 {
    match highest_band(battlefield) {
        Some(highest) => if highest == u32::MAX {
            u32::MAX
        } else {
            (highest + 1) as u32
        },
        None => 0,
    }
}

impl Game {
    /// The permanent attacking with this id.
    pub fn attacking_permanent(&self, attacker: GameObjectId) -> (found: Option<&Permanent>)
        ensures
            match (found, self@.spec_attacking_permanent(attacker)) {
                (Some(permanent), Some(expected)) => *permanent == expected,
                (None, None) => true,
                _ => false,
            },
    {
        let mut i: usize = 0;
        while i < self.battlefield.len()
            invariant
                i <= self.battlefield@.len(),
                forall|j: int| 0 <= j < i ==> !attacking_with(attacker)(self.battlefield@[j]),
            decreases self.battlefield@.len() - i,
        {
            if self.battlefield[i].card.id == attacker && self.battlefield[i].attacking {
                proof {
                    lemma_first_match_found(self.battlefield@, attacking_with(attacker), i as int);
                }
                return Some(&self.battlefield[i]);
            }
            i = i + 1;
        }
        proof {
            lemma_first_match_absent(self.battlefield@, attacking_with(attacker));
        }
        None
    }

    /// Every creature banded with this one, itself included.
    pub fn band_group(&self, attacker: GameObjectId) -> (group: Vec<GameObjectId>)
        ensures
            group@ == self@.spec_band_group(attacker),
    {
        let band = match self.attacking_permanent(attacker) {
            None => return Vec::new(),
            Some(permanent) => match permanent.attacking_band {
                None => {
                    let mut group = Vec::new();
                    group.push(attacker);
                    return group;
                },
                Some(band) => band,
            },
        };
        let mut group = Vec::new();
        let mut i: usize = 0;
        while i < self.battlefield.len()
            invariant
                i <= self.battlefield@.len(),
                group@ == self.battlefield@.take(i as int).filter_map(band_member(band)),
            decreases self.battlefield@.len() - i,
        {
            proof {
                self.battlefield@.lemma_filter_map_take_succ(band_member(band), i as int);
            }
            if self.battlefield[i].attacking && self.battlefield[i].attacking_band == Some(band) {
                group.push(self.battlefield[i].card.id);
            }
            i = i + 1;
        }
        proof {
            assert(self.battlefield@.take(i as int) =~= self.battlefield@);
        }
        group
    }

    /// Whether these two creatures are in the same band. Two lone attackers
    /// are not: neither is in a band at all.
    pub fn share_a_band(&self, one: GameObjectId, other: GameObjectId) -> (shared: bool)
        ensures
            shared == self@.spec_share_a_band(one, other),
    {
        match self.attacking_permanent(one) {
            Some(first) => match first.attacking_band {
                Some(band) => match self.attacking_permanent(other) {
                    Some(second) => second.attacking_band == Some(band),
                    None => false,
                },
                None => false,
            },
            None => false,
        }
    }

    pub fn has_banding(&self, attacker: GameObjectId) -> (has: bool)
        ensures
            has == self@.spec_has_banding(attacker),
    {
        match self.attacking_permanent(attacker) {
            Some(permanent) => self.permanent_has_executable_keyword(
                permanent,
                KeywordAbility::Banding,
            ),
            None => false,
        }
    }

    /// Whether this creature carries "bands with other" naming this quality.
    pub fn has_bands_with_other(&self, creature: GameObjectId, quality: BandingQuality) -> (has:
        bool)
        ensures
            has == self@.spec_has_bands_with_other(creature, quality),
    {
        match self.permanent_position(creature) {
            Some(index) => self.permanent_has_executable_keyword(
                &self.battlefield[index],
                KeywordAbility::BandsWithOther(quality),
            ),
            None => false,
        }
    }

    /// Whether this creature is the kind of thing a band on this quality is
    /// made of.
    pub fn matches_banding_quality(&self, creature: GameObjectId, quality: BandingQuality) -> (matches:
        bool)
        ensures
            matches == self@.spec_matches_banding_quality(creature, quality),
    {
        match self.permanent_position(creature) {
            Some(index) => match self.effective_rules(&self.battlefield[index]) {
                Some(definition) => match quality {
                    BandingQuality::Legends => definition.legendary,
                    BandingQuality::Wolves => definition.wolf,
                },
                None => false,
            },
            None => false,
        }
    }

    fn qualifies_on_quality(&self, members: &Vec<GameObjectId>, quality: BandingQuality) -> (qualifies:
        bool)
        ensures
            qualifies == self@.qualifies_on(members@, quality),
    {
        let mut carrier = false;
        let mut i: usize = 0;
        while i < members.len()
            invariant
                i <= members@.len(),
                carrier == exists|j: int|
                    0 <= j < i && self@.spec_has_bands_with_other(members@[j], quality),
                forall|j: int|
                    0 <= j < i ==> self@.spec_matches_banding_quality(members@[j], quality),
            decreases members@.len() - i,
        {
            if !self.matches_banding_quality(members[i], quality) {
                return false;
            }
            if self.has_bands_with_other(members[i], quality) {
                carrier = true;
            }
            i = i + 1;
        }
        carrier
    }

    /// Whether these creatures could be a band on some quality.
    pub fn qualify_as_a_band(&self, members: &Vec<GameObjectId>) -> (qualifies: bool)
        ensures
            qualifies == self@.spec_qualify_as_a_band(members@),
    {
        self.qualifies_on_quality(members, BandingQuality::Legends) || self.qualifies_on_quality(
            members,
            BandingQuality::Wolves,
        )
    }

    fn count_without_banding(&self, members: &Vec<GameObjectId>) -> (count: usize)
        ensures
            count == self@.without_banding(members@),
    {
        let mut count: usize = 0;
        let mut i: usize = 0;
        while i < members.len()
            invariant
                i <= members@.len(),
                count == self@.without_banding(members@.take(i as int)),
                count <= i,
            decreases members@.len() - i,
        {
            proof {
                assert(members@.take(i + 1).drop_last() =~= members@.take(i as int));
            }
            if !self.has_banding(members[i]) {
                count = count + 1;
            }
            i = i + 1;
        }
        proof {
            assert(members@.take(i as int) =~= members@);
        }
        count
    }

    /// Whether these two groups may be declared as one band.
    pub fn groups_may_band(&self, first: GameObjectId, second: GameObjectId) -> (may: bool)
        ensures
            may == self@.spec_groups_may_band(first, second),
    {
        let (one, other) = match (self.attacking_permanent(first), self.attacking_permanent(second)) {
            (Some(one), Some(other)) => (one, other),
            _ => return false,
        };
        if one.attack_defender != other.attack_defender || one.controller != other.controller {
            return false;
        }
        if self.share_a_band(first, second) {
            return false;
        }
        let mut members = self.band_group(first);
        let mut rest = self.band_group(second);
        members.append(&mut rest);
        let plain = self.count_without_banding(&members) <= 1;
        plain || self.qualify_as_a_band(&members)
    }

    fn attacker_ids(&self, player: PlayerId) -> (attackers: Vec<GameObjectId>)
        ensures
            attackers@ == self.battlefield@.filter_map(attacker_of(player)),
    {
        let mut attackers = Vec::new();
        let mut i: usize = 0;
        while i < self.battlefield.len()
            invariant
                i <= self.battlefield@.len(),
                attackers@ == self.battlefield@.take(i as int).filter_map(attacker_of(player)),
            decreases self.battlefield@.len() - i,
        {
            proof {
                self.battlefield@.lemma_filter_map_take_succ(attacker_of(player), i as int);
            }
            if self.battlefield[i].attacking && self.battlefield[i].controller == player {
                attackers.push(self.battlefield[i].card.id);
            }
            i = i + 1;
        }
        proof {
            assert(self.battlefield@.take(i as int) =~= self.battlefield@);
        }
        attackers
    }

    /// The bands this player may still form. Each pair is offered once, in
    /// object-id order.
    pub fn band_actions(&self, player: PlayerId) -> (actions: Vec<Action>)
        ensures
            actions_view(actions@) == self@.spec_band_actions(player),
    {
        let attackers = self.attacker_ids(player);
        let mut actions: Vec<Action> = Vec::new();
        let mut index: usize = 0;
        while index < attackers.len()
            invariant
                index <= attackers@.len(),
                attackers@ == self.battlefield@.filter_map(attacker_of(player)),
                actions_view(actions@) == self@.band_actions_upto(attackers@, index as int),
            decreases attackers@.len() - index,
        {
            let mut later: usize = index + 1;
            while later < attackers.len()
                invariant
                    index < attackers@.len(),
                    index + 1 <= later <= attackers@.len(),
                    actions_view(actions@) == self@.band_actions_upto(attackers@, index as int)
                        + self@.band_actions_with(attackers@, index as int, later as int),
                decreases attackers@.len() - later,
            {
                let one = attackers[index];
                let other = attackers[later];
                let (first, second) = if one.0 <= other.0 {
                    (one, other)
                } else {
                    (other, one)
                };
                let ghost before = actions@;
                if self.groups_may_band(first, second) {
                    actions.push(Action::BandAttackers { first, second });
                    proof {
                        assert(actions_view(actions@) =~= actions_view(before).push(
                            ActionView::BandAttackers { first, second },
                        ));
                    }
                } else {
                    proof {
                        assert(actions_view(actions@) =~= actions_view(before));
                    }
                }
                proof {
                    assert(self@.band_actions_with(attackers@, index as int, later + 1)
                        == self@.band_actions_with(attackers@, index as int, later as int)
                        + self@.band_action(one, other));
                    assert(actions_view(actions@) =~= self@.band_actions_upto(attackers@, index as int)
                        + self@.band_actions_with(attackers@, index as int, later + 1));
                }
                later = later + 1;
            }
            proof {
                assert(self@.band_actions_upto(attackers@, index + 1) == self@.band_actions_upto(
                    attackers@,
                    index as int,
                ) + self@.band_actions_with(attackers@, index as int, attackers@.len() as int));
            }
            index = index + 1;
        }
        actions
    }

    /// The highest band index in use.
    fn highest_band_index(&self) -> (highest: Option<u32>)
        ensures
            highest == highest_band(self.battlefield@),
    {
        let mut highest: Option<u32> = None;
        let mut i: usize = 0;
        while i < self.battlefield.len()
            invariant
                i <= self.battlefield@.len(),
                highest == highest_band(self.battlefield@.take(i as int)),
            decreases self.battlefield@.len() - i,
        {
            proof {
                assert(self.battlefield@.take(i + 1).drop_last() =~= self.battlefield@.take(
                    i as int,
                ));
            }
            if let Some(band) = self.battlefield[i].attacking_band {
                highest = match highest {
                    Some(current) => if band > current {
                        Some(band)
                    } else {
                        Some(current)
                    },
                    None => Some(band),
                };
            }
            i = i + 1;
        }
        proof {
            assert(self.battlefield@.take(i as int) =~= self.battlefield@);
        }
        highest
    }

    /// Merges the two groups, giving every member one index chosen past
    /// every index the combat is using.
    pub fn form_band(&mut self, first: GameObjectId, second: GameObjectId)
        ensures
            final(self)@ == old(self)@.spec_form_band(first, second),
            final(self).battlefield@.len() == old(self).battlefield@.len(),
            forall|i: int|
                0 <= i < old(self).battlefield@.len() ==> final(self).battlefield@[i] == if (
                old(self)@.spec_band_group(first) + old(self)@.spec_band_group(second)).contains(
                    old(self).battlefield@[i].card.id,
                ) {
                    Permanent {
                        attacking_band: Some(next_band(old(self).battlefield@)),
                        ..old(self).battlefield@[i]
                    }
                } else {
                    old(self).battlefield@[i]
                },
    {
        let mut members = self.band_group(first);
        let mut rest = self.band_group(second);
        members.append(&mut rest);
        let band: u32 = match self.highest_band_index() {
            Some(highest) => highest.saturating_add(1),
            None => 0,
        };
        let ghost initial = *self;
        let ghost all = members@;
        let mut i: usize = 0;
        while i < self.battlefield.len()
            invariant
                i <= self.battlefield@.len(),
                self.battlefield@.len() == initial.battlefield@.len(),
                self@ == initial@.with_battlefield(self@.battlefield),
                members@ == all,
                band == next_band(initial.battlefield@),
                forall|j: int|
                    i <= j < self.battlefield@.len() ==> self.battlefield@[j]
                        == initial.battlefield@[j],
                forall|j: int|
                    0 <= j < i ==> self.battlefield@[j] == if all.contains(
                        initial.battlefield@[j].card.id,
                    ) {
                        Permanent { attacking_band: Some(band), ..initial.battlefield@[j] }
                    } else {
                        initial.battlefield@[j]
                    },
            decreases self.battlefield@.len() - i,
        {
            if contains_id(&members, self.battlefield[i].card.id) {
                self.battlefield[i].attacking_band = Some(band);
            }
            i = i + 1;
        }
        proof {
            assert(self@.battlefield =~= initial@.battlefield.map_values(banded(all, band)));
        }
    }
}

/// A permanent joins the band when it is one of its members.
pub open spec fn banded(members: Seq<GameObjectId>, band: u32) -> spec_fn(Permanent) -> Permanent {
    |permanent: Permanent|
        if members.contains(permanent.card.id) {
            Permanent { attacking_band: Some(band), ..permanent }
        } else {
            permanent
        }
}

impl GameView {
    /// The two attackers' groups merge into one band, numbered past every
    /// band index in use.
    pub open spec fn spec_form_band(self, first: GameObjectId, second: GameObjectId) -> GameView {
        self.with_battlefield(
            self.battlefield.map_values(
                banded(self.spec_band_group(first) + self.spec_band_group(second), next_band(self.battlefield)),
            ),
        )
    }
}

/// Whether the list holds this id.
pub fn contains_id(ids: &Vec<GameObjectId>, id: GameObjectId) -> (found: bool)
    ensures
        found == ids@.contains(id),
{
    let mut i: usize = 0;
    while i < ids.len()
        invariant
            i <= ids@.len(),
            forall|j: int| 0 <= j < i ==> ids@[j] != id,
        decreases ids@.len() - i,
    {
        if ids[i] == id {
            assert(ids@[i as int] == id);
            return true;
        }
        i = i + 1;
    }
    false
}

impl GameView {
    pub open spec fn spec_attacking_permanent(self, attacker: GameObjectId) -> Option<Permanent> {
        first_match(self.battlefield, attacking_with(attacker))
    }

    /// Every creature banded with this one, itself included. An attacker with
    /// no band index is a group of one.
    pub open spec fn spec_band_group(self, attacker: GameObjectId) -> Seq<GameObjectId> {
        match self.spec_attacking_permanent(attacker) {
            None => Seq::empty(),
            Some(permanent) => match permanent.attacking_band {
                None => seq![attacker],
                Some(band) => self.battlefield.filter_map(band_member(band)),
            },
        }
    }

    pub open spec fn spec_share_a_band(self, one: GameObjectId, other: GameObjectId) -> bool {
        match self.spec_attacking_permanent(one) {
            Some(first) => match first.attacking_band {
                Some(band) => match self.spec_attacking_permanent(other) {
                    Some(second) => second.attacking_band == Some(band),
                    None => false,
                },
                None => false,
            },
            None => false,
        }
    }

    pub open spec fn spec_has_banding(self, attacker: GameObjectId) -> bool {
        match self.spec_attacking_permanent(attacker) {
            Some(permanent) => self.has_keyword(permanent, KeywordAbility::Banding),
            None => false,
        }
    }

    pub open spec fn spec_has_bands_with_other(
        self,
        creature: GameObjectId,
        quality: BandingQuality,
    ) -> bool {
        match permanent_with(self.battlefield, creature) {
            Some(permanent) => self.has_keyword(permanent, KeywordAbility::BandsWithOther(quality)),
            None => false,
        }
    }

    /// Whether the permanent's card has the quality a band is made of.
    pub open spec fn has_banding_quality(self, permanent: Permanent, quality: BandingQuality) -> bool {
        match catalog(permanent.card.definition) {
            Some(definition) => match quality {
                BandingQuality::Legends => definition.legendary,
                BandingQuality::Wolves => definition.wolf,
            },
            None => false,
        }
    }

    pub open spec fn spec_matches_banding_quality(
        self,
        creature: GameObjectId,
        quality: BandingQuality,
    ) -> bool {
        match permanent_with(self.battlefield, creature) {
            Some(permanent) => self.has_banding_quality(permanent, quality),
            None => false,
        }
    }

    /// CR 702.21j: every member has the quality and at least one carries the
    /// "bands with other" ability naming it.
    pub open spec fn qualifies_on(self, members: Seq<GameObjectId>, quality: BandingQuality) -> bool {
        &&& exists|i: int|
            0 <= i < members.len() && self.spec_has_bands_with_other(members[i], quality)
        &&& forall|i: int|
            0 <= i < members.len() ==> self.spec_matches_banding_quality(members[i], quality)
    }

    pub open spec fn spec_qualify_as_a_band(self, members: Seq<GameObjectId>) -> bool {
        self.qualifies_on(members, BandingQuality::Legends) || self.qualifies_on(
            members,
            BandingQuality::Wolves,
        )
    }

    /// How many of these creatures lack plain banding.
    pub open spec fn without_banding(self, members: Seq<GameObjectId>) -> int
        decreases members.len(),
    {
        if members.len() == 0 {
            0
        } else {
            self.without_banding(members.drop_last()) + if self.spec_has_banding(members.last()) {
                0int
            } else {
                1int
            }
        }
    }

    /// Whether these two groups may be declared as one band: one defender,
    /// one controller, not already one band, and either at most one member
    /// without banding or a shared "bands with other" quality.
    pub open spec fn spec_groups_may_band(self, first: GameObjectId, second: GameObjectId) -> bool {
        match (self.spec_attacking_permanent(first), self.spec_attacking_permanent(second)) {
            (Some(one), Some(other)) => {
                &&& one.attack_defender == other.attack_defender
                &&& one.controller == other.controller
                &&& !self.spec_share_a_band(first, second)
                &&& {
                    let members = self.spec_band_group(first) + self.spec_band_group(second);
                    self.without_banding(members) <= 1 || self.spec_qualify_as_a_band(members)
                }
            },
            _ => false,
        }
    }

    /// The band declaration for one pair, named in object-id order.
    pub open spec fn band_action(self, one: GameObjectId, other: GameObjectId) -> Seq<ActionView> {
        let (first, second) = if one.0 <= other.0 {
            (one, other)
        } else {
            (other, one)
        };
        if self.spec_groups_may_band(first, second) {
            seq![ActionView::BandAttackers { first, second }]
        } else {
            Seq::empty()
        }
    }

    /// The declarations pairing `attackers[i]` with each later attacker
    /// before position `n`.
    pub open spec fn band_actions_with(self, attackers: Seq<GameObjectId>, i: int, n: int) -> Seq<
        ActionView,
    >
        decreases n - i,
    {
        if n <= i + 1 {
            Seq::empty()
        } else {
            self.band_actions_with(attackers, i, n - 1) + self.band_action(
                attackers[i],
                attackers[n - 1],
            )
        }
    }

    /// Every pair among the first `k` attackers, each named once.
    pub open spec fn band_actions_upto(self, attackers: Seq<GameObjectId>, k: int) -> Seq<ActionView>
        decreases k,
    {
        if k <= 0 {
            Seq::empty()
        } else {
            self.band_actions_upto(attackers, k - 1) + self.band_actions_with(
                attackers,
                k - 1,
                attackers.len() as int,
            )
        }
    }

    pub open spec fn spec_band_actions(self, player: PlayerId) -> Seq<ActionView> {
        let attackers = self.battlefield.filter_map(attacker_of(player));
        self.band_actions_upto(attackers, attackers.len() as int)
    }
}

} // verus!
