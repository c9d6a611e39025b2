//! Declaring attackers, bands aside, and blockers, with the events each
//! declaration publishes.
use vstd::prelude::*;
use vstd::relations::{sorted_by, total_ordering};

use crate::banding::contains_id;
use crate::card::{CardBehavior, KeywordAbility};
use crate::ids::{GameObjectId, PlayerId};
use crate::state::{
    actions_view, first_match, lemma_first_match_absent, lemma_first_match_found,
    lemma_update_keeps_positions, permanent_with, position_of, Action, ActionView,
    AttackDefender, CreatureFilter, EventView, Game, GameEvent, GameView, Permanent, TriggerEvent,
};

verus! {

/// Object ids ordered by their number.
pub open spec fn id_order() -> spec_fn(GameObjectId, GameObjectId) -> bool {
    |a: GameObjectId, b: GameObjectId| a.0 <= b.0
}

pub proof fn lemma_id_order_total()
    ensures
        total_ordering(id_order()),
{
    assert forall|a: GameObjectId, b: GameObjectId|
        #![trigger id_order()(a, b)]
        id_order()(a, b) && id_order()(b, a) implies a == b by {
        assert(a.0 == b.0);
    }
}

/// Sorts ids by number.
pub fn sort_ids(ids: &Vec<GameObjectId>) -> (sorted: Vec<GameObjectId>)
    ensures
        sorted@ == ids@.sort_by(id_order()),
{
    broadcast use vstd::seq_lib::group_to_multiset_ensures;

    let mut sorted: Vec<GameObjectId> = Vec::new();
    let mut i: usize = 0;
    while i < ids.len()
        invariant
            i <= ids@.len(),
            sorted_by(sorted@, id_order()),
            sorted@.to_multiset() == ids@.take(i as int).to_multiset(),
        decreases ids@.len() - i,
    {
        let id = ids[i];
        let mut position: usize = 0;
        while position < sorted.len() && sorted[position].0 <= id.0
            invariant
                position <= sorted@.len(),
                forall|j: int| 0 <= j < position ==> sorted@[j].0 <= id.0,
            decreases sorted@.len() - position,
        {
            position = position + 1;
        }
        let ghost before = sorted@;
        sorted.insert(position, id);
        proof {
            assert(sorted@ == before.insert(position as int, id));
            assert forall|a: int, b: int| 0 <= a < b < sorted@.len() implies #[trigger] id_order()(
                sorted@[a],
                sorted@[b],
            ) by {
                if b < position {
                    assert(id_order()(before[a], before[b]));
                } else if a > position {
                    assert(id_order()(before[a - 1], before[b - 1]));
                } else if a == position {
                    if b - 1 < before.len() && position < before.len() {
                        assert(id_order()(before[position as int], before[b - 1]));
                    }
                } else {
                    if b == position {
                    } else {
                        assert(id_order()(before[a], before[b - 1]));
                    }
                }
            }
            assert(ids@.take(i + 1) =~= ids@.take(i as int).push(id));
            vstd::seq_lib::to_multiset_insert(before, position as int, id);
            vstd::seq_lib::to_multiset_build(ids@.take(i as int), id);
        }
        i = i + 1;
    }
    proof {
        assert(ids@.take(i as int) =~= ids@);
        lemma_id_order_total();
        ids@.lemma_sort_by_ensures(id_order());
        vstd::seq_lib::lemma_sorted_unique(sorted@, ids@.sort_by(id_order()), id_order());
    }
    sorted
}

/// The ids each once, in order of first occurrence.
pub fn distinct_ids(ids: &Vec<GameObjectId>) -> (unique: Vec<GameObjectId>)
    ensures
        unique@ == distinct(ids@),
{
    let mut unique: Vec<GameObjectId> = Vec::new();
    let mut i: usize = 0;
    while i < ids.len()
        invariant
            i <= ids@.len(),
            unique@ == distinct(ids@.take(i as int)),
        decreases ids@.len() - i,
    {
        proof {
            assert(ids@.take(i + 1).drop_last() =~= ids@.take(i as int));
        }
        let id = ids[i];
        let mut seen = false;
        let mut j: usize = 0;
        while j < i
            invariant
                j <= i < ids@.len(),
                seen == exists|k: int| 0 <= k < j && ids@[k] == id,
                id == ids@[i as int],
            decreases i - j,
        {
            if ids[j] == id {
                seen = true;
            }
            j = j + 1;
        }
        proof {
            if seen {
                let k = choose|k: int| 0 <= k < i && ids@[k] == id;
                assert(ids@.take(i as int)[k] == id);
            } else {
                assert forall|k: int| 0 <= k < ids@.take(i as int).len() implies ids@.take(i as int)[k] != id by {
                    assert(ids@.take(i as int)[k] == ids@[k]);
                }
            }
        }
        if !seen {
            unique.push(id);
        }
        i = i + 1;
    }
    proof {
        assert(ids@.take(i as int) =~= ids@);
    }
    unique
}

/// How many times the id occurs.
pub fn count_id(ids: &Vec<GameObjectId>, id: GameObjectId) -> (count: usize)
    ensures
        count == occurrences(ids@, id),
{
    let mut count: usize = 0;
    let mut i: usize = 0;
    while i < ids.len()
        invariant
            i <= ids@.len(),
            count == occurrences(ids@.take(i as int), id),
            count <= i,
        decreases ids@.len() - i,
    {
        proof {
            assert(ids@.take(i + 1).drop_last() =~= ids@.take(i as int));
        }
        if ids[i] == id {
            count = count + 1;
        }
        i = i + 1;
    }
    proof {
        assert(ids@.take(i as int) =~= ids@);
    }
    count
}

/// Where an attacker is attacking, when it was never told: the opponent.
pub open spec fn spec_combat_defender(attacker: Permanent) -> AttackDefender {
    match attacker.attack_defender {
        Some(defender) => defender,
        None => AttackDefender::Player(attacker.controller.spec_opponent()),
    }
}

impl GameView {
    /// A planeswalker this player controls, as a defender.
    pub open spec fn planeswalker_defender(self, player: PlayerId) -> spec_fn(Permanent) -> Option<AttackDefender> {
        |permanent: Permanent|
            if permanent.controller == player && self.is_planeswalker(permanent) {
                Some(AttackDefender::Planeswalker(permanent.card.id))
            } else {
                None
            }
    }

    /// What this player may attack: the opponent and each of their
    /// planeswalkers.
    pub open spec fn defenders(self, player: PlayerId) -> Seq<AttackDefender> {
        seq![AttackDefender::Player(player.spec_opponent())] + self.battlefield.filter_map(
            self.planeswalker_defender(player.spec_opponent()),
        )
    }

    /// A creature able to attack: no defender, Moat's flying requirement
    /// met, and either haste or control since the controller's latest turn
    /// began.
    pub open spec fn spec_can_attack_creature(self, permanent: Permanent, moat_active: bool, flying: bool) -> bool {
        &&& !self.has_keyword(permanent, KeywordAbility::Defender)
        &&& !(moat_active && !flying)
        &&& (self.has_keyword(permanent, KeywordAbility::Haste)
            || self.turns_started[permanent.controller.spec_index()] > permanent.entered_controller_turn)
    }

    pub open spec fn spec_can_attack_with_moat(self, permanent: Permanent, moat_active: bool) -> bool {
        &&& self.power_of(permanent) is Some
        &&& self.toughness_of(permanent) is Some
        &&& self.spec_can_attack_creature(
            permanent,
            moat_active,
            moat_active && self.has_keyword(permanent, KeywordAbility::Flying),
        )
    }

    pub open spec fn may_declare_attacker(self, permanent: Permanent, player: PlayerId, moat_active: bool) -> bool {
        &&& permanent.controller == player
        &&& !permanent.tapped
        &&& !permanent.attacking
        &&& permanent.detained_until_turn_of is None
        &&& self.spec_can_attack_with_moat(permanent, moat_active)
    }

    /// The declarations of one attacker, one per defender.
    pub open spec fn declarations_for(attacker: GameObjectId, defenders: Seq<AttackDefender>) -> Seq<ActionView> {
        defenders.map_values(|defender: AttackDefender| ActionView::DeclareAttacker { attacker, defender })
    }

    pub open spec fn attacker_actions_upto(
        self,
        player: PlayerId,
        moat_active: bool,
        defenders: Seq<AttackDefender>,
        k: int,
    ) -> Seq<ActionView>
        decreases k,
    {
        if k <= 0 {
            Seq::empty()
        } else {
            let permanent = self.battlefield[k - 1];
            self.attacker_actions_upto(player, moat_active, defenders, k - 1) + if self.may_declare_attacker(
                permanent,
                player,
                moat_active,
            ) {
                Self::declarations_for(permanent.card.id, defenders)
            } else {
                Seq::empty()
            }
        }
    }

    /// Every attack declaration this player may make, in battlefield order.
    pub open spec fn spec_attacker_actions(self, player: PlayerId, moat_active: bool) -> Seq<ActionView> {
        self.attacker_actions_upto(player, moat_active, self.defenders(player), self.battlefield.len() as int)
    }

    /// The attacker declared: attacking this defender, tapped unless it has
    /// vigilance, and counted as having attacked.
    pub open spec fn spec_declare_attacker(self, attacker: GameObjectId, defender: AttackDefender) -> GameView {
        match position_of(self.battlefield, attacker) {
            Some(i) => {
                let permanent = self.battlefield[i];
                self.with_battlefield(
                    self.battlefield.update(
                        i,
                        Permanent {
                            attacking: true,
                            attack_defender: Some(defender),
                            attacked_this_turn: true,
                            attacks_this_turn: if permanent.attacks_this_turn == u8::MAX {
                                u8::MAX
                            } else {
                                (permanent.attacks_this_turn + 1) as u8
                            },
                            tapped: permanent.tapped || !self.has_keyword(
                                permanent,
                                KeywordAbility::Vigilance,
                            ),
                            ..permanent
                        },
                    ),
                )
            },
            None => self,
        }
    }
}

/// The id of an attacking permanent this player controls.
pub open spec fn attacking_under(player: PlayerId) -> spec_fn(Permanent) -> Option<GameObjectId> {
    |permanent: Permanent|
        if permanent.attacking && permanent.controller == player {
            Some(permanent.card.id)
        } else {
            None
        }
}

/// The id of a tapped permanent with this id.
pub open spec fn tapped_with(id: GameObjectId) -> spec_fn(Permanent) -> bool {
    |permanent: Permanent| permanent.card.id == id && permanent.tapped
}

impl GameView {
    /// The tap event of a declared attacker that became tapped.
    pub open spec fn tapped_attack_event(self) -> spec_fn(GameObjectId) -> Option<TriggerEvent> {
        |attacker: GameObjectId|
            match first_match(self.battlefield, tapped_with(attacker)) {
                Some(_) => Some(TriggerEvent::Tapped { object: attacker, for_mana: false }),
                None => None,
            }
    }

    /// The attack event of a declared attacker.
    pub open spec fn attack_event(self, declaration_size: u8) -> spec_fn(GameObjectId) -> Option<TriggerEvent> {
        |attacker: GameObjectId|
            match permanent_with(self.battlefield, attacker) {
                Some(permanent) => Some(
                    TriggerEvent::Attacks {
                        object: attacker,
                        declaration_size,
                        attack_number: permanent.attacks_this_turn,
                    },
                ),
                None => None,
            }
    }

    /// CR 508.2: the declaration is complete; the active player receives
    /// priority and the whole declaration is published at once: the
    /// attackers' taps first, then each attack.
    pub open spec fn spec_finish_declaring_attackers(self) -> GameView {
        let declared = GameView {
            attackers_declared: true,
            priority: self.active_player,
            consecutive_passes: 0,
            ..self
        };
        let attackers = self.battlefield.filter_map(attacking_under(self.active_player));
        if attackers.len() == 0 {
            declared
        } else {
            let size = if attackers.len() > 255 {
                255u8
            } else {
                attackers.len() as u8
            };
            GameView {
                events: self.events.push(
                    EventView::AttackDeclared { player: self.active_player, attackers },
                ),
                triggers: self.triggers + attackers.filter_map(self.tapped_attack_event())
                    + attackers.filter_map(self.attack_event(size)),
                ..declared
            }
        }
    }
}

/// The id of an attacking permanent.
pub open spec fn attacking_id() -> spec_fn(Permanent) -> Option<GameObjectId> {
    |permanent: Permanent|
        if permanent.attacking {
            Some(permanent.card.id)
        } else {
            None
        }
}

/// The attacker a blocking permanent blocks.
pub open spec fn blocked_attacker() -> spec_fn(Permanent) -> Option<GameObjectId> {
    |permanent: Permanent| permanent.blocking
}

/// A blocking relationship as (blocker, attacker).
pub open spec fn block_pair() -> spec_fn(Permanent) -> Option<(GameObjectId, GameObjectId)> {
    |permanent: Permanent|
        match permanent.blocking {
            Some(attacker) => Some((permanent.card.id, attacker)),
            None => None,
        }
}

impl GameView {
    /// Detention, an unleashed counter and a "can't block" effect each stop
    /// a creature blocking.
    pub open spec fn spec_cannot_block(self, permanent: Permanent) -> bool {
        permanent.detained_until_turn_of is Some || (permanent.plus_one_counters > 0
            && self.has_keyword(permanent, KeywordAbility::Unleash)) || permanent.blocking_rules.cannot_block
    }

    /// Whether a permanent is of the kind a filter names.
    pub open spec fn spec_matches_filter(self, filter: CreatureFilter, permanent: Permanent) -> bool {
        match filter {
            CreatureFilter::Any => true,
            CreatureFilter::WithKeyword(keyword) => self.has_keyword(permanent, keyword),
            CreatureFilter::OfColor(color) => self.colors_of(permanent).spec_has(color),
            CreatureFilter::Artifact => self.types_of(permanent) matches Some(types) && types.artifact,
        }
    }

    /// Whether a rule on the attacker requires this blocker to block it.
    pub open spec fn spec_must_be_blocked_by(self, attacker: Permanent, blocker: Permanent) -> bool {
        attacker.blocking_rules.must_be_blocked_by matches Some(filter) && self.spec_matches_filter(filter, blocker)
    }

    /// Whether a declaration is one a requirement compels.
    pub open spec fn spec_required_block(self, action: ActionView) -> bool {
        match action {
            ActionView::DeclareBlocker { blocker, attacker } => match (
                permanent_with(self.battlefield, blocker),
                permanent_with(self.battlefield, attacker),
            ) {
                (Some(blocking), Some(attacking)) => self.spec_must_be_blocked_by(attacking, blocking),
                _ => false,
            },
            _ => false,
        }
    }

    /// The blocker of a declaration a requirement compels.
    pub open spec fn required_blocker_id(self) -> spec_fn(ActionView) -> Option<GameObjectId> {
        |action: ActionView|
            if self.spec_required_block(action) {
                match action {
                    ActionView::DeclareBlocker { blocker, .. } => Some(blocker),
                    _ => None,
                }
            } else {
                None
            }
    }

    /// The blockers some requirement among these declarations compels.
    pub open spec fn required_blockers(self, available: Seq<ActionView>) -> Seq<GameObjectId> {
        available.filter_map(self.required_blocker_id())
    }

    /// Whether some declaration among these is compelled for this blocker.
    pub open spec fn required_blocker(self, available: Seq<ActionView>, blocker: GameObjectId) -> bool {
        self.required_blockers(available).contains(blocker)
    }

    /// A declaration survives the requirements unless its blocker is needed
    /// against an attacker that compels it and this is not such a block.
    pub open spec fn keeps_block(self, available: Seq<ActionView>) -> spec_fn(ActionView) -> bool {
        |action: ActionView|
            match action {
                ActionView::DeclareBlocker { blocker, .. } => !self.required_blocker(available, blocker)
                    || self.spec_required_block(action),
                _ => true,
            }
    }

    /// CR 509.1c: the blocks left once requirements have taken the
    /// alternatives away. A creature able to block an attacker that must be
    /// blocked by it may block only such attackers.
    pub open spec fn spec_blocker_actions(self, player: PlayerId) -> Seq<ActionView> {
        let available = self.spec_available_blocker_actions(player);
        available.filter(self.keeps_block(available))
    }

    /// Whether a requirement is still unmet among these declarations.
    pub open spec fn spec_block_requirement_outstanding(self, available: Seq<ActionView>) -> bool {
        exists|i: int| 0 <= i < available.len() && #[trigger] self.spec_required_block(available[i])
    }

    /// The id of an untapped creature of this player that may still block.
    pub open spec fn potential_blocker(self, player: PlayerId) -> spec_fn(Permanent) -> Option<GameObjectId> {
        |permanent: Permanent|
            if permanent.controller == player && !permanent.tapped && permanent.blocking is None
                && self.power_of(permanent) is Some && !self.spec_cannot_block(permanent) {
                Some(permanent.card.id)
            } else {
                None
            }
    }

    /// Whether this blocker may block this attacker: flying needs flying or
    /// reach, intimidate needs an artifact or a shared colour, Ironclaw Orcs
    /// won't face power 2 or more, and protection keeps the colour away.
    pub open spec fn spec_can_block(self, blocker: Permanent, attacker: Permanent) -> bool {
        let power = match self.power_of(attacker) {
            Some(power) => power,
            None => 0,
        };
        !((self.has_keyword(attacker, KeywordAbility::Flying) && !(self.has_keyword(blocker, KeywordAbility::Flying)
            || self.has_keyword(blocker, KeywordAbility::Reach))) || (self.has_keyword(attacker, KeywordAbility::Intimidate)
            && !(self.types_of(blocker) matches Some(types) && types.artifact)
            && !self.colors_of(attacker).spec_shares_with(self.colors_of(blocker)))
            || (self.behavior_of(blocker) == Some(CardBehavior::IronclawOrcs) && power >= 2)
            || self.spec_is_protected_from(attacker, self.colors_of(blocker))
            || attacker.blocking_rules.cannot_be_blocked
            || (attacker.blocking_rules.cannot_be_blocked_by matches Some(filter) && self.spec_matches_filter(
                filter,
                blocker,
            ))
            || (blocker.blocking_rules.can_block_only matches Some(filter) && !self.spec_matches_filter(
                filter,
                attacker,
            )))
    }

    pub open spec fn block_action(self, blocker: GameObjectId, attacker: GameObjectId) -> Seq<ActionView> {
        match (permanent_with(self.battlefield, blocker), permanent_with(self.battlefield, attacker)) {
            (Some(blocking), Some(attacking)) => if self.spec_can_block(blocking, attacking) {
                seq![ActionView::DeclareBlocker { blocker, attacker }]
            } else {
                Seq::empty()
            },
            _ => Seq::empty(),
        }
    }

    pub open spec fn blocks_by(self, blocker: GameObjectId, attackers: Seq<GameObjectId>, n: int) -> Seq<ActionView>
        decreases n,
    {
        if n <= 0 {
            Seq::empty()
        } else {
            self.blocks_by(blocker, attackers, n - 1) + self.block_action(blocker, attackers[n - 1])
        }
    }

    pub open spec fn blocks_upto(
        self,
        blockers: Seq<GameObjectId>,
        attackers: Seq<GameObjectId>,
        k: int,
    ) -> Seq<ActionView>
        decreases k,
    {
        if k <= 0 {
            Seq::empty()
        } else {
            self.blocks_upto(blockers, attackers, k - 1) + self.blocks_by(
                blockers[k - 1],
                attackers,
                attackers.len() as int,
            )
        }
    }

    /// Every block this player may declare: each of their creatures able to
    /// block, against each attacker it may block.
    pub open spec fn spec_available_blocker_actions(self, player: PlayerId) -> Seq<ActionView> {
        let blockers = self.battlefield.filter_map(self.potential_blocker(player));
        let attackers = self.battlefield.filter_map(attacking_id());
        self.blocks_upto(blockers, attackers, blockers.len() as int)
    }

    pub open spec fn spec_declare_blocker(self, blocker: GameObjectId, attacker: GameObjectId) -> GameView {
        let blocking = match position_of(self.battlefield, blocker) {
            Some(i) => self.with_battlefield(
                self.battlefield.update(i, Permanent { blocking: Some(attacker), ..self.battlefield[i] }),
            ),
            None => self,
        };
        if self.combat_blocked_attackers.contains(attacker) {
            blocking
        } else {
            GameView {
                combat_blocked_attackers: self.combat_blocked_attackers.push(attacker),
                ..blocking
            }
        }
    }

    /// The attackers nobody blocked (CR 509.1h).
    pub open spec fn unblocked_event(self, blocked: Seq<GameObjectId>) -> spec_fn(Permanent) -> Option<TriggerEvent> {
        |permanent: Permanent|
            if permanent.attacking && !blocked.contains(permanent.card.id) {
                Some(TriggerEvent::AttacksAndIsNotBlocked { object: permanent.card.id })
            } else {
                None
            }
    }

    pub open spec fn spec_unblocked_attacker_events(self, blocked: Seq<GameObjectId>) -> Seq<TriggerEvent> {
        self.battlefield.filter_map(self.unblocked_event(blocked))
    }

    /// One event per ordered pair of a blocker and what it blocks, in both
    /// directions, when both are still on the battlefield.
    pub open spec fn relationship_events(self, pairs: Seq<(GameObjectId, GameObjectId)>, k: int) -> Seq<TriggerEvent>
        decreases k,
    {
        if k <= 0 {
            Seq::empty()
        } else {
            let (blocker, attacker) = pairs[k - 1];
            self.relationship_events(pairs, k - 1) + if permanent_with(self.battlefield, blocker) is Some
                && permanent_with(self.battlefield, attacker) is Some {
                seq![
                    TriggerEvent::BlocksOrBecomesBlocked { creature: blocker, other: attacker },
                    TriggerEvent::BlocksOrBecomesBlocked { creature: attacker, other: blocker },
                ]
            } else {
                Seq::empty()
            }
        }
    }

    pub open spec fn spec_blocking_relationship_events(self) -> Seq<TriggerEvent> {
        let pairs = self.battlefield.filter_map(block_pair());
        self.relationship_events(pairs, pairs.len() as int)
    }

    /// CR 509.1h: each blocked attacker becomes blocked once, in id order,
    /// with the number of blockers beyond the first.
    pub open spec fn becomes_blocked_events(self, attackers: Seq<GameObjectId>, blocked: Seq<GameObjectId>, k: int) -> Seq<TriggerEvent>
        decreases k,
    {
        if k <= 0 {
            Seq::empty()
        } else {
            let attacker = attackers[k - 1];
            let blockers = occurrences(blocked, attacker);
            self.becomes_blocked_events(attackers, blocked, k - 1) + if permanent_with(self.battlefield, attacker) is Some {
                seq![TriggerEvent::BecomesBlocked {
                    object: attacker,
                    blockers_beyond_first: if blockers - 1 > u16::MAX { u16::MAX } else if blockers == 0 { 0 } else { (blockers - 1) as u16 },
                }]
            } else {
                Seq::empty()
            }
        }
    }

    pub open spec fn spec_becomes_blocked_events(self, blocked: Seq<GameObjectId>) -> Seq<TriggerEvent> {
        let attackers = distinct(blocked).sort_by(id_order());
        self.becomes_blocked_events(attackers, blocked, attackers.len() as int)
    }

    /// CR 509.2: the declaration is complete; every creature learns whether
    /// it is blocked, the active player receives priority, and the
    /// declaration and its events are published.
    pub open spec fn spec_finish_declaring_blockers(self) -> GameView {
        let blocked = self.battlefield.filter_map(blocked_attacker());
        let marked = Seq::new(
            self.battlefield.len(),
            |i: int| Permanent { blocked: blocked.contains(self.battlefield[i].card.id), ..self.battlefield[i] },
        );
        let pairs = self.battlefield.filter_map(block_pair());
        let declared = GameView {
            blockers_declared: true,
            priority: self.active_player,
            consecutive_passes: 0,
            battlefield: marked,
            ..self
        };
        let logged = if pairs.len() == 0 {
            declared
        } else {
            GameView {
                events: self.events.push(
                    EventView::BlockDeclared { player: self.active_player.spec_opponent(), assignments: pairs },
                ),
                ..declared
            }
        };
        GameView {
            triggers: self.triggers + declared.spec_becomes_blocked_events(blocked)
                + declared.spec_blocking_relationship_events() + declared.spec_unblocked_attacker_events(blocked),
            ..logged
        }
    }
}

/// How many times an id occurs.
pub open spec fn occurrences(ids: Seq<GameObjectId>, id: GameObjectId) -> int
    decreases ids.len(),
{
    if ids.len() == 0 {
        0
    } else {
        occurrences(ids.drop_last(), id) + if ids.last() == id {
            1int
        } else {
            0int
        }
    }
}

/// The ids each once, in order of first occurrence.
pub open spec fn distinct(ids: Seq<GameObjectId>) -> Seq<GameObjectId>
    decreases ids.len(),
{
    if ids.len() == 0 {
        Seq::empty()
    } else {
        let rest = distinct(ids.drop_last());
        if ids.drop_last().contains(ids.last()) {
            rest
        } else {
            rest.push(ids.last())
        }
    }
}

impl Game {
    /// Detention and an unleashed counter both stop a creature blocking.
    pub fn cannot_block(&self, permanent: &Permanent) -> (cannot: bool)
        ensures
            cannot == self@.spec_cannot_block(*permanent),
    {
        if permanent.detained_until_turn_of.is_some() {
            return true;
        }
        permanent.plus_one_counters > 0 && self.permanent_has_executable_keyword(
            permanent,
            KeywordAbility::Unleash,
        ) || permanent.blocking_rules.cannot_block
    }

    /// Whether a permanent is of the kind a filter names.
    pub fn matches_filter(&self, filter: CreatureFilter, permanent: &Permanent) -> (matches: bool)
        ensures
            matches == self@.spec_matches_filter(filter, *permanent),
    {
        match filter {
            CreatureFilter::Any => true,
            CreatureFilter::WithKeyword(keyword) => self.permanent_has_executable_keyword(permanent, keyword),
            CreatureFilter::OfColor(color) => self.permanent_colors(permanent).has(color),
            CreatureFilter::Artifact => self.is_artifact_permanent(permanent),
        }
    }

    /// Whether a rule on the attacker requires this blocker to block it.
    pub fn must_be_blocked_by(&self, attacker: &Permanent, blocker: &Permanent) -> (must: bool)
        ensures
            must == self@.spec_must_be_blocked_by(*attacker, *blocker),
    {
        match attacker.blocking_rules.must_be_blocked_by {
            Some(filter) => self.matches_filter(filter, blocker),
            None => false,
        }
    }

    /// Whether a declaration is one a requirement compels.
    pub fn required_block(&self, action: &Action) -> (required: bool)
        ensures
            required == self@.spec_required_block(action@),
    {
        match action {
            Action::DeclareBlocker { blocker, attacker } => {
                match (self.permanent_position(*blocker), self.permanent_position(*attacker)) {
                    (Some(b), Some(a)) => self.must_be_blocked_by(&self.battlefield[a], &self.battlefield[b]),
                    _ => false,
                }
            },
            _ => false,
        }
    }

    /// Whether a requirement is still unmet among these declarations, which
    /// is what stops the defending player from finishing the declaration.
    pub fn block_requirement_outstanding(&self, available: &Vec<Action>) -> (outstanding: bool)
        ensures
            outstanding == self@.spec_block_requirement_outstanding(actions_view(available@)),
    {
        let mut i: usize = 0;
        while i < available.len()
            invariant
                i <= available@.len(),
                forall|j: int| 0 <= j < i ==> !self@.spec_required_block(#[trigger] actions_view(available@)[j]),
            decreases available@.len() - i,
        {
            if self.required_block(&available[i]) {
                proof {
                    assert(actions_view(available@)[i as int] == available@[i as int]@);
                    assert(self@.spec_required_block(actions_view(available@)[i as int]));
                }
                return true;
            }
            i = i + 1;
        }
        false
    }

    fn potential_blockers(&self, player: PlayerId) -> (blockers: Vec<GameObjectId>)
        ensures
            blockers@ == self@.battlefield.filter_map(self@.potential_blocker(player)),
    {
        let mut blockers: Vec<GameObjectId> = Vec::new();
        let mut i: usize = 0;
        while i < self.battlefield.len()
            invariant
                i <= self.battlefield@.len(),
                blockers@ == self.battlefield@.take(i as int).filter_map(self@.potential_blocker(player)),
            decreases self.battlefield@.len() - i,
        {
            proof {
                self.battlefield@.lemma_filter_map_take_succ(self@.potential_blocker(player), i as int);
            }
            let permanent = &self.battlefield[i];
            if permanent.controller == player && !permanent.tapped && permanent.blocking.is_none()
                && self.power(permanent).is_some() && !self.cannot_block(permanent) {
                blockers.push(permanent.card.id);
            }
            i = i + 1;
        }
        proof {
            assert(self.battlefield@.take(i as int) =~= self.battlefield@);
        }
        blockers
    }

    fn attacking_ids(&self) -> (attackers: Vec<GameObjectId>)
        ensures
            attackers@ == self@.battlefield.filter_map(attacking_id()),
    {
        let mut attackers: Vec<GameObjectId> = Vec::new();
        let mut i: usize = 0;
        while i < self.battlefield.len()
            invariant
                i <= self.battlefield@.len(),
                attackers@ == self.battlefield@.take(i as int).filter_map(attacking_id()),
            decreases self.battlefield@.len() - i,
        {
            proof {
                self.battlefield@.lemma_filter_map_take_succ(attacking_id(), i as int);
            }
            if self.battlefield[i].attacking {
                attackers.push(self.battlefield[i].card.id);
            }
            i = i + 1;
        }
        proof {
            assert(self.battlefield@.take(i as int) =~= self.battlefield@);
        }
        attackers
    }

    /// Whether this blocker may block this attacker.
    pub fn can_block(&self, blocker: &Permanent, attacker: &Permanent) -> (can: bool)
        ensures
            can == self@.spec_can_block(*blocker, *attacker),
    {
        let power: i32 = match self.power(attacker) {
            Some(power) => power,
            None => 0,
        };
        let flying = self.has_flying(attacker);
        let blocker_can_block_flying = self.has_flying(blocker) || self.permanent_has_executable_keyword(
            blocker,
            KeywordAbility::Reach,
        );
        let intimidate = self.permanent_has_executable_keyword(attacker, KeywordAbility::Intimidate);
        let shares_color = self.permanent_colors(attacker).shares_with(self.permanent_colors(blocker));
        let ironclaw = match self.effective_behavior(blocker) {
            Some(CardBehavior::IronclawOrcs) => true,
            _ => false,
        };
        let unblockable_by = match attacker.blocking_rules.cannot_be_blocked_by {
            Some(filter) => self.matches_filter(filter, blocker),
            None => false,
        };
        let outside_only = match blocker.blocking_rules.can_block_only {
            Some(filter) => !self.matches_filter(filter, attacker),
            None => false,
        };
        !(flying && !blocker_can_block_flying || intimidate && !self.is_artifact_permanent(blocker)
            && !shares_color || ironclaw && power >= 2 || self.combat_is_protected(blocker, attacker)
            || attacker.blocking_rules.cannot_be_blocked || unblockable_by || outside_only)
    }

    /// The blocks this player may declare.
    pub fn available_blocker_actions(&self, player: PlayerId) -> (actions: Vec<Action>)
        ensures
            actions_view(actions@) == self@.spec_available_blocker_actions(player),
    {
        let blockers = self.potential_blockers(player);
        let attackers = self.attacking_ids();
        let mut actions: Vec<Action> = Vec::new();
        let mut k: usize = 0;
        while k < blockers.len()
            invariant
                k <= blockers@.len(),
                blockers@ == self@.battlefield.filter_map(self@.potential_blocker(player)),
                attackers@ == self@.battlefield.filter_map(attacking_id()),
                actions_view(actions@) == self@.blocks_upto(blockers@, attackers@, k as int),
            decreases blockers@.len() - k,
        {
            let blocker = blockers[k];
            let mut n: usize = 0;
            while n < attackers.len()
                invariant
                    k < blockers@.len(),
                    blocker == blockers@[k as int],
                    n <= attackers@.len(),
                    actions_view(actions@) == self@.blocks_upto(blockers@, attackers@, k as int)
                        + self@.blocks_by(blocker, attackers@, n as int),
                decreases attackers@.len() - n,
            {
                let attacker = attackers[n];
                let ghost before = actions@;
                match (self.permanent_position(blocker), self.permanent_position(attacker)) {
                    (Some(b), Some(a)) => {
                        if self.can_block(&self.battlefield[b], &self.battlefield[a]) {
                            actions.push(Action::DeclareBlocker { blocker, attacker });
                            proof {
                                assert(actions_view(actions@) =~= actions_view(before).push(
                                    ActionView::DeclareBlocker { blocker, attacker },
                                ));
                            }
                        }
                    },
                    _ => {},
                }
                n = n + 1;
            }
            k = k + 1;
        }
        actions
    }

    /// The blocks this player may declare, after combat requirements have
    /// taken the alternatives away (CR 509.1c): a creature able to block an
    /// attacker that must be blocked by it is offered only such attackers.
    pub fn blocker_actions(&self, player: PlayerId) -> (actions: Vec<Action>)
        ensures
            actions_view(actions@) == self@.spec_blocker_actions(player),
    {
        let mut available = self.available_blocker_actions(player);
        let ghost av = actions_view(available@);
        let ghost orig = available@;
        let mut required: Vec<GameObjectId> = Vec::new();
        let mut i: usize = 0;
        while i < available.len()
            invariant
                i <= available@.len(),
                av == actions_view(available@),
                required@ == av.take(i as int).filter_map(self@.required_blocker_id()),
            decreases available@.len() - i,
        {
            proof {
                av.lemma_filter_map_take_succ(self@.required_blocker_id(), i as int);
                assert(av[i as int] == available@[i as int]@);
            }
            if self.required_block(&available[i]) {
                match &available[i] {
                    Action::DeclareBlocker { blocker, .. } => required.push(*blocker),
                    _ => {},
                }
            }
            i = i + 1;
        }
        proof {
            assert(av.take(i as int) =~= av);
        }
        let mut actions: Vec<Action> = Vec::new();
        let mut k: usize = 0;
        proof {
            reveal(Seq::filter);
            assert(av.take(0).filter(self@.keeps_block(av)) =~= Seq::<ActionView>::empty());
        }
        while available.len() > 0
            invariant
                k <= orig.len(),
                available@ == orig.skip(k as int),
                available@.len() == orig.len() - k,
                orig.len() <= usize::MAX,
                av == actions_view(orig),
                required@ == self@.required_blockers(av),
                actions_view(actions@) == av.take(k as int).filter(self@.keeps_block(av)),
            decreases available@.len(),
        {
            proof {
                assert(orig.skip(k as int)[0] == orig[k as int]);
                assert(orig.skip(k as int).remove(0) =~= orig.skip(k + 1));
                assert(av.take(k + 1).drop_last() =~= av.take(k as int));
                assert(av[k as int] == orig[k as int]@);
            }
            let action = available.remove(0);
            let keep = match &action {
                Action::DeclareBlocker { blocker, .. } => !contains_id(&required, *blocker)
                    || self.required_block(&action),
                _ => true,
            };
            let ghost before = actions@;
            proof {
                assert(action@ == av[k as int]);
                assert(av.take(k + 1).last() == av[k as int]);
                assert(keep == self@.keeps_block(av)(av[k as int]));
            }
            let ghost keeps = self@.keeps_block(av);
            proof {
                assert(av.len() == orig.len());
                assert(k < orig.len());
                assert(av.take(k + 1).len() == k + 1);
                assert(av.take(k + 1).drop_last() =~= av.take(k as int));
                assert(av.take(k + 1).last() == av[k as int]);
                reveal(Seq::filter);
                assert(av.take(k + 1).filter(keeps) == if keeps(av[k as int]) {
                    av.take(k as int).filter(keeps).push(av[k as int])
                } else {
                    av.take(k as int).filter(keeps)
                });
            }
            if keep {
                actions.push(action);
                proof {
                    assert(actions_view(actions@) =~= actions_view(before).push(av[k as int]));
                }
            } else {
                proof {
                    assert(actions_view(actions@) =~= actions_view(before));
                }
            }
            k = k + 1;
        }
        proof {
            assert(av.take(k as int) =~= av);
        }
        actions
    }

    /// Declares one block, remembering that the attacker was blocked.
    pub fn declare_blocker(&mut self, blocker: GameObjectId, attacker: GameObjectId)
        ensures
            final(self)@ == old(self)@.spec_declare_blocker(blocker, attacker),
    {
        if let Some(index) = self.permanent_position(blocker) {
            self.battlefield[index].blocking = Some(attacker);
        }
        if !contains_id(&self.combat_blocked_attackers, attacker) {
            self.combat_blocked_attackers.push(attacker);
        }
    }

    /// CR 509.1h: an attacker nobody blocked is unblocked.
    pub fn unblocked_attacker_trigger_events(&self, blocked: &Vec<GameObjectId>) -> (events: Vec<TriggerEvent>)
        ensures
            events@ == self@.spec_unblocked_attacker_events(blocked@),
    {
        let mut events: Vec<TriggerEvent> = Vec::new();
        let mut i: usize = 0;
        while i < self.battlefield.len()
            invariant
                i <= self.battlefield@.len(),
                events@ == self.battlefield@.take(i as int).filter_map(self@.unblocked_event(blocked@)),
            decreases self.battlefield@.len() - i,
        {
            proof {
                self.battlefield@.lemma_filter_map_take_succ(self@.unblocked_event(blocked@), i as int);
            }
            if self.battlefield[i].attacking && !contains_id(blocked, self.battlefield[i].card.id) {
                events.push(TriggerEvent::AttacksAndIsNotBlocked { object: self.battlefield[i].card.id });
            }
            i = i + 1;
        }
        proof {
            assert(self.battlefield@.take(i as int) =~= self.battlefield@);
        }
        events
    }

    fn block_pairs(&self) -> (pairs: Vec<(GameObjectId, GameObjectId)>)
        ensures
            pairs@ == self@.battlefield.filter_map(block_pair()),
    {
        let mut pairs: Vec<(GameObjectId, GameObjectId)> = Vec::new();
        let mut i: usize = 0;
        while i < self.battlefield.len()
            invariant
                i <= self.battlefield@.len(),
                pairs@ == self.battlefield@.take(i as int).filter_map(block_pair()),
            decreases self.battlefield@.len() - i,
        {
            proof {
                self.battlefield@.lemma_filter_map_take_succ(block_pair(), i as int);
            }
            if let Some(attacker) = self.battlefield[i].blocking {
                pairs.push((self.battlefield[i].card.id, attacker));
            }
            i = i + 1;
        }
        proof {
            assert(self.battlefield@.take(i as int) =~= self.battlefield@);
        }
        pairs
    }

    fn blocked_attackers(&self) -> (blocked: Vec<GameObjectId>)
        ensures
            blocked@ == self@.battlefield.filter_map(blocked_attacker()),
    {
        let mut blocked: Vec<GameObjectId> = Vec::new();
        let mut i: usize = 0;
        while i < self.battlefield.len()
            invariant
                i <= self.battlefield@.len(),
                blocked@ == self.battlefield@.take(i as int).filter_map(blocked_attacker()),
            decreases self.battlefield@.len() - i,
        {
            proof {
                self.battlefield@.lemma_filter_map_take_succ(blocked_attacker(), i as int);
            }
            if let Some(attacker) = self.battlefield[i].blocking {
                blocked.push(attacker);
            }
            i = i + 1;
        }
        proof {
            assert(self.battlefield@.take(i as int) =~= self.battlefield@);
        }
        blocked
    }

    /// One event per ordered pair of a blocker and what it blocks, so a
    /// clause printed on either creature reads the other as the triggering
    /// object.
    pub fn blocking_relationship_trigger_events(&self) -> (events: Vec<TriggerEvent>)
        ensures
            events@ == self@.spec_blocking_relationship_events(),
    {
        let pairs = self.block_pairs();
        let mut events: Vec<TriggerEvent> = Vec::new();
        let mut k: usize = 0;
        while k < pairs.len()
            invariant
                k <= pairs@.len(),
                pairs@ == self@.battlefield.filter_map(block_pair()),
                events@ == self@.relationship_events(pairs@, k as int),
            decreases pairs@.len() - k,
        {
            let (blocker, attacker) = pairs[k];
            let ghost before = events@;
            if self.permanent_position(blocker).is_some() && self.permanent_position(attacker).is_some() {
                events.push(TriggerEvent::BlocksOrBecomesBlocked { creature: blocker, other: attacker });
                events.push(TriggerEvent::BlocksOrBecomesBlocked { creature: attacker, other: blocker });
                proof {
                    assert(events@ =~= before + seq![
                        TriggerEvent::BlocksOrBecomesBlocked { creature: blocker, other: attacker },
                        TriggerEvent::BlocksOrBecomesBlocked { creature: attacker, other: blocker },
                    ]);
                }
            } else {
                proof {
                    assert(events@ =~= before + Seq::<TriggerEvent>::empty());
                }
            }
            k = k + 1;
        }
        events
    }

    /// CR 509.1h: each blocked attacker becomes blocked once, however many
    /// creatures blocked it; the events come in id order.
    pub fn becomes_blocked_trigger_events(&self, blocked: &Vec<GameObjectId>) -> (events: Vec<TriggerEvent>)
        ensures
            events@ == self@.spec_becomes_blocked_events(blocked@),
    {
        let unique = distinct_ids(blocked);
        let attackers = sort_ids(&unique);
        let mut events: Vec<TriggerEvent> = Vec::new();
        let mut k: usize = 0;
        while k < attackers.len()
            invariant
                k <= attackers@.len(),
                attackers@ == distinct(blocked@).sort_by(id_order()),
                events@ == self@.becomes_blocked_events(attackers@, blocked@, k as int),
            decreases attackers@.len() - k,
        {
            let attacker = attackers[k];
            let blockers = count_id(blocked, attacker);
            let ghost before = events@;
            if self.permanent_position(attacker).is_some() {
                let beyond: u16 = if blockers == 0 {
                    0
                } else if blockers - 1 > 65535 {
                    u16::MAX
                } else {
                    (blockers - 1) as u16
                };
                events.push(TriggerEvent::BecomesBlocked { object: attacker, blockers_beyond_first: beyond });
            }
            proof {
                assert(events@ =~= self@.becomes_blocked_events(attackers@, blocked@, k + 1));
            }
            k = k + 1;
        }
        events
    }

    /// CR 509.2: the declaration is complete. Every creature learns whether
    /// it is blocked, the active player receives priority, and the
    /// declaration and all its events are published at once.
    pub fn finish_declaring_blockers(&mut self)
        ensures
            final(self)@ == old(self)@.spec_finish_declaring_blockers(),
    {
        let blocked = self.blocked_attackers();
        let pairs = self.block_pairs();
        let ghost start = self@;
        let mut i: usize = 0;
        while i < self.battlefield.len()
            invariant
                i <= self.battlefield@.len(),
                self.battlefield@.len() == start.battlefield.len(),
                self@ == start.with_battlefield(self@.battlefield),
                blocked@ == start.battlefield.filter_map(blocked_attacker()),
                forall|j: int| i <= j < start.battlefield.len() ==> self.battlefield@[j] == start.battlefield[j],
                forall|j: int|
                    0 <= j < i ==> self.battlefield@[j] == (Permanent {
                        blocked: blocked@.contains(start.battlefield[j].card.id),
                        ..start.battlefield[j]
                    }),
            decreases self.battlefield@.len() - i,
        {
            let is_blocked = contains_id(&blocked, self.battlefield[i].card.id);
            self.battlefield[i].blocked = is_blocked;
            i = i + 1;
        }
        self.blockers_declared = true;
        self.priority = self.active_player;
        self.consecutive_passes = 0;
        let ghost declared = self@;
        proof {
            assert(declared == (GameView {
                blockers_declared: true,
                priority: start.active_player,
                consecutive_passes: 0,
                battlefield: Seq::new(
                    start.battlefield.len(),
                    |i: int| Permanent { blocked: blocked@.contains(start.battlefield[i].card.id), ..start.battlefield[i] },
                ),
                ..start
            }));
        }
        let mut trigger_events = self.becomes_blocked_trigger_events(&blocked);
        let mut relationships = self.blocking_relationship_trigger_events();
        let mut unblocked = self.unblocked_attacker_trigger_events(&blocked);
        trigger_events.append(&mut relationships);
        trigger_events.append(&mut unblocked);
        if pairs.len() > 0 {
            let player = self.active_player.opponent();
            self.events.push(GameEvent::BlockDeclared { player, assignments: pairs });
            proof {
                assert(self@.events =~= start.events.push(
                    EventView::BlockDeclared { player: start.active_player.spec_opponent(), assignments: start.battlefield.filter_map(block_pair()) },
                ));
            }
        }
        self.triggers.append(&mut trigger_events);
    }

    /// A creature able to attack, given whether Moat's rule is in force and
    /// whether the creature flies.
    pub fn can_attack_creature(&self, permanent: &Permanent, moat_active: bool, flying: bool) -> (can:
        bool)
        requires
            self.wf(),
        ensures
            can == self@.spec_can_attack_creature(*permanent, moat_active, flying),
    {
        if self.permanent_has_executable_keyword(permanent, KeywordAbility::Defender) {
            return false;
        }
        if moat_active && !flying {
            return false;
        }
        self.permanent_has_executable_keyword(permanent, KeywordAbility::Haste)
            || self.turns_started[permanent.controller.index()] > permanent.entered_controller_turn
    }

    pub fn can_attack_with_moat(&self, permanent: &Permanent, moat_active: bool) -> (can: bool)
        requires
            self.wf(),
        ensures
            can == self@.spec_can_attack_with_moat(*permanent, moat_active),
    {
        if self.base_stats(permanent).is_none() {
            return false;
        }
        let flying = moat_active && self.has_flying(permanent);
        self.can_attack_creature(permanent, moat_active, flying)
    }

    /// Whether the creature could attack now, reading Moat from the
    /// battlefield.
    pub fn can_attack(&self, permanent: &Permanent) -> (can: bool)
        requires
            self.wf(),
        ensures
            can == self@.spec_can_attack_with_moat(
                *permanent,
                self@.behavior_count(self@.battlefield, CardBehavior::Moat) > 0,
            ),
    {
        let moat_active = self.count_behavior(CardBehavior::Moat) > 0;
        self.can_attack_with_moat(permanent, moat_active)
    }

    fn defenders_of(&self, player: PlayerId) -> (defenders: Vec<AttackDefender>)
        ensures
            defenders@ == self@.defenders(player),
    {
        let opponent = player.opponent();
        let mut defenders: Vec<AttackDefender> = Vec::new();
        defenders.push(AttackDefender::Player(opponent));
        let ghost first = defenders@;
        let mut i: usize = 0;
        while i < self.battlefield.len()
            invariant
                i <= self.battlefield@.len(),
                first == seq![AttackDefender::Player(opponent)],
                opponent == player.spec_opponent(),
                defenders@ == first + self.battlefield@.take(i as int).filter_map(
                    self@.planeswalker_defender(opponent),
                ),
            decreases self.battlefield@.len() - i,
        {
            proof {
                self.battlefield@.lemma_filter_map_take_succ(self@.planeswalker_defender(opponent), i as int);
            }
            if self.battlefield[i].controller == opponent && self.is_planeswalker_permanent(
                &self.battlefield[i],
            ) {
                defenders.push(AttackDefender::Planeswalker(self.battlefield[i].card.id));
            }
            i = i + 1;
        }
        proof {
            assert(self.battlefield@.take(i as int) =~= self.battlefield@);
        }
        defenders
    }

    /// The attacks this player may declare: each untapped creature able to
    /// attack, against each defender.
    pub fn attacker_actions(&self, player: PlayerId, moat_active: bool) -> (actions: Vec<Action>)
        requires
            self.wf(),
        ensures
            actions_view(actions@) == self@.spec_attacker_actions(player, moat_active),
    {
        let defenders = self.defenders_of(player);
        let mut actions: Vec<Action> = Vec::new();
        let mut i: usize = 0;
        while i < self.battlefield.len()
            invariant
                self.wf(),
                i <= self.battlefield@.len(),
                defenders@ == self@.defenders(player),
                actions_view(actions@) == self@.attacker_actions_upto(player, moat_active, defenders@, i as int),
            decreases self.battlefield@.len() - i,
        {
            let permanent = &self.battlefield[i];
            if permanent.controller == player && !permanent.tapped && !permanent.attacking
                && permanent.detained_until_turn_of.is_none() && self.can_attack_with_moat(
                permanent,
                moat_active,
            ) {
                let ghost base = actions_view(actions@);
                let mut j: usize = 0;
                while j < defenders.len()
                    invariant
                        j <= defenders@.len(),
                        actions_view(actions@) == base + GameView::declarations_for(
                            permanent.card.id,
                            defenders@.take(j as int),
                        ),
                    decreases defenders@.len() - j,
                {
                    let ghost before = actions@;
                    actions.push(Action::DeclareAttacker { attacker: permanent.card.id, defender: defenders[j] });
                    proof {
                        assert(actions_view(actions@) =~= actions_view(before).push(
                            ActionView::DeclareAttacker { attacker: permanent.card.id, defender: defenders@[j as int] },
                        ));
                        assert(GameView::declarations_for(permanent.card.id, defenders@.take(j + 1))
                            =~= GameView::declarations_for(permanent.card.id, defenders@.take(j as int)).push(
                            ActionView::DeclareAttacker { attacker: permanent.card.id, defender: defenders@[j as int] },
                        ));
                    }
                    j = j + 1;
                }
                proof {
                    assert(defenders@.take(j as int) =~= defenders@);
                }
            }
            i = i + 1;
        }
        actions
    }

    /// Declares one attacker: it attacks this defender, is tapped unless it
    /// has vigilance, and counts as having attacked this turn.
    pub fn declare_attacker(&mut self, attacker: GameObjectId, defender: AttackDefender)
        ensures
            final(self)@ == old(self)@.spec_declare_attacker(attacker, defender),
    {
        let index = match self.permanent_position(attacker) {
            Some(index) => index,
            None => return,
        };
        let vigilance = self.permanent_has_executable_keyword(
            &self.battlefield[index],
            KeywordAbility::Vigilance,
        );
        let mut permanent = self.battlefield[index];
        permanent.attacking = true;
        permanent.attack_defender = Some(defender);
        permanent.attacked_this_turn = true;
        permanent.attacks_this_turn = permanent.attacks_this_turn.saturating_add(1);
        if !vigilance {
            permanent.tapped = true;
        }
        self.battlefield.set(index, permanent);
    }

    fn active_attackers(&self) -> (attackers: Vec<GameObjectId>)
        ensures
            attackers@ == self@.battlefield.filter_map(attacking_under(self.active_player)),
    {
        let mut attackers: Vec<GameObjectId> = Vec::new();
        let mut i: usize = 0;
        while i < self.battlefield.len()
            invariant
                i <= self.battlefield@.len(),
                attackers@ == self.battlefield@.take(i as int).filter_map(attacking_under(self.active_player)),
            decreases self.battlefield@.len() - i,
        {
            proof {
                self.battlefield@.lemma_filter_map_take_succ(attacking_under(self.active_player), i as int);
            }
            if self.battlefield[i].attacking && self.battlefield[i].controller == self.active_player {
                attackers.push(self.battlefield[i].card.id);
            }
            i = i + 1;
        }
        proof {
            assert(self.battlefield@.take(i as int) =~= self.battlefield@);
        }
        attackers
    }

    fn is_tapped_on_battlefield(&self, id: GameObjectId) -> (found: bool)
        ensures
            found == (first_match(self@.battlefield, tapped_with(id)) is Some),
    {
        let mut j: usize = 0;
        while j < self.battlefield.len()
            invariant
                j <= self.battlefield@.len(),
                forall|k: int| 0 <= k < j ==> !tapped_with(id)(self.battlefield@[k]),
            decreases self.battlefield@.len() - j,
        {
            if self.battlefield[j].card.id == id && self.battlefield[j].tapped {
                proof {
                    lemma_first_match_found(self.battlefield@, tapped_with(id), j as int);
                }
                return true;
            }
            j = j + 1;
        }
        proof {
            lemma_first_match_absent(self.battlefield@, tapped_with(id));
        }
        false
    }

    fn attack_trigger_events(&self, attackers: &Vec<GameObjectId>, size: u8) -> (events: Vec<TriggerEvent>)
        ensures
            events@ == attackers@.filter_map(self@.tapped_attack_event()) + attackers@.filter_map(
                self@.attack_event(size),
            ),
    {
        let mut tapped: Vec<TriggerEvent> = Vec::new();
        let mut i: usize = 0;
        while i < attackers.len()
            invariant
                i <= attackers@.len(),
                tapped@ == attackers@.take(i as int).filter_map(self@.tapped_attack_event()),
            decreases attackers@.len() - i,
        {
            proof {
                attackers@.lemma_filter_map_take_succ(self@.tapped_attack_event(), i as int);
            }
            let attacker = attackers[i];
            let found = self.is_tapped_on_battlefield(attacker);
            if found {
                tapped.push(TriggerEvent::Tapped { object: attacker, for_mana: false });
            }
            i = i + 1;
        }
        let mut attacks: Vec<TriggerEvent> = Vec::new();
        let mut i: usize = 0;
        while i < attackers.len()
            invariant
                i <= attackers@.len(),
                attacks@ == attackers@.take(i as int).filter_map(self@.attack_event(size)),
            decreases attackers@.len() - i,
        {
            proof {
                attackers@.lemma_filter_map_take_succ(self@.attack_event(size), i as int);
            }
            if let Some(index) = self.permanent_position(attackers[i]) {
                attacks.push(
                    TriggerEvent::Attacks {
                        object: attackers[i],
                        declaration_size: size,
                        attack_number: self.battlefield[index].attacks_this_turn,
                    },
                );
            }
            i = i + 1;
        }
        proof {
            assert(attackers@.take(attackers@.len() as int) =~= attackers@);
        }
        tapped.append(&mut attacks);
        tapped
    }

    /// CR 508.2: the whole declaration happens at once. The active player
    /// receives priority, and the declaration and its events are published.
    pub fn finish_declaring_attackers(&mut self)
        ensures
            final(self)@ == old(self)@.spec_finish_declaring_attackers(),
    {
        let attackers = self.active_attackers();
        let size: u8 = if attackers.len() > 255 {
            255
        } else {
            attackers.len() as u8
        };
        let mut events = self.attack_trigger_events(&attackers, size);
        self.attackers_declared = true;
        self.priority = self.active_player;
        self.consecutive_passes = 0;
        if attackers.len() == 0 {
            return;
        }
        let ghost start = self@;
        self.events.push(GameEvent::AttackDeclared { player: self.active_player, attackers });
        self.triggers.append(&mut events);
        proof {
            assert(self@.events =~= start.events.push(
                EventView::AttackDeclared { player: start.active_player, attackers: old(self)@.battlefield.filter_map(attacking_under(old(self).active_player)) },
            ));
        }
    }
}

} // verus!
