//! The characteristics a permanent or another object currently has: its
//! types, colours, keywords, power and toughness, after every effect the
//! engine models has been applied.
use vstd::prelude::*;

use crate::card::{
    card_definition, catalog, lemma_catalog_bounds, CardBehavior, CardDefinition, CardTypeSet,
    ColorSet, KeywordAbility, KeywordSet,
};
use crate::ids::{CardDefinitionId, GameObjectId, PlayerId};
use crate::state::{
    first_card_index, permanent_with, position_of, CardInstance, Emblem, Game, GameView, Permanent,
    PlayerState, PlayerView, StackObject, StackView, ZoneKind,
};

verus! {

/// The keywords the emblems of one player grant to the creatures they
/// control.
pub open spec fn emblem_keywords(emblems: Seq<Emblem>, controller: PlayerId) -> KeywordSet
    decreases emblems.len(),
{
    if emblems.len() == 0 {
        KeywordSet::spec_none()
    } else {
        let rest = emblem_keywords(emblems.drop_last(), controller);
        if emblems.last().controller == controller {
            rest.spec_union(emblems.last().keywords)
        } else {
            rest
        }
    }
}

/// The first card with this id in a list of cards.
pub open spec fn card_with(cards: Seq<CardInstance>, id: GameObjectId) -> Option<CardInstance> {
    if exists|i: int| first_card_index(cards, id, i) {
        Some(cards[choose|i: int| first_card_index(cards, id, i)])
    } else {
        None
    }
}

/// Finds the first card with this id in a list of cards.
pub fn find_card(cards: &Vec<CardInstance>, id: GameObjectId) -> (found: Option<CardInstance>)
    ensures
        found == card_with(cards@, id),
{
    let mut i: usize = 0;
    while i < cards.len()
        invariant
            i <= cards@.len(),
            forall|j: int| 0 <= j < i ==> cards@[j].id != id,
        decreases cards@.len() - i,
    {
        if cards[i].id == id {
            proof {
                assert(first_card_index(cards@, id, i as int));
                let k = choose|k: int| first_card_index(cards@, id, k);
                assert(first_card_index(cards@, id, k));
                if k < i {
                    assert(cards@[k].id != id);
                } else if k > i {
                    assert(cards@[i as int].id != id);
                }
            }
            return Some(cards[i]);
        }
        i = i + 1;
    }
    proof {
        if exists|k: int| first_card_index(cards@, id, k) {
            let k = choose|k: int| first_card_index(cards@, id, k);
            assert(cards@[k].id != id);
        }
    }
    None
}

/// The zone of a player holding this card, searched library, hand,
/// graveyard, exile and command zone in that order.
pub open spec fn card_in_player_zones(state: PlayerView, id: GameObjectId) -> Option<
    (ZoneKind, CardInstance),
> {
    if card_with(state.library, id) is Some {
        Some((ZoneKind::Library, card_with(state.library, id)->0))
    } else if card_with(state.hand, id) is Some {
        Some((ZoneKind::Hand, card_with(state.hand, id)->0))
    } else if card_with(state.graveyard, id) is Some {
        Some((ZoneKind::Graveyard, card_with(state.graveyard, id)->0))
    } else if card_with(state.exile, id) is Some {
        Some((ZoneKind::Exile, card_with(state.exile, id)->0))
    } else if card_with(state.command, id) is Some {
        Some((ZoneKind::Command, card_with(state.command, id)->0))
    } else {
        None
    }
}

fn card_in_player_zones_exec(state: &PlayerState, id: GameObjectId) -> (found: Option<
    (ZoneKind, CardInstance),
>)
    ensures
        found == card_in_player_zones(state@, id),
{
    if let Some(card) = find_card(&state.library, id) {
        return Some((ZoneKind::Library, card));
    }
    if let Some(card) = find_card(&state.hand, id) {
        return Some((ZoneKind::Hand, card));
    }
    if let Some(card) = find_card(&state.graveyard, id) {
        return Some((ZoneKind::Graveyard, card));
    }
    if let Some(card) = find_card(&state.exile, id) {
        return Some((ZoneKind::Exile, card));
    }
    if let Some(card) = find_card(&state.command, id) {
        return Some((ZoneKind::Command, card));
    }
    None
}


/// The definition of the first stack object with this id.
pub open spec fn stack_definition_in(stack: Seq<StackView>, id: GameObjectId) -> Option<
    CardDefinitionId,
> {
    if exists|i: int| 0 <= i < stack.len() && stack[i].id == id {
        let i = choose|i: int|
            0 <= i < stack.len() && stack[i].id == id && forall|j: int|
                0 <= j < i ==> stack[j].id != id;
        Some(stack[i].definition)
    } else {
        None
    }
}

fn find_stack_definition(stack: &Vec<StackObject>, id: GameObjectId) -> (definition: Option<
    CardDefinitionId,
>)
    ensures
        definition == stack_definition_in(stack@.map_values(|object: StackObject| object@), id),
{
    let ghost view = stack@.map_values(|object: StackObject| object@);
    let mut i: usize = 0;
    while i < stack.len()
        invariant
            i <= stack@.len(),
            view == stack@.map_values(|object: StackObject| object@),
            forall|j: int| 0 <= j < i ==> view[j].id != id,
        decreases stack@.len() - i,
    {
        assert(view[i as int] == stack@[i as int]@);
        if stack[i].id == id {
            proof {
                let ii = i as int;
                assert(0 <= ii < view.len() && view[ii].id == id && forall|j: int|
                    0 <= j < ii ==> view[j].id != id);
                let k = choose|k: int|
                    0 <= k < view.len() && view[k].id == id && forall|j: int|
                        0 <= j < k ==> view[j].id != id;
                if k < ii {
                    assert(view[k].id != id);
                } else if k > ii {
                    assert(view[ii].id != id);
                }
            }
            return Some(stack[i].definition);
        }
        i = i + 1;
    }
    None
}

impl Game {
    /// The keywords one player's emblems grant.
    pub fn emblem_keywords_for(&self, controller: PlayerId) -> (keywords: KeywordSet)
        ensures
            keywords == emblem_keywords(self.emblems@, controller),
    {
        let mut keywords = KeywordSet::none();
        let mut i: usize = 0;
        while i < self.emblems.len()
            invariant
                i <= self.emblems@.len(),
                keywords == emblem_keywords(self.emblems@.take(i as int), controller),
            decreases self.emblems@.len() - i,
        {
            proof {
                assert(self.emblems@.take(i + 1).drop_last() =~= self.emblems@.take(i as int));
            }
            let emblem = self.emblems[i];
            if emblem.controller == controller {
                keywords = keywords.union(emblem.keywords);
            }
            i = i + 1;
        }
        proof {
            assert(self.emblems@.take(i as int) =~= self.emblems@);
        }
        keywords
    }

    /// The rules a permanent currently has.
    pub fn effective_rules(&self, permanent: &Permanent) -> (rules: Option<CardDefinition>)
        ensures
            rules == self@.rules_of(*permanent),
    {
        card_definition(permanent.card.definition)
    }

    pub fn effective_keywords(&self, permanent: &Permanent) -> (keywords: KeywordSet)
        ensures
            keywords == self@.keywords_of(*permanent),
    {
        match card_definition(permanent.card.definition) {
            Some(definition) => {
                let own = definition.keywords.union(permanent.granted);
                if definition.types.creature {
                    own.union(self.emblem_keywords_for(permanent.controller))
                } else {
                    own
                }
            },
            None => permanent.granted,
        }
    }

    /// Whether the permanent has this keyword right now.
    pub fn permanent_has_executable_keyword(&self, permanent: &Permanent, keyword: KeywordAbility)
        -> (has: bool)
        ensures
            has == self@.has_keyword(*permanent, keyword),
    {
        self.effective_keywords(permanent).contains(keyword)
    }

    pub fn has_flying(&self, permanent: &Permanent) -> (has: bool)
        ensures
            has == self@.has_keyword(*permanent, KeywordAbility::Flying),
    {
        self.permanent_has_executable_keyword(permanent, KeywordAbility::Flying)
    }

    pub fn has_trample(&self, permanent: &Permanent) -> (has: bool)
        ensures
            has == self@.has_keyword(*permanent, KeywordAbility::Trample),
    {
        self.permanent_has_executable_keyword(permanent, KeywordAbility::Trample)
    }

    pub fn has_indestructible(&self, permanent: &Permanent) -> (has: bool)
        ensures
            has == self@.has_keyword(*permanent, KeywordAbility::Indestructible),
    {
        self.permanent_has_executable_keyword(permanent, KeywordAbility::Indestructible)
    }

    pub fn has_undying(&self, permanent: &Permanent) -> (has: bool)
        ensures
            has == self@.has_keyword(*permanent, KeywordAbility::Undying),
    {
        self.permanent_has_executable_keyword(permanent, KeywordAbility::Undying)
    }

    /// The permanent's power.
    pub fn power(&self, permanent: &Permanent) -> (power: Option<i32>)
        ensures
            match power {
                Some(value) => self@.power_of(*permanent) == Some(value as int),
                None => self@.power_of(*permanent) is None,
            },
    {
        proof {
            lemma_catalog_bounds(permanent.card.definition);
        }
        match card_definition(permanent.card.definition) {
            Some(definition) => match definition.power {
                Some(power) => Some(power + permanent.plus_one_counters as i32),
                None => None,
            },
            None => None,
        }
    }

    /// The permanent's toughness.
    pub fn toughness(&self, permanent: &Permanent) -> (toughness: Option<i32>)
        ensures
            match toughness {
                Some(value) => self@.toughness_of(*permanent) == Some(value as int),
                None => self@.toughness_of(*permanent) is None,
            },
    {
        proof {
            lemma_catalog_bounds(permanent.card.definition);
        }
        match card_definition(permanent.card.definition) {
            Some(definition) => match definition.toughness {
                Some(toughness) => Some(toughness + permanent.plus_one_counters as i32),
                None => None,
            },
            None => None,
        }
    }

    /// Power and toughness together, for the questions that need a creature.
    pub fn base_stats(&self, permanent: &Permanent) -> (stats: Option<(i32, i32)>)
        ensures
            match stats {
                Some((power, toughness)) => self@.power_of(*permanent) == Some(power as int)
                    && self@.toughness_of(*permanent) == Some(toughness as int),
                None => self@.power_of(*permanent) is None || self@.toughness_of(*permanent) is None,
            },
    {
        match (self.power(permanent), self.toughness(permanent)) {
            (Some(power), Some(toughness)) => Some((power, toughness)),
            _ => None,
        }
    }

    /// The permanent's card types.
    pub fn permanent_types(&self, permanent: &Permanent) -> (types: Option<CardTypeSet>)
        ensures
            types == self@.types_of(*permanent),
    {
        match card_definition(permanent.card.definition) {
            Some(definition) => Some(definition.types),
            None => None,
        }
    }

    pub fn is_creature_permanent(&self, permanent: &Permanent) -> (creature: bool)
        ensures
            creature == self@.is_creature(*permanent),
    {
        match self.permanent_types(permanent) {
            Some(types) => types.creature,
            None => false,
        }
    }

    pub fn is_planeswalker_permanent(&self, permanent: &Permanent) -> (planeswalker: bool)
        ensures
            planeswalker == self@.is_planeswalker(*permanent),
    {
        match self.permanent_types(permanent) {
            Some(types) => types.planeswalker,
            None => false,
        }
    }

    pub fn is_artifact_permanent(&self, permanent: &Permanent) -> (artifact: bool)
        ensures
            artifact == (self@.types_of(*permanent) matches Some(types) && types.artifact),
    {
        match self.permanent_types(permanent) {
            Some(types) => types.artifact,
            None => false,
        }
    }

    /// The colours a permanent actually is: a repainting replaces the
    /// printed colours rather than adding to them.
    pub fn effective_colors(&self, permanent: &Permanent, rules: &CardDefinition) -> (colors:
        ColorSet)
        ensures
            colors == match permanent.color_override {
                Some(colors) => colors,
                None => rules.colors,
            },
    {
        match permanent.color_override {
            Some(colors) => colors,
            None => rules.colors,
        }
    }

    /// Every colour question about a permanent goes through here.
    pub fn permanent_colors(&self, permanent: &Permanent) -> (colors: ColorSet)
        ensures
            colors == self@.colors_of(*permanent),
    {
        match self.effective_rules(permanent) {
            Some(rules) => self.effective_colors(permanent, &rules),
            None => ColorSet::none(),
        }
    }

    /// Whether the permanent has protection from any of these colours.
    pub fn is_protected_from_colors(&self, permanent: &Permanent, source_colors: ColorSet) -> (protected:
        bool)
        ensures
            protected == self@.spec_is_protected_from(*permanent, source_colors),
    {
        self.effective_keywords(permanent).protection.shares_with(source_colors)
    }

    /// A blocker whose colour the attacker is protected from can't block it.
    pub fn combat_is_protected(&self, blocker: &Permanent, attacker: &Permanent) -> (protected:
        bool)
        ensures
            protected == self@.spec_is_protected_from(*attacker, self@.colors_of(*blocker)),
    {
        let blocker_colors = self.permanent_colors(blocker);
        self.is_protected_from_colors(attacker, blocker_colors)
    }

    pub fn effective_behavior(&self, permanent: &Permanent) -> (behavior: Option<CardBehavior>)
        ensures
            behavior == self@.behavior_of(*permanent),
    {
        match card_definition(permanent.card.definition) {
            Some(definition) => Some(definition.behavior),
            None => None,
        }
    }

    pub fn card_in_nonbattlefield_zone(&self, id: GameObjectId) -> (found: Option<
        (ZoneKind, CardInstance),
    >)
        requires
            self.wf(),
        ensures
            found == self@.spec_card_in_nonbattlefield_zone(id),
    {
        let first = card_in_player_zones_exec(&self.players[0], id);
        if first.is_some() {
            return first;
        }
        card_in_player_zones_exec(&self.players[1], id)
    }

    pub fn outside_game_card(&self, id: GameObjectId) -> (found: Option<CardInstance>)
        requires
            self.wf(),
        ensures
            found == self@.spec_outside_game_card(id),
    {
        let first = find_card(&self.players[0].outside_game, id);
        if first.is_some() {
            return first;
        }
        find_card(&self.players[1].outside_game, id)
    }

    fn stack_definition(&self, id: GameObjectId) -> (definition: Option<CardDefinitionId>)
        ensures
            definition == self@.spec_stack_definition(id),
    {
        find_stack_definition(&self.stack, id)
    }

    pub fn object_definition(&self, object: GameObjectId) -> (definition: Option<CardDefinitionId>)
        requires
            self.wf(),
        ensures
            definition == self@.spec_object_definition(object),
    {
        if let Some(index) = self.permanent_position(object) {
            return Some(self.battlefield[index].card.definition);
        }
        if let Some(definition) = self.stack_definition(object) {
            return Some(definition);
        }
        if let Some((_, card)) = self.card_in_nonbattlefield_zone(object) {
            return Some(card.definition);
        }
        if let Some(card) = self.outside_game_card(object) {
            return Some(card.definition);
        }
        None
    }

    pub fn object_colors(&self, object: GameObjectId) -> (colors: ColorSet)
        requires
            self.wf(),
        ensures
            colors == self@.spec_object_colors(object),
    {
        if let Some(index) = self.permanent_position(object) {
            return self.permanent_colors(&self.battlefield[index]);
        }
        match self.object_definition(object) {
            Some(definition) => match card_definition(definition) {
                Some(card) => card.colors,
                None => ColorSet::none(),
            },
            None => ColorSet::none(),
        }
    }

    pub fn permanent_can_be_targeted_by(
        &self,
        permanent: &Permanent,
        controller: PlayerId,
        source: GameObjectId,
    ) -> (allowed: bool)
        requires
            self.wf(),
        ensures
            allowed == self@.spec_can_be_targeted_by(*permanent, controller, source),
    {
        !(self.is_protected_from_colors(permanent, self.object_colors(source))
            || self.permanent_has_executable_keyword(permanent, KeywordAbility::Shroud) || (
        permanent.controller != controller && self.permanent_has_executable_keyword(
            permanent,
            KeywordAbility::Hexproof,
        )))
    }

    /// What an Aura or Equipment is attached to.
    pub fn attached_host(&self, aura: GameObjectId) -> (host: Option<GameObjectId>)
        ensures
            host == match permanent_with(self.battlefield@, aura) {
                Some(permanent) => permanent.attached_to,
                None => None,
            },
    {
        match self.permanent_position(aura) {
            Some(index) => self.battlefield[index].attached_to,
            None => None,
        }
    }

    /// The controller of a battlefield permanent.
    pub fn permanent_controller(&self, id: GameObjectId) -> (controller: Option<PlayerId>)
        ensures
            controller == match permanent_with(self.battlefield@, id) {
                Some(permanent) => Some(permanent.controller),
                None => None,
            },
    {
        match self.permanent_position(id) {
            Some(index) => Some(self.battlefield[index].controller),
            None => None,
        }
    }

    pub fn source_controller_with_keyword(&self, source: GameObjectId, keyword: KeywordAbility) -> (controller:
        Option<PlayerId>)
        ensures
            controller == self@.spec_source_controller_with_keyword(source, keyword),
    {
        match self.permanent_position(source) {
            Some(index) => if self.permanent_has_executable_keyword(
                &self.battlefield[index],
                keyword,
            ) {
                Some(self.battlefield[index].controller)
            } else {
                None
            },
            None => None,
        }
    }

    /// The printed name a permanent presents.
    pub fn permanent_card_name(&self, id: GameObjectId) -> (name: Option<&'static str>)
        ensures
            name == match permanent_with(self.battlefield@, id) {
                Some(permanent) => match catalog(permanent.card.definition) {
                    Some(definition) => Some(definition.name),
                    None => None,
                },
                None => None,
            },
    {
        match self.permanent_position(id) {
            Some(index) => match card_definition(self.battlefield[index].card.definition) {
                Some(definition) => Some(definition.name),
                None => None,
            },
            None => None,
        }
    }

    /// The printed name of any object the engine can still find, wherever it
    /// is.
    pub fn object_card_name(&self, id: GameObjectId) -> (name: Option<&'static str>)
        requires
            self.wf(),
        ensures
            name == match self@.spec_object_definition(id) {
                Some(definition) => match catalog(definition) {
                    Some(card) => Some(card.name),
                    None => None,
                },
                None => None,
            },
    {
        match self.object_definition(id) {
            Some(definition) => match card_definition(definition) {
                Some(card) => Some(card.name),
                None => None,
            },
            None => None,
        }
    }

    pub fn count_behavior(&self, behavior: CardBehavior) -> (count: usize)
        ensures
            count == self@.behavior_count(self.battlefield@, behavior),
    {
        let mut count: usize = 0;
        let mut i: usize = 0;
        while i < self.battlefield.len()
            invariant
                i <= self.battlefield@.len(),
                count == self@.behavior_count(self.battlefield@.take(i as int), behavior),
                count <= i,
            decreases self.battlefield@.len() - i,
        {
            proof {
                assert(self.battlefield@.take(i + 1).drop_last() =~= self.battlefield@.take(
                    i as int,
                ));
            }
            if self.effective_behavior(&self.battlefield[i]) == Some(behavior) {
                count = count + 1;
            }
            i = i + 1;
        }
        proof {
            assert(self.battlefield@.take(i as int) =~= self.battlefield@);
        }
        count
    }
}

impl GameView {
    /// The card definition that gives this permanent its rules.
    pub open spec fn rules_of(self, permanent: Permanent) -> Option<CardDefinition> {
        catalog(permanent.card.definition)
    }

    /// Every keyword the permanent has: printed, granted until end of turn,
    /// and, for a creature, those its controller's emblems grant.
    pub open spec fn keywords_of(self, permanent: Permanent) -> KeywordSet {
        match catalog(permanent.card.definition) {
            Some(definition) => {
                let own = definition.keywords.spec_union(permanent.granted);
                if definition.types.creature {
                    own.spec_union(emblem_keywords(self.emblems, permanent.controller))
                } else {
                    own
                }
            },
            None => permanent.granted,
        }
    }

    pub open spec fn has_keyword(self, permanent: Permanent, keyword: KeywordAbility) -> bool {
        self.keywords_of(permanent).spec_contains(keyword)
    }

    /// The permanent's power, when it has one.
    pub open spec fn power_of(self, permanent: Permanent) -> Option<int> {
        match catalog(permanent.card.definition) {
            Some(definition) => match definition.power {
                Some(power) => Some(power + permanent.plus_one_counters),
                None => None,
            },
            None => None,
        }
    }

    /// The permanent's toughness, when it has one.
    pub open spec fn toughness_of(self, permanent: Permanent) -> Option<int> {
        match catalog(permanent.card.definition) {
            Some(definition) => match definition.toughness {
                Some(toughness) => Some(toughness + permanent.plus_one_counters),
                None => None,
            },
            None => None,
        }
    }

    pub open spec fn types_of(self, permanent: Permanent) -> Option<CardTypeSet> {
        match catalog(permanent.card.definition) {
            Some(definition) => Some(definition.types),
            None => None,
        }
    }

    pub open spec fn is_creature(self, permanent: Permanent) -> bool {
        self.types_of(permanent) matches Some(types) && types.creature
    }

    pub open spec fn is_planeswalker(self, permanent: Permanent) -> bool {
        self.types_of(permanent) matches Some(types) && types.planeswalker
    }

    pub open spec fn colors_of(self, permanent: Permanent) -> ColorSet {
        match catalog(permanent.card.definition) {
            Some(definition) => match permanent.color_override {
                Some(colors) => colors,
                None => definition.colors,
            },
            None => ColorSet::spec_none(),
        }
    }

    pub open spec fn spec_is_protected_from(self, permanent: Permanent, colors: ColorSet) -> bool {
        self.keywords_of(permanent).protection.spec_shares_with(colors)
    }

    /// What rules text a permanent follows beyond its keywords.
    pub open spec fn behavior_of(self, permanent: Permanent) -> Option<CardBehavior> {
        match catalog(permanent.card.definition) {
            Some(definition) => Some(definition.behavior),
            None => None,
        }
    }

    /// Where a game object's card is, when it is in a player's zone other
    /// than the battlefield. Player One's zones are searched first.
    pub open spec fn spec_card_in_nonbattlefield_zone(self, id: GameObjectId) -> Option<
        (ZoneKind, CardInstance),
    > {
        if card_in_player_zones(self.players[0], id) is Some {
            card_in_player_zones(self.players[0], id)
        } else {
            card_in_player_zones(self.players[1], id)
        }
    }

    /// A card outside the game, in either player's sideboard.
    pub open spec fn spec_outside_game_card(self, id: GameObjectId) -> Option<CardInstance> {
        if card_with(self.players[0].outside_game, id) is Some {
            card_with(self.players[0].outside_game, id)
        } else {
            card_with(self.players[1].outside_game, id)
        }
    }

    /// The definition of the first stack object with this id.
    pub open spec fn spec_stack_definition(self, id: GameObjectId) -> Option<CardDefinitionId> {
        stack_definition_in(self.stack, id)
    }

    /// The card definition behind a game object, wherever it currently is:
    /// the battlefield, the stack, a player's zone, or outside the game.
    pub open spec fn spec_object_definition(self, object: GameObjectId) -> Option<
        CardDefinitionId,
    > {
        if permanent_with(self.battlefield, object) is Some {
            Some(permanent_with(self.battlefield, object)->0.card.definition)
        } else if self.spec_stack_definition(object) is Some {
            self.spec_stack_definition(object)
        } else if self.spec_card_in_nonbattlefield_zone(object) is Some {
            Some(self.spec_card_in_nonbattlefield_zone(object).unwrap().1.definition)
        } else if self.spec_outside_game_card(object) is Some {
            Some(self.spec_outside_game_card(object)->0.definition)
        } else {
            None
        }
    }

    /// The colours of any object: a permanent's current colours, otherwise
    /// the printed colours of the card behind it.
    pub open spec fn spec_object_colors(self, object: GameObjectId) -> ColorSet {
        match permanent_with(self.battlefield, object) {
            Some(permanent) => self.colors_of(permanent),
            None => match self.spec_object_definition(object) {
                Some(definition) => match catalog(definition) {
                    Some(card) => card.colors,
                    None => ColorSet::spec_none(),
                },
                None => ColorSet::spec_none(),
            },
        }
    }

    /// Whether this player's spell or ability from `source` may target the
    /// permanent: protection from the source's colour, shroud, and an
    /// opponent's hexproof all forbid it.
    pub open spec fn spec_can_be_targeted_by(
        self,
        permanent: Permanent,
        controller: PlayerId,
        source: GameObjectId,
    ) -> bool {
        !(self.spec_is_protected_from(permanent, self.spec_object_colors(source))
            || self.has_keyword(permanent, KeywordAbility::Shroud) || (permanent.controller
            != controller && self.has_keyword(permanent, KeywordAbility::Hexproof)))
    }

    /// The controller of the permanent `source` when it has this keyword:
    /// the player a lifelink gain goes to, or whose deathtouch it is.
    pub open spec fn spec_source_controller_with_keyword(
        self,
        source: GameObjectId,
        keyword: KeywordAbility,
    ) -> Option<PlayerId> {
        match permanent_with(self.battlefield, source) {
            Some(permanent) => if self.has_keyword(permanent, keyword) {
                Some(permanent.controller)
            } else {
                None
            },
            None => None,
        }
    }

    /// How many permanents follow this behaviour, as Moat counts whether its
    /// rule is in force at all.
    pub open spec fn behavior_count(self, battlefield: Seq<Permanent>, behavior: CardBehavior) -> int
        decreases battlefield.len(),
    {
        if battlefield.len() == 0 {
            0
        } else {
            self.behavior_count(battlefield.drop_last(), behavior) + if self.behavior_of(
                battlefield.last(),
            ) == Some(behavior) {
                1int
            } else {
                0int
            }
        }
    }
}

} // verus!
