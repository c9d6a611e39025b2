//! What the catalog says about a card: types, colours, printed numbers and
//! keyword abilities.
use vstd::prelude::*;

use crate::ids::CardDefinitionId;

pub mod cards;

verus! {

/// The card types a rule can ask about.
#[derive(Clone, Copy, Debug, PartialEq, Eq, Structural)]
pub enum CardType {
    Creature,
    Planeswalker,
    Land,
    Artifact,
    Enchantment,
    Instant,
    Sorcery,
}

/// A set of card types, one flag per type.
#[derive(Clone, Copy, Debug, PartialEq, Eq, Structural)]
pub struct CardTypeSet {
    pub creature: bool,
    pub planeswalker: bool,
    pub land: bool,
    pub artifact: bool,
    pub enchantment: bool,
    pub instant: bool,
    pub sorcery: bool,
}

impl CardTypeSet {
    pub open spec fn spec_none() -> CardTypeSet {
        CardTypeSet {
            creature: false,
            planeswalker: false,
            land: false,
            artifact: false,
            enchantment: false,
            instant: false,
            sorcery: false,
        }
    }

    /// The empty set of types.
    #[verifier::when_used_as_spec(spec_none)]
    pub fn none() -> (types: CardTypeSet)
        ensures
            types == Self::spec_none(),
    {
        CardTypeSet {
            creature: false,
            planeswalker: false,
            land: false,
            artifact: false,
            enchantment: false,
            instant: false,
            sorcery: false,
        }
    }

    pub open spec fn spec_contains(self, card_type: CardType) -> bool {
        match card_type {
            CardType::Creature => self.creature,
            CardType::Planeswalker => self.planeswalker,
            CardType::Land => self.land,
            CardType::Artifact => self.artifact,
            CardType::Enchantment => self.enchantment,
            CardType::Instant => self.instant,
            CardType::Sorcery => self.sorcery,
        }
    }

    #[verifier::when_used_as_spec(spec_contains)]
    pub fn contains(self, card_type: CardType) -> (has: bool)
        ensures
            has == self.spec_contains(card_type),
    {
        match card_type {
            CardType::Creature => self.creature,
            CardType::Planeswalker => self.planeswalker,
            CardType::Land => self.land,
            CardType::Artifact => self.artifact,
            CardType::Enchantment => self.enchantment,
            CardType::Instant => self.instant,
            CardType::Sorcery => self.sorcery,
        }
    }

    /// Whether a permanent with these types is a permanent card's kind of
    /// thing rather than an instant or sorcery.
    pub open spec fn spec_is_permanent(self) -> bool {
        self.creature || self.planeswalker || self.land || self.artifact || self.enchantment
    }
}

/// The five colours, plus colourless mana.
#[derive(Clone, Copy, Debug, PartialEq, Eq, Structural)]
pub enum ManaColor {
    White,
    Blue,
    Black,
    Red,
    Green,
    Colorless,
}

/// A set of colours, one flag per colour.
#[derive(Clone, Copy, Debug, PartialEq, Eq, Structural)]
pub struct ColorSet {
    pub white: bool,
    pub blue: bool,
    pub black: bool,
    pub red: bool,
    pub green: bool,
}

impl ColorSet {
    pub open spec fn spec_none() -> ColorSet {
        ColorSet { white: false, blue: false, black: false, red: false, green: false }
    }

    /// No colour at all.
    #[verifier::when_used_as_spec(spec_none)]
    pub fn none() -> (colors: ColorSet)
        ensures
            colors == Self::spec_none(),
    {
        ColorSet { white: false, blue: false, black: false, red: false, green: false }
    }

    pub open spec fn spec_has(self, color: ManaColor) -> bool {
        match color {
            ManaColor::White => self.white,
            ManaColor::Blue => self.blue,
            ManaColor::Black => self.black,
            ManaColor::Red => self.red,
            ManaColor::Green => self.green,
            ManaColor::Colorless => false,
        }
    }

    #[verifier::when_used_as_spec(spec_has)]
    pub fn has(self, color: ManaColor) -> (has: bool)
        ensures
            has == self.spec_has(color),
    {
        match color {
            ManaColor::White => self.white,
            ManaColor::Blue => self.blue,
            ManaColor::Black => self.black,
            ManaColor::Red => self.red,
            ManaColor::Green => self.green,
            ManaColor::Colorless => false,
        }
    }

    /// Whether the two sets have a colour in common.
    pub open spec fn spec_shares_with(self, other: ColorSet) -> bool {
        (self.white && other.white) || (self.blue && other.blue) || (self.black && other.black)
            || (self.red && other.red) || (self.green && other.green)
    }

    #[verifier::when_used_as_spec(spec_shares_with)]
    pub fn shares_with(self, other: ColorSet) -> (shares: bool)
        ensures
            shares == self.spec_shares_with(other),
    {
        (self.white && other.white) || (self.blue && other.blue) || (self.black && other.black)
            || (self.red && other.red) || (self.green && other.green)
    }

    pub open spec fn spec_union(self, other: ColorSet) -> ColorSet {
        ColorSet {
            white: self.white || other.white,
            blue: self.blue || other.blue,
            black: self.black || other.black,
            red: self.red || other.red,
            green: self.green || other.green,
        }
    }

    #[verifier::when_used_as_spec(spec_union)]
    pub fn union(self, other: ColorSet) -> (both: ColorSet)
        ensures
            both == self.spec_union(other),
    {
        ColorSet {
            white: self.white || other.white,
            blue: self.blue || other.blue,
            black: self.black || other.black,
            red: self.red || other.red,
            green: self.green || other.green,
        }
    }
}

/// A quality that "bands with other" names (CR 702.21j).
#[derive(Clone, Copy, Debug, PartialEq, Eq, Structural)]
pub enum BandingQuality {
    Legends,
    Wolves,
}

/// The keyword abilities the engine understands.
#[derive(Clone, Copy, Debug, PartialEq, Eq, Structural)]
pub enum KeywordAbility {
    Banding,
    BandsWithOther(BandingQuality),
    Flying,
    Reach,
    Haste,
    Defender,
    Vigilance,
    FirstStrike,
    DoubleStrike,
    Trample,
    Deathtouch,
    Lifelink,
    Intimidate,
    Hexproof,
    Shroud,
    Indestructible,
    Unleash,
    Undying,
    ProtectionFrom(ManaColor),
}

/// A set of keyword abilities, one flag per keyword; protection is a set of
/// colours.
#[derive(Clone, Copy, Debug, PartialEq, Eq, Structural)]
pub struct KeywordSet {
    pub banding: bool,
    pub bands_with_legends: bool,
    pub bands_with_wolves: bool,
    pub flying: bool,
    pub reach: bool,
    pub haste: bool,
    pub defender: bool,
    pub vigilance: bool,
    pub first_strike: bool,
    pub double_strike: bool,
    pub trample: bool,
    pub deathtouch: bool,
    pub lifelink: bool,
    pub intimidate: bool,
    pub hexproof: bool,
    pub shroud: bool,
    pub indestructible: bool,
    pub unleash: bool,
    pub undying: bool,
    pub protection: ColorSet,
}

impl KeywordSet {
    pub open spec fn spec_none() -> KeywordSet {
        KeywordSet {
            banding: false,
            bands_with_legends: false,
            bands_with_wolves: false,
            flying: false,
            reach: false,
            haste: false,
            defender: false,
            vigilance: false,
            first_strike: false,
            double_strike: false,
            trample: false,
            deathtouch: false,
            lifelink: false,
            intimidate: false,
            hexproof: false,
            shroud: false,
            indestructible: false,
            unleash: false,
            undying: false,
            protection: ColorSet::spec_none(),
        }
    }

    /// No keyword at all.
    #[verifier::when_used_as_spec(spec_none)]
    pub fn none() -> (keywords: KeywordSet)
        ensures
            keywords == Self::spec_none(),
    {
        KeywordSet {
            banding: false,
            bands_with_legends: false,
            bands_with_wolves: false,
            flying: false,
            reach: false,
            haste: false,
            defender: false,
            vigilance: false,
            first_strike: false,
            double_strike: false,
            trample: false,
            deathtouch: false,
            lifelink: false,
            intimidate: false,
            hexproof: false,
            shroud: false,
            indestructible: false,
            unleash: false,
            undying: false,
            protection: ColorSet::none(),
        }
    }

    pub open spec fn spec_contains(self, keyword: KeywordAbility) -> bool {
        match keyword {
            KeywordAbility::Banding => self.banding,
            KeywordAbility::BandsWithOther(quality) => match quality {
                BandingQuality::Legends => self.bands_with_legends,
                BandingQuality::Wolves => self.bands_with_wolves,
            },
            KeywordAbility::Flying => self.flying,
            KeywordAbility::Reach => self.reach,
            KeywordAbility::Haste => self.haste,
            KeywordAbility::Defender => self.defender,
            KeywordAbility::Vigilance => self.vigilance,
            KeywordAbility::FirstStrike => self.first_strike,
            KeywordAbility::DoubleStrike => self.double_strike,
            KeywordAbility::Trample => self.trample,
            KeywordAbility::Deathtouch => self.deathtouch,
            KeywordAbility::Lifelink => self.lifelink,
            KeywordAbility::Intimidate => self.intimidate,
            KeywordAbility::Hexproof => self.hexproof,
            KeywordAbility::Shroud => self.shroud,
            KeywordAbility::Indestructible => self.indestructible,
            KeywordAbility::Unleash => self.unleash,
            KeywordAbility::Undying => self.undying,
            KeywordAbility::ProtectionFrom(color) => self.protection.spec_has(color),
        }
    }

    #[verifier::when_used_as_spec(spec_contains)]
    pub fn contains(self, keyword: KeywordAbility) -> (has: bool)
        ensures
            has == self.spec_contains(keyword),
    {
        match keyword {
            KeywordAbility::Banding => self.banding,
            KeywordAbility::BandsWithOther(quality) => match quality {
                BandingQuality::Legends => self.bands_with_legends,
                BandingQuality::Wolves => self.bands_with_wolves,
            },
            KeywordAbility::Flying => self.flying,
            KeywordAbility::Reach => self.reach,
            KeywordAbility::Haste => self.haste,
            KeywordAbility::Defender => self.defender,
            KeywordAbility::Vigilance => self.vigilance,
            KeywordAbility::FirstStrike => self.first_strike,
            KeywordAbility::DoubleStrike => self.double_strike,
            KeywordAbility::Trample => self.trample,
            KeywordAbility::Deathtouch => self.deathtouch,
            KeywordAbility::Lifelink => self.lifelink,
            KeywordAbility::Intimidate => self.intimidate,
            KeywordAbility::Hexproof => self.hexproof,
            KeywordAbility::Shroud => self.shroud,
            KeywordAbility::Indestructible => self.indestructible,
            KeywordAbility::Unleash => self.unleash,
            KeywordAbility::Undying => self.undying,
            KeywordAbility::ProtectionFrom(color) => self.protection.has(color),
        }
    }

    /// This set with one more keyword.
    pub open spec fn spec_with(self, keyword: KeywordAbility) -> KeywordSet {
        match keyword {
            KeywordAbility::Banding => KeywordSet { banding: true, ..self },
            KeywordAbility::BandsWithOther(quality) => match quality {
                BandingQuality::Legends => KeywordSet { bands_with_legends: true, ..self },
                BandingQuality::Wolves => KeywordSet { bands_with_wolves: true, ..self },
            },
            KeywordAbility::Flying => KeywordSet { flying: true, ..self },
            KeywordAbility::Reach => KeywordSet { reach: true, ..self },
            KeywordAbility::Haste => KeywordSet { haste: true, ..self },
            KeywordAbility::Defender => KeywordSet { defender: true, ..self },
            KeywordAbility::Vigilance => KeywordSet { vigilance: true, ..self },
            KeywordAbility::FirstStrike => KeywordSet { first_strike: true, ..self },
            KeywordAbility::DoubleStrike => KeywordSet { double_strike: true, ..self },
            KeywordAbility::Trample => KeywordSet { trample: true, ..self },
            KeywordAbility::Deathtouch => KeywordSet { deathtouch: true, ..self },
            KeywordAbility::Lifelink => KeywordSet { lifelink: true, ..self },
            KeywordAbility::Intimidate => KeywordSet { intimidate: true, ..self },
            KeywordAbility::Hexproof => KeywordSet { hexproof: true, ..self },
            KeywordAbility::Shroud => KeywordSet { shroud: true, ..self },
            KeywordAbility::Indestructible => KeywordSet { indestructible: true, ..self },
            KeywordAbility::Unleash => KeywordSet { unleash: true, ..self },
            KeywordAbility::Undying => KeywordSet { undying: true, ..self },
            KeywordAbility::ProtectionFrom(color) => KeywordSet {
                protection: match color {
                    ManaColor::White => ColorSet { white: true, ..self.protection },
                    ManaColor::Blue => ColorSet { blue: true, ..self.protection },
                    ManaColor::Black => ColorSet { black: true, ..self.protection },
                    ManaColor::Red => ColorSet { red: true, ..self.protection },
                    ManaColor::Green => ColorSet { green: true, ..self.protection },
                    ManaColor::Colorless => self.protection,
                },
                ..self
            },
        }
    }

    #[verifier::when_used_as_spec(spec_with)]
    pub fn with(self, keyword: KeywordAbility) -> (keywords: KeywordSet)
        ensures
            keywords == self.spec_with(keyword),
    {
        match keyword {
            KeywordAbility::Banding => KeywordSet { banding: true, ..self },
            KeywordAbility::BandsWithOther(quality) => match quality {
                BandingQuality::Legends => KeywordSet { bands_with_legends: true, ..self },
                BandingQuality::Wolves => KeywordSet { bands_with_wolves: true, ..self },
            },
            KeywordAbility::Flying => KeywordSet { flying: true, ..self },
            KeywordAbility::Reach => KeywordSet { reach: true, ..self },
            KeywordAbility::Haste => KeywordSet { haste: true, ..self },
            KeywordAbility::Defender => KeywordSet { defender: true, ..self },
            KeywordAbility::Vigilance => KeywordSet { vigilance: true, ..self },
            KeywordAbility::FirstStrike => KeywordSet { first_strike: true, ..self },
            KeywordAbility::DoubleStrike => KeywordSet { double_strike: true, ..self },
            KeywordAbility::Trample => KeywordSet { trample: true, ..self },
            KeywordAbility::Deathtouch => KeywordSet { deathtouch: true, ..self },
            KeywordAbility::Lifelink => KeywordSet { lifelink: true, ..self },
            KeywordAbility::Intimidate => KeywordSet { intimidate: true, ..self },
            KeywordAbility::Hexproof => KeywordSet { hexproof: true, ..self },
            KeywordAbility::Shroud => KeywordSet { shroud: true, ..self },
            KeywordAbility::Indestructible => KeywordSet { indestructible: true, ..self },
            KeywordAbility::Unleash => KeywordSet { unleash: true, ..self },
            KeywordAbility::Undying => KeywordSet { undying: true, ..self },
            KeywordAbility::ProtectionFrom(color) => KeywordSet {
                protection: match color {
                    ManaColor::White => ColorSet { white: true, ..self.protection },
                    ManaColor::Blue => ColorSet { blue: true, ..self.protection },
                    ManaColor::Black => ColorSet { black: true, ..self.protection },
                    ManaColor::Red => ColorSet { red: true, ..self.protection },
                    ManaColor::Green => ColorSet { green: true, ..self.protection },
                    ManaColor::Colorless => self.protection,
                },
                ..self
            },
        }
    }

    pub open spec fn spec_union(self, other: KeywordSet) -> KeywordSet {
        KeywordSet {
            banding: self.banding || other.banding,
            bands_with_legends: self.bands_with_legends || other.bands_with_legends,
            bands_with_wolves: self.bands_with_wolves || other.bands_with_wolves,
            flying: self.flying || other.flying,
            reach: self.reach || other.reach,
            haste: self.haste || other.haste,
            defender: self.defender || other.defender,
            vigilance: self.vigilance || other.vigilance,
            first_strike: self.first_strike || other.first_strike,
            double_strike: self.double_strike || other.double_strike,
            trample: self.trample || other.trample,
            deathtouch: self.deathtouch || other.deathtouch,
            lifelink: self.lifelink || other.lifelink,
            intimidate: self.intimidate || other.intimidate,
            hexproof: self.hexproof || other.hexproof,
            shroud: self.shroud || other.shroud,
            indestructible: self.indestructible || other.indestructible,
            unleash: self.unleash || other.unleash,
            undying: self.undying || other.undying,
            protection: self.protection.spec_union(other.protection),
        }
    }

    /// Every keyword either set has.
    #[verifier::when_used_as_spec(spec_union)]
    pub fn union(self, other: KeywordSet) -> (both: KeywordSet)
        ensures
            both == self.spec_union(other),
    {
        KeywordSet {
            banding: self.banding || other.banding,
            bands_with_legends: self.bands_with_legends || other.bands_with_legends,
            bands_with_wolves: self.bands_with_wolves || other.bands_with_wolves,
            flying: self.flying || other.flying,
            reach: self.reach || other.reach,
            haste: self.haste || other.haste,
            defender: self.defender || other.defender,
            vigilance: self.vigilance || other.vigilance,
            first_strike: self.first_strike || other.first_strike,
            double_strike: self.double_strike || other.double_strike,
            trample: self.trample || other.trample,
            deathtouch: self.deathtouch || other.deathtouch,
            lifelink: self.lifelink || other.lifelink,
            intimidate: self.intimidate || other.intimidate,
            hexproof: self.hexproof || other.hexproof,
            shroud: self.shroud || other.shroud,
            indestructible: self.indestructible || other.indestructible,
            unleash: self.unleash || other.unleash,
            undying: self.undying || other.undying,
            protection: self.protection.union(other.protection),
        }
    }
}

/// Rules text the engine implements by name rather than through keywords.
#[derive(Clone, Copy, Debug, PartialEq, Eq, Structural)]
pub enum CardBehavior {
    Vanilla,
    /// Creatures without flying can't attack.
    Moat,
    /// Can't block creatures with power 2 or greater.
    IronclawOrcs,
}

/// A companion's deck-building condition (CR 702.139).
#[derive(Clone, Copy, Debug, PartialEq, Eq, Structural)]
pub enum CompanionRule {
    /// Each permanent card in the starting deck has at most this mana value.
    PermanentManaValueAtMost(u16),
}

/// The printed characteristics of one catalog entry.
#[derive(Clone, Copy, Debug, PartialEq, Eq)]
pub struct CardDefinition {
    pub id: CardDefinitionId,
    pub name: &'static str,
    pub types: CardTypeSet,
    pub colors: ColorSet,
    pub legendary: bool,
    pub wolf: bool,
    pub power: Option<i32>,
    pub toughness: Option<i32>,
    pub loyalty: u16,
    pub mana_value: u16,
    pub keywords: KeywordSet,
    pub behavior: CardBehavior,
    pub companion: Option<CompanionRule>,
}

/// The catalog entry with this number. Hidden by default: the facts proofs
/// need about it are stated by lemmas.
#[verifier::opaque]
pub open spec fn catalog(id: CardDefinitionId) -> Option<CardDefinition> {
    if id == cards::MOUNTAIN {
        Some(CardDefinition {
            id: cards::MOUNTAIN,
            name: "Mountain",
            types: CardTypeSet { land: true, ..CardTypeSet::none() },
            colors: ColorSet::none(),
            legendary: false,
            wolf: false,
            power: None,
            toughness: None,
            loyalty: 0u16,
            mana_value: 0u16,
            keywords: KeywordSet::none(),
            behavior: CardBehavior::Vanilla,
            companion: None,
        })
    } else if id == cards::PLAINS {
        Some(CardDefinition {
            id: cards::PLAINS,
            name: "Plains",
            types: CardTypeSet { land: true, ..CardTypeSet::none() },
            colors: ColorSet::none(),
            legendary: false,
            wolf: false,
            power: None,
            toughness: None,
            loyalty: 0u16,
            mana_value: 0u16,
            keywords: KeywordSet::none(),
            behavior: CardBehavior::Vanilla,
            companion: None,
        })
    } else if id == cards::SAVANNAH_LIONS {
        Some(CardDefinition {
            id: cards::SAVANNAH_LIONS,
            name: "Savannah Lions",
            types: CardTypeSet { creature: true, ..CardTypeSet::none() },
            colors: ColorSet { white: true, ..ColorSet::none() },
            legendary: false,
            wolf: false,
            power: Some(2i32),
            toughness: Some(1i32),
            loyalty: 0u16,
            mana_value: 1u16,
            keywords: KeywordSet::none(),
            behavior: CardBehavior::Vanilla,
            companion: None,
        })
    } else if id == cards::GRIZZLY_BEARS {
        Some(CardDefinition {
            id: cards::GRIZZLY_BEARS,
            name: "Grizzly Bears",
            types: CardTypeSet { creature: true, ..CardTypeSet::none() },
            colors: ColorSet { green: true, ..ColorSet::none() },
            legendary: false,
            wolf: false,
            power: Some(2i32),
            toughness: Some(2i32),
            loyalty: 0u16,
            mana_value: 2u16,
            keywords: KeywordSet::none(),
            behavior: CardBehavior::Vanilla,
            companion: None,
        })
    } else if id == cards::SERRA_ANGEL {
        Some(CardDefinition {
            id: cards::SERRA_ANGEL,
            name: "Serra Angel",
            types: CardTypeSet { creature: true, ..CardTypeSet::none() },
            colors: ColorSet { white: true, ..ColorSet::none() },
            legendary: false,
            wolf: false,
            power: Some(4i32),
            toughness: Some(4i32),
            loyalty: 0u16,
            mana_value: 5u16,
            keywords: KeywordSet { flying: true, vigilance: true, ..KeywordSet::none() },
            behavior: CardBehavior::Vanilla,
            companion: None,
        })
    } else if id == cards::BALL_LIGHTNING {
        Some(CardDefinition {
            id: cards::BALL_LIGHTNING,
            name: "Ball Lightning",
            types: CardTypeSet { creature: true, ..CardTypeSet::none() },
            colors: ColorSet { red: true, ..ColorSet::none() },
            legendary: false,
            wolf: false,
            power: Some(6i32),
            toughness: Some(1i32),
            loyalty: 0u16,
            mana_value: 3u16,
            keywords: KeywordSet { trample: true, haste: true, ..KeywordSet::none() },
            behavior: CardBehavior::Vanilla,
            companion: None,
        })
    } else if id == cards::WALL_OF_STONE {
        Some(CardDefinition {
            id: cards::WALL_OF_STONE,
            name: "Wall of Stone",
            types: CardTypeSet { creature: true, ..CardTypeSet::none() },
            colors: ColorSet { red: true, ..ColorSet::none() },
            legendary: false,
            wolf: false,
            power: Some(0i32),
            toughness: Some(8i32),
            loyalty: 0u16,
            mana_value: 3u16,
            keywords: KeywordSet { defender: true, ..KeywordSet::none() },
            behavior: CardBehavior::Vanilla,
            companion: None,
        })
    } else if id == cards::GIANT_SPIDER {
        Some(CardDefinition {
            id: cards::GIANT_SPIDER,
            name: "Giant Spider",
            types: CardTypeSet { creature: true, ..CardTypeSet::none() },
            colors: ColorSet { green: true, ..ColorSet::none() },
            legendary: false,
            wolf: false,
            power: Some(2i32),
            toughness: Some(4i32),
            loyalty: 0u16,
            mana_value: 4u16,
            keywords: KeywordSet { reach: true, ..KeywordSet::none() },
            behavior: CardBehavior::Vanilla,
            companion: None,
        })
    } else if id == cards::BENALISH_HERO {
        Some(CardDefinition {
            id: cards::BENALISH_HERO,
            name: "Benalish Hero",
            types: CardTypeSet { creature: true, ..CardTypeSet::none() },
            colors: ColorSet { white: true, ..ColorSet::none() },
            legendary: false,
            wolf: false,
            power: Some(1i32),
            toughness: Some(1i32),
            loyalty: 0u16,
            mana_value: 1u16,
            keywords: KeywordSet { banding: true, ..KeywordSet::none() },
            behavior: CardBehavior::Vanilla,
            companion: None,
        })
    } else if id == cards::MESA_PEGASUS {
        Some(CardDefinition {
            id: cards::MESA_PEGASUS,
            name: "Mesa Pegasus",
            types: CardTypeSet { creature: true, ..CardTypeSet::none() },
            colors: ColorSet { white: true, ..ColorSet::none() },
            legendary: false,
            wolf: false,
            power: Some(1i32),
            toughness: Some(1i32),
            loyalty: 0u16,
            mana_value: 2u16,
            keywords: KeywordSet { flying: true, banding: true, ..KeywordSet::none() },
            behavior: CardBehavior::Vanilla,
            companion: None,
        })
    } else if id == cards::WOLVES_OF_THE_HUNT {
        Some(CardDefinition {
            id: cards::WOLVES_OF_THE_HUNT,
            name: "Wolves of the Hunt",
            types: CardTypeSet { creature: true, ..CardTypeSet::none() },
            colors: ColorSet { green: true, ..ColorSet::none() },
            legendary: false,
            wolf: true,
            power: Some(1i32),
            toughness: Some(1i32),
            loyalty: 0u16,
            mana_value: 3u16,
            keywords: KeywordSet { bands_with_wolves: true, ..KeywordSet::none() },
            behavior: CardBehavior::Vanilla,
            companion: None,
        })
    } else if id == cards::IRONCLAW_ORCS {
        Some(CardDefinition {
            id: cards::IRONCLAW_ORCS,
            name: "Ironclaw Orcs",
            types: CardTypeSet { creature: true, ..CardTypeSet::none() },
            colors: ColorSet { red: true, ..ColorSet::none() },
            legendary: false,
            wolf: false,
            power: Some(2i32),
            toughness: Some(2i32),
            loyalty: 0u16,
            mana_value: 2u16,
            keywords: KeywordSet::none(),
            behavior: CardBehavior::IronclawOrcs,
            companion: None,
        })
    } else if id == cards::MOAT {
        Some(CardDefinition {
            id: cards::MOAT,
            name: "Moat",
            types: CardTypeSet { enchantment: true, ..CardTypeSet::none() },
            colors: ColorSet { white: true, ..ColorSet::none() },
            legendary: false,
            wolf: false,
            power: None,
            toughness: None,
            loyalty: 0u16,
            mana_value: 4u16,
            keywords: KeywordSet::none(),
            behavior: CardBehavior::Moat,
            companion: None,
        })
    } else if id == cards::DOMRI_RADE {
        Some(CardDefinition {
            id: cards::DOMRI_RADE,
            name: "Domri Rade",
            types: CardTypeSet { planeswalker: true, ..CardTypeSet::none() },
            colors: ColorSet { red: true, green: true, ..ColorSet::none() },
            legendary: false,
            wolf: false,
            power: None,
            toughness: None,
            loyalty: 3u16,
            mana_value: 3u16,
            keywords: KeywordSet::none(),
            behavior: CardBehavior::Vanilla,
            companion: None,
        })
    } else if id == cards::LURRUS_OF_THE_DREAM_DEN {
        Some(CardDefinition {
            id: cards::LURRUS_OF_THE_DREAM_DEN,
            name: "Lurrus of the Dream-Den",
            types: CardTypeSet { creature: true, ..CardTypeSet::none() },
            colors: ColorSet { white: true, black: true, ..ColorSet::none() },
            legendary: true,
            wolf: false,
            power: Some(3i32),
            toughness: Some(2i32),
            loyalty: 0u16,
            mana_value: 3u16,
            keywords: KeywordSet { lifelink: true, ..KeywordSet::none() },
            behavior: CardBehavior::Vanilla,
            companion: Some(CompanionRule::PermanentManaValueAtMost(2)),
        })
    } else if id == cards::TOBIAS_ANDRION {
        Some(CardDefinition {
            id: cards::TOBIAS_ANDRION,
            name: "Tobias Andrion",
            types: CardTypeSet { creature: true, ..CardTypeSet::none() },
            colors: ColorSet { white: true, blue: true, ..ColorSet::none() },
            legendary: true,
            wolf: false,
            power: Some(4i32),
            toughness: Some(4i32),
            loyalty: 0u16,
            mana_value: 5u16,
            keywords: KeywordSet::none(),
            behavior: CardBehavior::Vanilla,
            companion: None,
        })
    } else if id == cards::LIGHTNING_BOLT {
        Some(CardDefinition {
            id: cards::LIGHTNING_BOLT,
            name: "Lightning Bolt",
            types: CardTypeSet { instant: true, ..CardTypeSet::none() },
            colors: ColorSet { red: true, ..ColorSet::none() },
            legendary: false,
            wolf: false,
            power: None,
            toughness: None,
            loyalty: 0u16,
            mana_value: 1u16,
            keywords: KeywordSet::none(),
            behavior: CardBehavior::Vanilla,
            companion: None,
        })
    } else if id == cards::TYPHOID_RATS {
        Some(CardDefinition {
            id: cards::TYPHOID_RATS,
            name: "Typhoid Rats",
            types: CardTypeSet { creature: true, ..CardTypeSet::none() },
            colors: ColorSet { black: true, ..ColorSet::none() },
            legendary: false,
            wolf: false,
            power: Some(1i32),
            toughness: Some(1i32),
            loyalty: 0u16,
            mana_value: 1u16,
            keywords: KeywordSet { deathtouch: true, ..KeywordSet::none() },
            behavior: CardBehavior::Vanilla,
            companion: None,
        })
    } else if id == cards::WHITE_KNIGHT {
        Some(CardDefinition {
            id: cards::WHITE_KNIGHT,
            name: "White Knight",
            types: CardTypeSet { creature: true, ..CardTypeSet::none() },
            colors: ColorSet { white: true, ..ColorSet::none() },
            legendary: false,
            wolf: false,
            power: Some(2i32),
            toughness: Some(2i32),
            loyalty: 0u16,
            mana_value: 2u16,
            keywords: KeywordSet { first_strike: true, protection: ColorSet { black: true, ..ColorSet::none() }, ..KeywordSet::none() },
            behavior: CardBehavior::Vanilla,
            companion: None,
        })
    } else if id == cards::YOUNG_WOLF {
        Some(CardDefinition {
            id: cards::YOUNG_WOLF,
            name: "Young Wolf",
            types: CardTypeSet { creature: true, ..CardTypeSet::none() },
            colors: ColorSet { green: true, ..ColorSet::none() },
            legendary: false,
            wolf: true,
            power: Some(1i32),
            toughness: Some(1i32),
            loyalty: 0u16,
            mana_value: 1u16,
            keywords: KeywordSet { undying: true, ..KeywordSet::none() },
            behavior: CardBehavior::Vanilla,
            companion: None,
        })
    } else if id == cards::DARKSTEEL_MYR {
        Some(CardDefinition {
            id: cards::DARKSTEEL_MYR,
            name: "Darksteel Myr",
            types: CardTypeSet { artifact: true, creature: true, ..CardTypeSet::none() },
            colors: ColorSet::none(),
            legendary: false,
            wolf: false,
            power: Some(0i32),
            toughness: Some(1i32),
            loyalty: 0u16,
            mana_value: 3u16,
            keywords: KeywordSet { indestructible: true, ..KeywordSet::none() },
            behavior: CardBehavior::Vanilla,
            companion: None,
        })
    } else if id == cards::FIREBALL {
        Some(CardDefinition {
            id: cards::FIREBALL,
            name: "Fireball",
            types: CardTypeSet { sorcery: true, ..CardTypeSet::none() },
            colors: ColorSet { red: true, ..ColorSet::none() },
            legendary: false,
            wolf: false,
            power: None,
            toughness: None,
            loyalty: 0u16,
            mana_value: 1u16,
            keywords: KeywordSet::none(),
            behavior: CardBehavior::Vanilla,
            companion: None,
        })
    } else {
        None
    }
}

/// Looks a card up in the catalog.
pub fn card_definition(id: CardDefinitionId) -> (definition: Option<CardDefinition>)
    ensures
        definition == catalog(id),
{
    reveal(catalog);
    if id == cards::MOUNTAIN {
        Some(CardDefinition {
            id: cards::MOUNTAIN,
            name: "Mountain",
            types: CardTypeSet { land: true, ..CardTypeSet::none() },
            colors: ColorSet::none(),
            legendary: false,
            wolf: false,
            power: None,
            toughness: None,
            loyalty: 0u16,
            mana_value: 0u16,
            keywords: KeywordSet::none(),
            behavior: CardBehavior::Vanilla,
            companion: None,
        })
    } else if id == cards::PLAINS {
        Some(CardDefinition {
            id: cards::PLAINS,
            name: "Plains",
            types: CardTypeSet { land: true, ..CardTypeSet::none() },
            colors: ColorSet::none(),
            legendary: false,
            wolf: false,
            power: None,
            toughness: None,
            loyalty: 0u16,
            mana_value: 0u16,
            keywords: KeywordSet::none(),
            behavior: CardBehavior::Vanilla,
            companion: None,
        })
    } else if id == cards::SAVANNAH_LIONS {
        Some(CardDefinition {
            id: cards::SAVANNAH_LIONS,
            name: "Savannah Lions",
            types: CardTypeSet { creature: true, ..CardTypeSet::none() },
            colors: ColorSet { white: true, ..ColorSet::none() },
            legendary: false,
            wolf: false,
            power: Some(2i32),
            toughness: Some(1i32),
            loyalty: 0u16,
            mana_value: 1u16,
            keywords: KeywordSet::none(),
            behavior: CardBehavior::Vanilla,
            companion: None,
        })
    } else if id == cards::GRIZZLY_BEARS {
        Some(CardDefinition {
            id: cards::GRIZZLY_BEARS,
            name: "Grizzly Bears",
            types: CardTypeSet { creature: true, ..CardTypeSet::none() },
            colors: ColorSet { green: true, ..ColorSet::none() },
            legendary: false,
            wolf: false,
            power: Some(2i32),
            toughness: Some(2i32),
            loyalty: 0u16,
            mana_value: 2u16,
            keywords: KeywordSet::none(),
            behavior: CardBehavior::Vanilla,
            companion: None,
        })
    } else if id == cards::SERRA_ANGEL {
        Some(CardDefinition {
            id: cards::SERRA_ANGEL,
            name: "Serra Angel",
            types: CardTypeSet { creature: true, ..CardTypeSet::none() },
            colors: ColorSet { white: true, ..ColorSet::none() },
            legendary: false,
            wolf: false,
            power: Some(4i32),
            toughness: Some(4i32),
            loyalty: 0u16,
            mana_value: 5u16,
            keywords: KeywordSet { flying: true, vigilance: true, ..KeywordSet::none() },
            behavior: CardBehavior::Vanilla,
            companion: None,
        })
    } else if id == cards::BALL_LIGHTNING {
        Some(CardDefinition {
            id: cards::BALL_LIGHTNING,
            name: "Ball Lightning",
            types: CardTypeSet { creature: true, ..CardTypeSet::none() },
            colors: ColorSet { red: true, ..ColorSet::none() },
            legendary: false,
            wolf: false,
            power: Some(6i32),
            toughness: Some(1i32),
            loyalty: 0u16,
            mana_value: 3u16,
            keywords: KeywordSet { trample: true, haste: true, ..KeywordSet::none() },
            behavior: CardBehavior::Vanilla,
            companion: None,
        })
    } else if id == cards::WALL_OF_STONE {
        Some(CardDefinition {
            id: cards::WALL_OF_STONE,
            name: "Wall of Stone",
            types: CardTypeSet { creature: true, ..CardTypeSet::none() },
            colors: ColorSet { red: true, ..ColorSet::none() },
            legendary: false,
            wolf: false,
            power: Some(0i32),
            toughness: Some(8i32),
            loyalty: 0u16,
            mana_value: 3u16,
            keywords: KeywordSet { defender: true, ..KeywordSet::none() },
            behavior: CardBehavior::Vanilla,
            companion: None,
        })
    } else if id == cards::GIANT_SPIDER {
        Some(CardDefinition {
            id: cards::GIANT_SPIDER,
            name: "Giant Spider",
            types: CardTypeSet { creature: true, ..CardTypeSet::none() },
            colors: ColorSet { green: true, ..ColorSet::none() },
            legendary: false,
            wolf: false,
            power: Some(2i32),
            toughness: Some(4i32),
            loyalty: 0u16,
            mana_value: 4u16,
            keywords: KeywordSet { reach: true, ..KeywordSet::none() },
            behavior: CardBehavior::Vanilla,
            companion: None,
        })
    } else if id == cards::BENALISH_HERO {
        Some(CardDefinition {
            id: cards::BENALISH_HERO,
            name: "Benalish Hero",
            types: CardTypeSet { creature: true, ..CardTypeSet::none() },
            colors: ColorSet { white: true, ..ColorSet::none() },
            legendary: false,
            wolf: false,
            power: Some(1i32),
            toughness: Some(1i32),
            loyalty: 0u16,
            mana_value: 1u16,
            keywords: KeywordSet { banding: true, ..KeywordSet::none() },
            behavior: CardBehavior::Vanilla,
            companion: None,
        })
    } else if id == cards::MESA_PEGASUS {
        Some(CardDefinition {
            id: cards::MESA_PEGASUS,
            name: "Mesa Pegasus",
            types: CardTypeSet { creature: true, ..CardTypeSet::none() },
            colors: ColorSet { white: true, ..ColorSet::none() },
            legendary: false,
            wolf: false,
            power: Some(1i32),
            toughness: Some(1i32),
            loyalty: 0u16,
            mana_value: 2u16,
            keywords: KeywordSet { flying: true, banding: true, ..KeywordSet::none() },
            behavior: CardBehavior::Vanilla,
            companion: None,
        })
    } else if id == cards::WOLVES_OF_THE_HUNT {
        Some(CardDefinition {
            id: cards::WOLVES_OF_THE_HUNT,
            name: "Wolves of the Hunt",
            types: CardTypeSet { creature: true, ..CardTypeSet::none() },
            colors: ColorSet { green: true, ..ColorSet::none() },
            legendary: false,
            wolf: true,
            power: Some(1i32),
            toughness: Some(1i32),
            loyalty: 0u16,
            mana_value: 3u16,
            keywords: KeywordSet { bands_with_wolves: true, ..KeywordSet::none() },
            behavior: CardBehavior::Vanilla,
            companion: None,
        })
    } else if id == cards::IRONCLAW_ORCS {
        Some(CardDefinition {
            id: cards::IRONCLAW_ORCS,
            name: "Ironclaw Orcs",
            types: CardTypeSet { creature: true, ..CardTypeSet::none() },
            colors: ColorSet { red: true, ..ColorSet::none() },
            legendary: false,
            wolf: false,
            power: Some(2i32),
            toughness: Some(2i32),
            loyalty: 0u16,
            mana_value: 2u16,
            keywords: KeywordSet::none(),
            behavior: CardBehavior::IronclawOrcs,
            companion: None,
        })
    } else if id == cards::MOAT {
        Some(CardDefinition {
            id: cards::MOAT,
            name: "Moat",
            types: CardTypeSet { enchantment: true, ..CardTypeSet::none() },
            colors: ColorSet { white: true, ..ColorSet::none() },
            legendary: false,
            wolf: false,
            power: None,
            toughness: None,
            loyalty: 0u16,
            mana_value: 4u16,
            keywords: KeywordSet::none(),
            behavior: CardBehavior::Moat,
            companion: None,
        })
    } else if id == cards::DOMRI_RADE {
        Some(CardDefinition {
            id: cards::DOMRI_RADE,
            name: "Domri Rade",
            types: CardTypeSet { planeswalker: true, ..CardTypeSet::none() },
            colors: ColorSet { red: true, green: true, ..ColorSet::none() },
            legendary: false,
            wolf: false,
            power: None,
            toughness: None,
            loyalty: 3u16,
            mana_value: 3u16,
            keywords: KeywordSet::none(),
            behavior: CardBehavior::Vanilla,
            companion: None,
        })
    } else if id == cards::LURRUS_OF_THE_DREAM_DEN {
        Some(CardDefinition {
            id: cards::LURRUS_OF_THE_DREAM_DEN,
            name: "Lurrus of the Dream-Den",
            types: CardTypeSet { creature: true, ..CardTypeSet::none() },
            colors: ColorSet { white: true, black: true, ..ColorSet::none() },
            legendary: true,
            wolf: false,
            power: Some(3i32),
            toughness: Some(2i32),
            loyalty: 0u16,
            mana_value: 3u16,
            keywords: KeywordSet { lifelink: true, ..KeywordSet::none() },
            behavior: CardBehavior::Vanilla,
            companion: Some(CompanionRule::PermanentManaValueAtMost(2)),
        })
    } else if id == cards::TOBIAS_ANDRION {
        Some(CardDefinition {
            id: cards::TOBIAS_ANDRION,
            name: "Tobias Andrion",
            types: CardTypeSet { creature: true, ..CardTypeSet::none() },
            colors: ColorSet { white: true, blue: true, ..ColorSet::none() },
            legendary: true,
            wolf: false,
            power: Some(4i32),
            toughness: Some(4i32),
            loyalty: 0u16,
            mana_value: 5u16,
            keywords: KeywordSet::none(),
            behavior: CardBehavior::Vanilla,
            companion: None,
        })
    } else if id == cards::LIGHTNING_BOLT {
        Some(CardDefinition {
            id: cards::LIGHTNING_BOLT,
            name: "Lightning Bolt",
            types: CardTypeSet { instant: true, ..CardTypeSet::none() },
            colors: ColorSet { red: true, ..ColorSet::none() },
            legendary: false,
            wolf: false,
            power: None,
            toughness: None,
            loyalty: 0u16,
            mana_value: 1u16,
            keywords: KeywordSet::none(),
            behavior: CardBehavior::Vanilla,
            companion: None,
        })
    } else if id == cards::TYPHOID_RATS {
        Some(CardDefinition {
            id: cards::TYPHOID_RATS,
            name: "Typhoid Rats",
            types: CardTypeSet { creature: true, ..CardTypeSet::none() },
            colors: ColorSet { black: true, ..ColorSet::none() },
            legendary: false,
            wolf: false,
            power: Some(1i32),
            toughness: Some(1i32),
            loyalty: 0u16,
            mana_value: 1u16,
            keywords: KeywordSet { deathtouch: true, ..KeywordSet::none() },
            behavior: CardBehavior::Vanilla,
            companion: None,
        })
    } else if id == cards::WHITE_KNIGHT {
        Some(CardDefinition {
            id: cards::WHITE_KNIGHT,
            name: "White Knight",
            types: CardTypeSet { creature: true, ..CardTypeSet::none() },
            colors: ColorSet { white: true, ..ColorSet::none() },
            legendary: false,
            wolf: false,
            power: Some(2i32),
            toughness: Some(2i32),
            loyalty: 0u16,
            mana_value: 2u16,
            keywords: KeywordSet { first_strike: true, protection: ColorSet { black: true, ..ColorSet::none() }, ..KeywordSet::none() },
            behavior: CardBehavior::Vanilla,
            companion: None,
        })
    } else if id == cards::YOUNG_WOLF {
        Some(CardDefinition {
            id: cards::YOUNG_WOLF,
            name: "Young Wolf",
            types: CardTypeSet { creature: true, ..CardTypeSet::none() },
            colors: ColorSet { green: true, ..ColorSet::none() },
            legendary: false,
            wolf: true,
            power: Some(1i32),
            toughness: Some(1i32),
            loyalty: 0u16,
            mana_value: 1u16,
            keywords: KeywordSet { undying: true, ..KeywordSet::none() },
            behavior: CardBehavior::Vanilla,
            companion: None,
        })
    } else if id == cards::DARKSTEEL_MYR {
        Some(CardDefinition {
            id: cards::DARKSTEEL_MYR,
            name: "Darksteel Myr",
            types: CardTypeSet { artifact: true, creature: true, ..CardTypeSet::none() },
            colors: ColorSet::none(),
            legendary: false,
            wolf: false,
            power: Some(0i32),
            toughness: Some(1i32),
            loyalty: 0u16,
            mana_value: 3u16,
            keywords: KeywordSet { indestructible: true, ..KeywordSet::none() },
            behavior: CardBehavior::Vanilla,
            companion: None,
        })
    } else if id == cards::FIREBALL {
        Some(CardDefinition {
            id: cards::FIREBALL,
            name: "Fireball",
            types: CardTypeSet { sorcery: true, ..CardTypeSet::none() },
            colors: ColorSet { red: true, ..ColorSet::none() },
            legendary: false,
            wolf: false,
            power: None,
            toughness: None,
            loyalty: 0u16,
            mana_value: 1u16,
            keywords: KeywordSet::none(),
            behavior: CardBehavior::Vanilla,
            companion: None,
        })
    } else {
        None
    }
}

} // verus!

verus! {

/// Printed power and toughness in the catalog are small, non-negative numbers.
pub proof fn lemma_catalog_bounds(id: CardDefinitionId)
    ensures
        catalog(id) matches Some(definition) ==> {
            &&& (definition.power matches Some(power) ==> 0 <= power <= 10)
            &&& (definition.toughness matches Some(toughness) ==> 0 <= toughness <= 10)
        },
{
    reveal(catalog);
}

} // verus!
