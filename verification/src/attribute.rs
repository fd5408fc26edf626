//! The closed enumerations of attributes and conditions, and the place of
//! each attribute in an attribute array.

use vstd::prelude::*;

verus! {

/// The number of attributes, and so the length of an attribute array.
pub const ATTRIBUTE_COUNT: usize = 82;

/// A named quantity of a character.
#[derive(Clone, Copy, Debug, PartialEq, Eq, Hash, Structural)]
pub enum Attribute {
    // Primary stats.
    Power,
    Precision,
    Toughness,
    Vitality,
    Ferocity,
    ConditionDamage,
    Expertise,
    Concentration,
    HealingPower,
    AgonyResistance,
    // Stats derived from the primary ones.
    Health,
    Armor,
    CriticalChance,
    CriticalDamage,
    ConditionDuration,
    BoonDuration,
    MaxHealth,
    // Skill coefficients.
    PowerCoefficient,
    NonCritPowerCoefficient,
    Power2Coefficient,
    SiphonBaseCoefficient,
    FlatDPS,
    // Stats of the secondary damage source.
    AltPower,
    AltPrecision,
    AltFerocity,
    AltCriticalChance,
    AltCriticalDamage,
    CloneCriticalChance,
    PhantasmCriticalChance,
    PhantasmCriticalDamage,
    // Strike damage terms.
    EffectivePower,
    NonCritEffectivePower,
    AltEffectivePower,
    PhantasmEffectivePower,
    PowerDPS,
    Power2DPS,
    SiphonDPS,
    // Damage multipliers.
    OutgoingStrikeDamage,
    OutgoingCriticalDamage,
    OutgoingConditionDamage,
    OutgoingSiphonDamage,
    OutgoingPhantasmDamage,
    OutgoingPhantasmCriticalDamage,
    OutgoingAltDamage,
    OutgoingAltCriticalDamage,
    OutgoingHealing,
    IncomingStrikeDamage,
    // Bleeding.
    BleedingCoefficient,
    BleedingDuration,
    BleedingStacks,
    BleedingDPS,
    BleedingDamageTick,
    OutgoingBleedingDamage,
    // Burning.
    BurningCoefficient,
    BurningDuration,
    BurningStacks,
    BurningDPS,
    BurningDamageTick,
    OutgoingBurningDamage,
    // Confusion.
    ConfusionCoefficient,
    ConfusionDuration,
    ConfusionStacks,
    ConfusionDPS,
    ConfusionDamageTick,
    OutgoingConfusionDamage,
    // Poison.
    PoisonCoefficient,
    PoisonDuration,
    PoisonStacks,
    PoisonDPS,
    PoisonDamageTick,
    OutgoingPoisonDamage,
    // Torment.
    TormentCoefficient,
    TormentDuration,
    TormentStacks,
    TormentDPS,
    TormentDamageTick,
    OutgoingTormentDamage,
    // Scores.
    Damage,
    Survivability,
    EffectiveHealth,
    Healing,
    EffectiveHealing,
}

/// A kind of damage over time.
#[derive(Clone, Copy, Debug, PartialEq, Eq, Hash, Structural)]
pub enum Condition {
    Bleeding,
    Burning,
    Confusion,
    Poison,
    Torment,
}

impl Attribute {
    /// The place of the attribute in an attribute array.
    pub open spec fn index_spec(self) -> nat {
        match self {
            Attribute::Power => 0,
            Attribute::Precision => 1,
            Attribute::Toughness => 2,
            Attribute::Vitality => 3,
            Attribute::Ferocity => 4,
            Attribute::ConditionDamage => 5,
            Attribute::Expertise => 6,
            Attribute::Concentration => 7,
            Attribute::HealingPower => 8,
            Attribute::AgonyResistance => 9,
            Attribute::Health => 10,
            Attribute::Armor => 11,
            Attribute::CriticalChance => 12,
            Attribute::CriticalDamage => 13,
            Attribute::ConditionDuration => 14,
            Attribute::BoonDuration => 15,
            Attribute::MaxHealth => 16,
            Attribute::PowerCoefficient => 17,
            Attribute::NonCritPowerCoefficient => 18,
            Attribute::Power2Coefficient => 19,
            Attribute::SiphonBaseCoefficient => 20,
            Attribute::FlatDPS => 21,
            Attribute::AltPower => 22,
            Attribute::AltPrecision => 23,
            Attribute::AltFerocity => 24,
            Attribute::AltCriticalChance => 25,
            Attribute::AltCriticalDamage => 26,
            Attribute::CloneCriticalChance => 27,
            Attribute::PhantasmCriticalChance => 28,
            Attribute::PhantasmCriticalDamage => 29,
            Attribute::EffectivePower => 30,
            Attribute::NonCritEffectivePower => 31,
            Attribute::AltEffectivePower => 32,
            Attribute::PhantasmEffectivePower => 33,
            Attribute::PowerDPS => 34,
            Attribute::Power2DPS => 35,
            Attribute::SiphonDPS => 36,
            Attribute::OutgoingStrikeDamage => 37,
            Attribute::OutgoingCriticalDamage => 38,
            Attribute::OutgoingConditionDamage => 39,
            Attribute::OutgoingSiphonDamage => 40,
            Attribute::OutgoingPhantasmDamage => 41,
            Attribute::OutgoingPhantasmCriticalDamage => 42,
            Attribute::OutgoingAltDamage => 43,
            Attribute::OutgoingAltCriticalDamage => 44,
            Attribute::OutgoingHealing => 45,
            Attribute::IncomingStrikeDamage => 46,
            Attribute::BleedingCoefficient => 47,
            Attribute::BleedingDuration => 48,
            Attribute::BleedingStacks => 49,
            Attribute::BleedingDPS => 50,
            Attribute::BleedingDamageTick => 51,
            Attribute::OutgoingBleedingDamage => 52,
            Attribute::BurningCoefficient => 53,
            Attribute::BurningDuration => 54,
            Attribute::BurningStacks => 55,
            Attribute::BurningDPS => 56,
            Attribute::BurningDamageTick => 57,
            Attribute::OutgoingBurningDamage => 58,
            Attribute::ConfusionCoefficient => 59,
            Attribute::ConfusionDuration => 60,
            Attribute::ConfusionStacks => 61,
            Attribute::ConfusionDPS => 62,
            Attribute::ConfusionDamageTick => 63,
            Attribute::OutgoingConfusionDamage => 64,
            Attribute::PoisonCoefficient => 65,
            Attribute::PoisonDuration => 66,
            Attribute::PoisonStacks => 67,
            Attribute::PoisonDPS => 68,
            Attribute::PoisonDamageTick => 69,
            Attribute::OutgoingPoisonDamage => 70,
            Attribute::TormentCoefficient => 71,
            Attribute::TormentDuration => 72,
            Attribute::TormentStacks => 73,
            Attribute::TormentDPS => 74,
            Attribute::TormentDamageTick => 75,
            Attribute::OutgoingTormentDamage => 76,
            Attribute::Damage => 77,
            Attribute::Survivability => 78,
            Attribute::EffectiveHealth => 79,
            Attribute::Healing => 80,
            Attribute::EffectiveHealing => 81,
        }
    }

    /// The place of the attribute in an attribute array: below the array's
    /// length, and another for every attribute.
    pub fn index(self) -> (index: usize)
        ensures
            index == self.index_spec(),
            index < ATTRIBUTE_COUNT,
    {
        match self {
            Attribute::Power => 0,
            Attribute::Precision => 1,
            Attribute::Toughness => 2,
            Attribute::Vitality => 3,
            Attribute::Ferocity => 4,
            Attribute::ConditionDamage => 5,
            Attribute::Expertise => 6,
            Attribute::Concentration => 7,
            Attribute::HealingPower => 8,
            Attribute::AgonyResistance => 9,
            Attribute::Health => 10,
            Attribute::Armor => 11,
            Attribute::CriticalChance => 12,
            Attribute::CriticalDamage => 13,
            Attribute::ConditionDuration => 14,
            Attribute::BoonDuration => 15,
            Attribute::MaxHealth => 16,
            Attribute::PowerCoefficient => 17,
            Attribute::NonCritPowerCoefficient => 18,
            Attribute::Power2Coefficient => 19,
            Attribute::SiphonBaseCoefficient => 20,
            Attribute::FlatDPS => 21,
            Attribute::AltPower => 22,
            Attribute::AltPrecision => 23,
            Attribute::AltFerocity => 24,
            Attribute::AltCriticalChance => 25,
            Attribute::AltCriticalDamage => 26,
            Attribute::CloneCriticalChance => 27,
            Attribute::PhantasmCriticalChance => 28,
            Attribute::PhantasmCriticalDamage => 29,
            Attribute::EffectivePower => 30,
            Attribute::NonCritEffectivePower => 31,
            Attribute::AltEffectivePower => 32,
            Attribute::PhantasmEffectivePower => 33,
            Attribute::PowerDPS => 34,
            Attribute::Power2DPS => 35,
            Attribute::SiphonDPS => 36,
            Attribute::OutgoingStrikeDamage => 37,
            Attribute::OutgoingCriticalDamage => 38,
            Attribute::OutgoingConditionDamage => 39,
            Attribute::OutgoingSiphonDamage => 40,
            Attribute::OutgoingPhantasmDamage => 41,
            Attribute::OutgoingPhantasmCriticalDamage => 42,
            Attribute::OutgoingAltDamage => 43,
            Attribute::OutgoingAltCriticalDamage => 44,
            Attribute::OutgoingHealing => 45,
            Attribute::IncomingStrikeDamage => 46,
            Attribute::BleedingCoefficient => 47,
            Attribute::BleedingDuration => 48,
            Attribute::BleedingStacks => 49,
            Attribute::BleedingDPS => 50,
            Attribute::BleedingDamageTick => 51,
            Attribute::OutgoingBleedingDamage => 52,
            Attribute::BurningCoefficient => 53,
            Attribute::BurningDuration => 54,
            Attribute::BurningStacks => 55,
            Attribute::BurningDPS => 56,
            Attribute::BurningDamageTick => 57,
            Attribute::OutgoingBurningDamage => 58,
            Attribute::ConfusionCoefficient => 59,
            Attribute::ConfusionDuration => 60,
            Attribute::ConfusionStacks => 61,
            Attribute::ConfusionDPS => 62,
            Attribute::ConfusionDamageTick => 63,
            Attribute::OutgoingConfusionDamage => 64,
            Attribute::PoisonCoefficient => 65,
            Attribute::PoisonDuration => 66,
            Attribute::PoisonStacks => 67,
            Attribute::PoisonDPS => 68,
            Attribute::PoisonDamageTick => 69,
            Attribute::OutgoingPoisonDamage => 70,
            Attribute::TormentCoefficient => 71,
            Attribute::TormentDuration => 72,
            Attribute::TormentStacks => 73,
            Attribute::TormentDPS => 74,
            Attribute::TormentDamageTick => 75,
            Attribute::OutgoingTormentDamage => 76,
            Attribute::Damage => 77,
            Attribute::Survivability => 78,
            Attribute::EffectiveHealth => 79,
            Attribute::Healing => 80,
            Attribute::EffectiveHealing => 81,
        }
    }

    /// The attribute counts in whole points, so that what a conversion adds
    /// to it is rounded.
    pub open spec fn is_point_key_spec(self) -> bool {
        match self {
            Attribute::Power
            | Attribute::Precision
            | Attribute::Toughness
            | Attribute::Vitality
            | Attribute::Ferocity
            | Attribute::ConditionDamage
            | Attribute::Expertise
            | Attribute::Concentration
            | Attribute::HealingPower
            | Attribute::AgonyResistance
            | Attribute::Health
            | Attribute::Armor => true,
            _ => false,
        }
    }

    /// Whether the attribute counts in whole points.
    pub fn is_point_key(self) -> (point: bool)
        ensures
            point == self.is_point_key_spec(),
    {
        match self {
            Attribute::Power
            | Attribute::Precision
            | Attribute::Toughness
            | Attribute::Vitality
            | Attribute::Ferocity
            | Attribute::ConditionDamage
            | Attribute::Expertise
            | Attribute::Concentration
            | Attribute::HealingPower
            | Attribute::AgonyResistance
            | Attribute::Health
            | Attribute::Armor => true,
            _ => false,
        }
    }

    /// What a conversion adds to the attribute is rounded: it is for an
    /// attribute in whole points, unless rounding is switched off.
    pub open spec fn is_rounded_spec(self, no_rounding: bool) -> bool {
        self.is_point_key_spec() && !no_rounding
    }

    /// Whether what a conversion adds to the attribute is rounded.
    pub fn is_rounded(self, no_rounding: bool) -> (rounded: bool)
        ensures
            rounded == self.is_rounded_spec(no_rounding),
    {
        self.is_point_key() && !no_rounding
    }

    /// The attribute is a chance, read within the bounds of a probability
    /// when it is the source of a conversion after the buffs.
    pub open spec fn is_chance_spec(self) -> bool {
        self == Attribute::CriticalChance || self == Attribute::CloneCriticalChance || self
            == Attribute::PhantasmCriticalChance
    }

    /// Whether the attribute is a chance.
    pub fn is_chance(self) -> (chance: bool)
        ensures
            chance == self.is_chance_spec(),
    {
        match self {
            Attribute::CriticalChance
            | Attribute::CloneCriticalChance
            | Attribute::PhantasmCriticalChance => true,
            _ => false,
        }
    }
}

/// No two attributes share a place in the attribute array.
pub proof fn lemma_index_injective(a: Attribute, b: Attribute)
    requires
        a.index_spec() == b.index_spec(),
    ensures
        a == b,
{
}

impl Condition {
    /// The attribute that holds the condition's coefficient.
    pub open spec fn get_coefficient_attribute_spec(self) -> Attribute {
        match self {
            Condition::Bleeding => Attribute::BleedingCoefficient,
            Condition::Burning => Attribute::BurningCoefficient,
            Condition::Confusion => Attribute::ConfusionCoefficient,
            Condition::Poison => Attribute::PoisonCoefficient,
            Condition::Torment => Attribute::TormentCoefficient,
        }
    }

    /// The attribute that holds the condition's coefficient.
    pub fn get_coefficient_attribute(self) -> (attribute: Attribute)
        ensures
            attribute == self.get_coefficient_attribute_spec(),
    {
        match self {
            Condition::Bleeding => Attribute::BleedingCoefficient,
            Condition::Burning => Attribute::BurningCoefficient,
            Condition::Confusion => Attribute::ConfusionCoefficient,
            Condition::Poison => Attribute::PoisonCoefficient,
            Condition::Torment => Attribute::TormentCoefficient,
        }
    }

    /// The attribute that holds the condition's own duration bonus.
    pub open spec fn get_duration_attribute_spec(self) -> Attribute {
        match self {
            Condition::Bleeding => Attribute::BleedingDuration,
            Condition::Burning => Attribute::BurningDuration,
            Condition::Confusion => Attribute::ConfusionDuration,
            Condition::Poison => Attribute::PoisonDuration,
            Condition::Torment => Attribute::TormentDuration,
        }
    }

    /// The attribute that holds the condition's own duration bonus.
    pub fn get_duration_attribute(self) -> (attribute: Attribute)
        ensures
            attribute == self.get_duration_attribute_spec(),
    {
        match self {
            Condition::Bleeding => Attribute::BleedingDuration,
            Condition::Burning => Attribute::BurningDuration,
            Condition::Confusion => Attribute::ConfusionDuration,
            Condition::Poison => Attribute::PoisonDuration,
            Condition::Torment => Attribute::TormentDuration,
        }
    }

    /// The attribute that receives the condition's stacks.
    pub open spec fn get_stacks_attribute_spec(self) -> Attribute {
        match self {
            Condition::Bleeding => Attribute::BleedingStacks,
            Condition::Burning => Attribute::BurningStacks,
            Condition::Confusion => Attribute::ConfusionStacks,
            Condition::Poison => Attribute::PoisonStacks,
            Condition::Torment => Attribute::TormentStacks,
        }
    }

    /// The attribute that receives the condition's stacks.
    pub fn get_stacks_attribute(self) -> (attribute: Attribute)
        ensures
            attribute == self.get_stacks_attribute_spec(),
    {
        match self {
            Condition::Bleeding => Attribute::BleedingStacks,
            Condition::Burning => Attribute::BurningStacks,
            Condition::Confusion => Attribute::ConfusionStacks,
            Condition::Poison => Attribute::PoisonStacks,
            Condition::Torment => Attribute::TormentStacks,
        }
    }

    /// The attribute that receives the condition's damage per second.
    pub open spec fn get_dps_attribute_spec(self) -> Attribute {
        match self {
            Condition::Bleeding => Attribute::BleedingDPS,
            Condition::Burning => Attribute::BurningDPS,
            Condition::Confusion => Attribute::ConfusionDPS,
            Condition::Poison => Attribute::PoisonDPS,
            Condition::Torment => Attribute::TormentDPS,
        }
    }

    /// The attribute that receives the condition's damage per second.
    pub fn get_dps_attribute(self) -> (attribute: Attribute)
        ensures
            attribute == self.get_dps_attribute_spec(),
    {
        match self {
            Condition::Bleeding => Attribute::BleedingDPS,
            Condition::Burning => Attribute::BurningDPS,
            Condition::Confusion => Attribute::ConfusionDPS,
            Condition::Poison => Attribute::PoisonDPS,
            Condition::Torment => Attribute::TormentDPS,
        }
    }

    /// The attribute that receives the damage of one tick of the condition.
    pub open spec fn get_damage_tick_attribute_spec(self) -> Attribute {
        match self {
            Condition::Bleeding => Attribute::BleedingDamageTick,
            Condition::Burning => Attribute::BurningDamageTick,
            Condition::Confusion => Attribute::ConfusionDamageTick,
            Condition::Poison => Attribute::PoisonDamageTick,
            Condition::Torment => Attribute::TormentDamageTick,
        }
    }

    /// The attribute that receives the damage of one tick of the condition.
    pub fn get_damage_tick_attribute(self) -> (attribute: Attribute)
        ensures
            attribute == self.get_damage_tick_attribute_spec(),
    {
        match self {
            Condition::Bleeding => Attribute::BleedingDamageTick,
            Condition::Burning => Attribute::BurningDamageTick,
            Condition::Confusion => Attribute::ConfusionDamageTick,
            Condition::Poison => Attribute::PoisonDamageTick,
            Condition::Torment => Attribute::TormentDamageTick,
        }
    }

    /// The multiplier that applies to the condition's damage.
    pub open spec fn get_damage_mod_attribute_spec(self) -> Attribute {
        match self {
            Condition::Bleeding => Attribute::OutgoingBleedingDamage,
            Condition::Burning => Attribute::OutgoingBurningDamage,
            Condition::Confusion => Attribute::OutgoingConfusionDamage,
            Condition::Poison => Attribute::OutgoingPoisonDamage,
            Condition::Torment => Attribute::OutgoingTormentDamage,
        }
    }

    /// The multiplier that applies to the condition's damage.
    pub fn get_damage_mod_attribute(self) -> (attribute: Attribute)
        ensures
            attribute == self.get_damage_mod_attribute_spec(),
    {
        match self {
            Condition::Bleeding => Attribute::OutgoingBleedingDamage,
            Condition::Burning => Attribute::OutgoingBurningDamage,
            Condition::Confusion => Attribute::OutgoingConfusionDamage,
            Condition::Poison => Attribute::OutgoingPoisonDamage,
            Condition::Torment => Attribute::OutgoingTormentDamage,
        }
    }

    /// The condition has a second tick value, for a target that is active
    /// or moving.
    pub open spec fn has_special_tick_spec(self) -> bool {
        self == Condition::Confusion || self == Condition::Torment
    }

    /// Whether the condition has a second tick value.
    pub fn has_special_tick(self) -> (special: bool)
        ensures
            special == self.has_special_tick_spec(),
    {
        match self {
            Condition::Confusion | Condition::Torment => true,
            _ => false,
        }
    }
}

/// The attributes that belong to one condition are its own: two conditions
/// never write the same stacks, damage or tick attribute.
pub proof fn lemma_condition_slots_distinct(a: Condition, b: Condition)
    requires
        a != b,
    ensures
        a.get_stacks_attribute_spec() != b.get_stacks_attribute_spec(),
        a.get_dps_attribute_spec() != b.get_dps_attribute_spec(),
        a.get_damage_tick_attribute_spec() != b.get_damage_tick_attribute_spec(),
        a.get_coefficient_attribute_spec() != b.get_coefficient_attribute_spec(),
        a.get_duration_attribute_spec() != b.get_duration_attribute_spec(),
        a.get_damage_mod_attribute_spec() != b.get_damage_mod_attribute_spec(),
{
}

} // verus!
