//! Equipment records: weapons, armor and shields.
use vstd::prelude::*;

use crate::props::damage::Damage;
use crate::props::RollModifier;

verus! {

/// A piece of equipment with its category-specific properties.
#[derive(Debug, PartialEq, Eq, Hash)]
pub struct Equipment {
    pub name: String,
    pub weight: u32,
    pub properties: EquipmentProperties,
}

#[derive(Debug, PartialEq, Eq, Hash)]
pub enum EquipmentProperties {
    Weapon(WeaponProperties),
    Armor(ArmorProperties),
    Shield(ShieldProperties),
}

/// A named armor entry.
#[derive(Debug, PartialEq, Eq, Hash)]
pub struct Armor {
    pub name: String,
    pub weight: u32,
    pub cost: u32,
    pub properties: ArmorProperties,
}

#[derive(Debug, Clone, Copy, PartialEq, Eq, Hash)]
pub struct ArmorProperties {
    pub category: ArmorCategory,
    pub armor_class: u32,
    pub strength: u32,
    pub stealth: Option<RollModifier>,
}

#[derive(Debug, Clone, Copy, PartialEq, Eq, Hash, Structural)]
pub enum ArmorCategory {
    Light,
    Medium,
    Heavy,
}

/// A named shield entry.
#[derive(Debug, PartialEq, Eq, Hash)]
pub struct Shield {
    pub name: String,
    pub weight: u32,
    pub cost: u32,
    pub properties: ShieldProperties,
}

#[derive(Debug, Clone, Copy, PartialEq, Eq, Hash)]
pub struct ShieldProperties {
    pub armor_class: u32,
}

/// A named weapon entry.
#[derive(Debug, PartialEq, Eq, Hash)]
pub struct Weapon {
    pub name: String,
    pub weight: u32,
    pub cost: u32,
    pub properties: WeaponProperties,
}

#[derive(Debug, PartialEq, Eq, Hash)]
pub struct WeaponProperties {
    pub damage: Damage,
    pub category: WeaponCategory,
    pub ammunition: Option<Ammunition>,
    pub finesse: bool,
    pub heavy: bool,
    pub light: bool,
    pub loading: bool,
    pub range: Option<(u32, u32)>,
    pub reach: bool,
    pub thrown: bool,
    pub two_handed: bool,
    pub versatile: Option<Damage>,
    pub mastery: Option<MasteryProperty>,
}

#[derive(Debug, Clone, Copy, PartialEq, Eq, Hash, Structural)]
pub enum WeaponCategory {
    Simple,
    Martial,
}

#[derive(Debug, Clone, Copy, PartialEq, Eq, Hash, Structural)]
pub enum Ammunition {
    Arrow,
    Bolt,
    Bullet,
    Dart,
    SlingBullet,
    BlowgunNeedle,
    Net,
}

#[derive(Debug, Clone, Copy, PartialEq, Eq, Hash, Structural)]
pub enum MasteryProperty {
    Cleave,
    Graze,
    Nick,
    Push,
    Sap,
    Slow,
    Topple,
    Vex,
}

} // verus!
