//! Damage kinds and composite damage rolls.
use vstd::prelude::*;

use crate::props::RollValue;

verus! {

/// The kind of harm a damage roll inflicts.
#[derive(Debug, Clone, Copy, PartialEq, Eq, Hash, Structural)]
pub enum DamageType {
    Acid,
    Bludgeoning,
    Cold,
    Fire,
    Force,
    Lightning,
    Necrotic,
    Piercing,
    Poison,
    Psychic,
    Radiant,
    Slashing,
    Thunder,
}

/// A damage expression: one roll per damage type dealt.
#[derive(Debug, PartialEq, Eq, Hash)]
pub struct Damage {
    pub rolls: Vec<(DamageType, RollValue)>,
}

} // verus!
