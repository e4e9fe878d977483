//! The structured records the surrounding application exchanges:
//! dice, damage, equipment and character data.
pub mod character;
pub mod damage;
pub mod equipment;

use vstd::prelude::*;

verus! {

/// A die by its face count.
#[derive(Debug, Clone, Copy, PartialEq, Eq, Hash, Structural)]
pub enum Dice {
    D4,
    D6,
    D8,
    D10,
    D12,
    D20,
    D100,
}

/// A rolled quantity: a flat part plus counted dice.
#[derive(Debug, PartialEq, Eq, Hash)]
pub struct RollValue {
    pub flat: u32,
    pub dices: Vec<(u32, Dice)>,
}

/// Whether a roll is made with advantage or disadvantage.
#[derive(Debug, Clone, Copy, PartialEq, Eq, Hash, Structural)]
pub enum RollModifier {
    Advantage,
    Disadvantage,
}

} // verus!
