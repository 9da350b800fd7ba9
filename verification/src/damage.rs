//! Damage that a spell deals.

use vstd::prelude::*;

verus! {

/// What a damage is made of.
#[derive(PartialEq, Eq, Structural, Debug, Clone, Copy)]
pub enum DamageType {
    Magic,
    Burn,
    Necrotic,
}

/// An amount of damage of one type.
#[derive(Debug, Clone, Copy)]
pub struct Damage {
    pub value: i8,
    pub damage_type: DamageType,
}

impl Damage {
    /// Damage of that amount and type.
    pub fn new(value: i8, damage_type: DamageType) -> (damage: Self)
        ensures
            damage.value == value,
            damage.damage_type == damage_type,
    {
        Self { value, damage_type }
    }
}

} // verus!
