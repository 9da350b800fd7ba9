//! The spell system: runes, spells and what the spells do.

pub mod cast_effects;
pub mod spells;
