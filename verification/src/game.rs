//! The data of a game, and the casting of a spell from prepared runes.

use crate::actor::Actor;
use crate::magic::cast_effects::cast_on;
use crate::magic::cast_effects::castable;
use crate::magic::cast_effects::CastEffects;
use crate::magic::spells::first_match;
use crate::magic::spells::power_of;
use crate::magic::spells::PreparedRunes;
use crate::magic::spells::SpellData;
use crate::magic::spells::SpellTarget;
use vstd::prelude::*;

verus! {

/// The runes of one level: their names, and their descriptions in the same order.
#[derive(Debug)]
pub struct RuneLevel {
    pub name: Vec<String>,
    pub description: Vec<String>,
}

/// The tables of a game: the runes of each level, and the spells.
#[derive(Debug)]
pub struct GameData {
    pub rune_levels: Vec<RuneLevel>,
    pub spell_data: Vec<SpellData>,
}

impl GameData {
    /// The tables of a game.
    pub fn new(rune_levels: Vec<RuneLevel>, spell_data: Vec<SpellData>) -> (data: Self)
        ensures
            data.rune_levels == rune_levels,
            data.spell_data == spell_data,
    {
        Self { rune_levels, spell_data }
    }

    /// The runes of a level, if the game has that level.
    pub fn get_rune_level(&self, level_index: usize) -> (level: Option<&RuneLevel>)
        ensures
            level_index < self.rune_levels.len() ==> level == Some(&self.rune_levels[level_index as int]),
            level_index >= self.rune_levels.len() ==> level.is_none(),
    {
        if level_index < self.rune_levels.len() {
            Some(&self.rune_levels[level_index])
        } else {
            None
        }
    }

    /// The description of a rune of a level, if the game has that level and
    /// the level that rune.
    pub fn get_rune_description(&self, level_index: usize, rune_index: u8) -> (text: Option<String>)
        ensures
            match text {
                Some(text) => level_index < self.rune_levels.len() && rune_index
                    < self.rune_levels[level_index as int].description.len() && text@
                    == self.rune_levels[level_index as int].description[rune_index as int]@,
                None => level_index >= self.rune_levels.len() || rune_index
                    >= self.rune_levels[level_index as int].description.len(),
            },
    {
        match self.get_rune_level(level_index) {
            Some(level) => {
                let at = rune_index as usize;
                if at < level.description.len() {
                    Some(level.description[at].clone())
                } else {
                    None
                }
            },
            None => None,
        }
    }

    /// The name of a rune of a level, if the game has that level and the
    /// level that rune.
    pub fn get_rune_name(&self, level_index: usize, rune_index: u8) -> (text: Option<String>)
        ensures
            match text {
                Some(text) => level_index < self.rune_levels.len() && rune_index
                    < self.rune_levels[level_index as int].name.len() && text@
                    == self.rune_levels[level_index as int].name[rune_index as int]@,
                None => level_index >= self.rune_levels.len() || rune_index
                    >= self.rune_levels[level_index as int].name.len(),
            },
    {
        match self.get_rune_level(level_index) {
            Some(level) => {
                let at = rune_index as usize;
                if at < level.name.len() {
                    Some(level.name[at].clone())
                } else {
                    None
                }
            },
            None => None,
        }
    }
}

/// Whether the spell that the runes spell out in a table, if any, can be
/// cast at the power that the runes give it.
pub open spec fn can_cast(runes: Seq<u8>, spells: Seq<SpellData>) -> bool {
    &&& power_of(runes) <= u8::MAX
    &&& first_match(runes, spells) matches Some(i) ==> castable(spells[i].kind, power_of(runes) as u8)
}

/// Casts the spell that the prepared runes spell out: the first spell of the
/// table that they match, at the power they give, on the caster or on the
/// enemy as the spell says. Runes that spell out no spell do nothing.
pub fn cast_spell(
    cast_effects: &mut CastEffects,
    spell_data: &[SpellData],
    prepared_runes: &PreparedRunes,
    caster: &mut Actor,
    enemy: &mut Actor,
)
    requires
        can_cast(prepared_runes@, spell_data@),
        old(caster).wf(),
        old(enemy).wf(),
    ensures
        final(caster).wf(),
        final(enemy).wf(),
        match first_match(prepared_runes@, spell_data@) {
            Some(i) => match spell_data[i].target {
                SpellTarget::Caster => final(caster)@ == cast_on(
                    old(caster)@,
                    spell_data[i].kind,
                    power_of(prepared_runes@) as u8,
                ) && *final(enemy) == *old(enemy),
                SpellTarget::Enemy => final(enemy)@ == cast_on(
                    old(enemy)@,
                    spell_data[i].kind,
                    power_of(prepared_runes@) as u8,
                ) && *final(caster) == *old(caster),
            },
            None => *final(caster) == *old(caster) && *final(enemy) == *old(enemy),
        },
{
    let Some((kind, power, target)) = prepared_runes.get_spell(spell_data, caster, enemy) else {
        return ;
    };

    cast_effects.apply_effect(kind, power, target);
}

} // verus!
