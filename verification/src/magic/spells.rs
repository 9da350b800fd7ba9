//! Runes and the spells that they spell out.

use crate::actor::Actor;
use vstd::prelude::*;

verus! {

/// Whom a spell is cast on.
#[derive(Clone, Copy, Debug, PartialEq, Eq, Structural)]
pub enum SpellTarget {
    Caster,
    Enemy,
}

/// The spells.
#[derive(Debug, Hash, Eq, PartialEq, Structural, Clone, Copy)]
pub enum SpellKind {
    Firebolt,
    EarthShield,
    Shield,
    MagicMissile,
}

/// A spell of the spell table: the runes that spell it out after the rune of
/// power, the spell and whom it is cast on.
#[derive(Debug)]
pub struct SpellData {
    pub rune_indexes: Vec<u8>,
    pub kind: SpellKind,
    pub target: SpellTarget,
}

impl SpellData {
    /// A spell with the runes that spell it out.
    pub fn new(rune_indexes: Vec<u8>, kind: SpellKind, target: SpellTarget) -> (spell: Self)
        ensures
            spell.rune_indexes == rune_indexes,
            spell.kind == kind,
            spell.target == target,
    {
        Self { rune_indexes, kind, target }
    }
}

/// The runes that a caster has prepared, in their order. The first is the
/// rune of power; those after it spell out the spell.
pub struct PreparedRunes {
    runes: Vec<u8>,
}

impl View for PreparedRunes {
    type V = Seq<u8>;

    closed spec fn view(&self) -> Seq<u8> {
        self.runes@
    }
}

/// The power that runes give a spell: one more than the first rune, and
/// none without a rune.
pub open spec fn power_of(runes: Seq<u8>) -> int {
    if runes.len() > 0 {
        runes[0] + 1
    } else {
        0
    }
}

/// Whether the runes spell out the spell `spell`: those after the first
/// are the runes of the spell.
pub open spec fn spells_out(runes: Seq<u8>, spell: SpellData) -> bool {
    runes.len() > 1 && spell.rune_indexes@ == runes.skip(1)
}

/// The place in a spell table of the first spell that the runes spell out,
/// if there is one.
pub open spec fn first_match(runes: Seq<u8>, spells: Seq<SpellData>) -> Option<int> {
    if exists|i: int| 0 <= i < spells.len() && spells_out(runes, #[trigger] spells[i]) {
        Some(
            choose|i: int|
                0 <= i < spells.len() && spells_out(runes, #[trigger] spells[i]) && forall|j: int|
                    0 <= j < i ==> !spells_out(runes, #[trigger] spells[j]),
        )
    } else {
        None
    }
}

impl PreparedRunes {
    /// No runes.
    pub fn new() -> (prepared: Self)
        ensures
            prepared@ == Seq::<u8>::empty(),
    {
        Self { runes: Vec::new() }
    }

    /// Prepares one more rune, behind the others.
    pub fn prepare_rune(&mut self, rune: u8)
        ensures
            final(self)@ == old(self)@.push(rune),
    {
        self.runes.push(rune);
    }

    /// Takes back the rune that was prepared last, if there is one.
    pub fn remove_rune(&mut self)
        ensures
            final(self)@ == if old(self)@.len() > 0 {
                old(self)@.drop_last()
            } else {
                old(self)@
            },
    {
        self.runes.pop();
    }

    /// How many runes are prepared: the level of the rune to prepare next.
    pub fn get_act_rune_level(&self) -> (level: usize)
        ensures
            level == self@.len(),
    {
        self.runes.len()
    }

    /// The power of the spell: one more than the rune of power, none without a rune.
    pub fn get_power(&self) -> (power: u8)
        requires
            power_of(self@) <= u8::MAX,
        ensures
            power == power_of(self@),
    {
        if self.runes.len() > 0 {
            self.runes[0] + 1
        } else {
            0
        }
    }

    /// Whether the runes after the first are those of `spell`.
    fn spells(&self, spell: &SpellData) -> (matched: bool)
        requires
            self@.len() > 1,
        ensures
            matched == spells_out(self@, *spell),
    {
        let wanted = &spell.rune_indexes;
        if wanted.len() != self.runes.len() - 1 {
            assert(wanted@.len() != self@.skip(1).len());
            return false;
        }
        let mut i: usize = 0;
        while i < wanted.len()
            invariant
                i <= wanted.len(),
                wanted.len() == self.runes.len() - 1,
                wanted@ == spell.rune_indexes@,
                forall|j: int| 0 <= j < i ==> wanted@[j] == self.runes@[j + 1],
            decreases wanted.len() - i,
        {
            if wanted[i] != self.runes[i + 1] {
                assert(self@.skip(1)[i as int] == self@[i + 1]);
                assert(spell.rune_indexes@[i as int] != self@.skip(1)[i as int]);
                return false;
            }
            i += 1;
        }
        assert(wanted@ =~= self@.skip(1));
        true
    }

    /// Looks the prepared runes up in a spell table. With fewer than two
    /// runes, or with runes that spell out no spell of the table, there is
    /// no spell. Else the first spell of the table that the runes spell out
    /// is cast: returns the spell, its power, and the actor it is cast on.
    pub fn get_spell<'a>(&self, spells: &'a [SpellData], caster: &'a mut Actor, enemy: &'a mut Actor) -> (cast: Option<
        (&'a SpellKind, u8, &'a mut Actor),
    >)
        requires
            power_of(self@) <= u8::MAX,
        ensures
            match first_match(self@, spells@) {
                Some(i) => cast matches Some((kind, power, target)) && *kind == spells[i].kind && power
                    == power_of(self@) && match spells[i].target {
                    SpellTarget::Caster => *target == *old(caster) && *final(caster) == *final(target)
                        && *final(enemy) == *old(enemy),
                    SpellTarget::Enemy => *target == *old(enemy) && *final(enemy) == *final(target)
                        && *final(caster) == *old(caster),
                },
                None => cast.is_none() && *final(caster) == *old(caster) && *final(enemy) == *old(enemy),
            },
    {
        if self.runes.len() <= 1 {
            return None;
        }
        let mut i: usize = 0;
        let mut found: Option<usize> = None;
        while i < spells.len() && found.is_none()
            invariant
                i <= spells.len(),
                self@.len() > 1,
                match found {
                    Some(at) => at < spells.len() && spells_out(self@, spells@[at as int]) && forall|j: int|
                        0 <= j < at ==> !spells_out(self@, #[trigger] spells@[j]),
                    None => forall|j: int| 0 <= j < i ==> !spells_out(self@, #[trigger] spells@[j]),
                },
            decreases spells.len() - i + (if found.is_none() { 1nat } else { 0nat }),
        {
            if self.spells(&spells[i]) {
                found = Some(i);
            } else {
                i += 1;
            }
        }
        let Some(at) = found else {
            return None;
        };
        proof {
            let first = first_match(self@, spells@)->0;
            if first < at {
                assert(!spells_out(self@, spells@[first]));
            } else if at < first {
                assert(!spells_out(self@, spells@[at as int]));
            }
        }
        let spell_data = &spells[at];
        let target = match spell_data.target {
            SpellTarget::Caster => caster,
            SpellTarget::Enemy => enemy,
        };
        Some((&spell_data.kind, self.get_power(), target))
    }
}

} // verus!
