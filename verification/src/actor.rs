//! Actors of the spell system: health, energy, and the buffs that shield them.

use crate::damage::Damage;
use crate::damage::DamageType;
use vstd::prelude::*;

verus! {

/// A protection that a spell has laid on an actor.
#[derive(Debug, PartialEq, Eq, Structural, Clone, Copy)]
pub enum Buff {
    /// Wards off all magic damage. Holds the power it was cast with.
    Shield(u8),
    /// Absorbs damage of any type, as much as it holds, and is used up by it.
    EarthShield(i8),
}

impl Buff {
    /// Whether two buffs are of one kind, whatever they hold.
    pub open spec fn same_kind(self, other: Buff) -> bool {
        (self is Shield && other is Shield) || (self is EarthShield && other is EarthShield)
    }

    /// What is left of the buff after damage of `value` and `damage_type` met it.
    pub open spec fn worn(self, value: int, damage_type: DamageType) -> Buff {
        match self {
            Buff::EarthShield(strength) => Buff::EarthShield(
                if strength - value > 0 {
                    (strength - value) as i8
                } else {
                    0
                },
            ),
            Buff::Shield(power) => self,
        }
    }

    /// What is left of damage of `value` and `damage_type` after it met the buff.
    pub open spec fn let_through(self, value: int, damage_type: DamageType) -> int {
        match self {
            Buff::EarthShield(strength) => if value - strength > 0 {
                value - strength
            } else {
                0
            },
            Buff::Shield(power) => if damage_type == DamageType::Magic {
                0
            } else {
                value
            },
        }
    }

    /// An earth shield holds no negative strength.
    pub open spec fn wf(self) -> bool {
        self matches Buff::EarthShield(strength) ==> strength >= 0
    }

    /// Whether two buffs are of one kind, whatever they hold.
    pub fn is_same_kind(&self, other: &Buff) -> (same: bool)
        ensures
            same == self.same_kind(*other),
    {
        match (self, other) {
            (Buff::Shield(_), Buff::Shield(_)) => true,
            (Buff::EarthShield(_), Buff::EarthShield(_)) => true,
            _ => false,
        }
    }
}

/// The buffs of a list after damage met them one after the other, first to
/// last, each meeting what the one before let through.
pub open spec fn worn_buffs(buffs: Seq<Buff>, value: int, damage_type: DamageType) -> Seq<Buff>
    decreases buffs.len(),
{
    if buffs.len() == 0 {
        buffs
    } else {
        worn_buffs(buffs.drop_last(), value, damage_type).push(
            buffs.last().worn(passed_damage(buffs.drop_last(), value, damage_type), damage_type),
        )
    }
}

/// What is left of damage after it met the buffs of a list, first to last.
pub open spec fn passed_damage(buffs: Seq<Buff>, value: int, damage_type: DamageType) -> int
    decreases buffs.len(),
{
    if buffs.len() == 0 {
        value
    } else {
        buffs.last().let_through(passed_damage(buffs.drop_last(), value, damage_type), damage_type)
    }
}

/// Damage that is not negative stays so through any buffs and never grows,
/// and well-formed buffs stay well-formed and as many.
pub proof fn lemma_passed_damage_bounds(buffs: Seq<Buff>, value: int, damage_type: DamageType)
    requires
        value >= 0,
        forall|i: int| 0 <= i < buffs.len() ==> (#[trigger] buffs[i]).wf(),
    ensures
        0 <= passed_damage(buffs, value, damage_type) <= value,
        worn_buffs(buffs, value, damage_type).len() == buffs.len(),
        forall|i: int|
            0 <= i < buffs.len() ==> (#[trigger] worn_buffs(buffs, value, damage_type)[i]).wf()
                && worn_buffs(buffs, value, damage_type)[i].same_kind(buffs[i]),
    decreases buffs.len(),
{
    if buffs.len() > 0 {
        let rest = buffs.drop_last();
        lemma_passed_damage_bounds(rest, value, damage_type);
        assert(buffs.last().wf());
        assert forall|i: int| 0 <= i < buffs.len() implies (#[trigger] worn_buffs(
            buffs,
            value,
            damage_type,
        )[i]).wf() && worn_buffs(buffs, value, damage_type)[i].same_kind(buffs[i]) by {
            if i < rest.len() {
                assert(worn_buffs(buffs, value, damage_type)[i] == worn_buffs(rest, value, damage_type)[i]);
                assert(rest[i] == buffs[i]);
            }
        }
    }
}

/// Whether `at` is the first place of a list that holds a buff of the kind of `buff`.
pub open spec fn is_first_of_kind(buffs: Seq<Buff>, buff: Buff, at: int) -> bool {
    &&& 0 <= at < buffs.len()
    &&& buffs[at].same_kind(buff)
    &&& forall|j: int| 0 <= j < at ==> !(#[trigger] buffs[j]).same_kind(buff)
}

/// The buffs of a list without the first that is of the kind of `buff`.
pub open spec fn without_kind(buffs: Seq<Buff>, buff: Buff) -> Seq<Buff> {
    if exists|at: int| is_first_of_kind(buffs, buff, at) {
        buffs.remove(choose|at: int| is_first_of_kind(buffs, buff, at))
    } else {
        buffs
    }
}

/// The numbers of an actor.
#[derive(Debug, PartialEq, Eq, Structural, Clone, Copy)]
pub struct Attributes {
    pub max_health: i8,
    pub act_health: i8,
    pub max_energy: i8,
    pub act_energy: i8,
    pub energy_regeneration: i8,
}

/// An actor of the spell system.
pub struct Actor {
    pub attributes: Attributes,
    buffs: Vec<Buff>,
}

/// The mathematical model of an actor: its numbers, and its buffs, oldest first.
#[verifier::ext_equal]
pub struct ActorState {
    pub attributes: Attributes,
    pub buffs: Seq<Buff>,
}

impl ActorState {
    /// The actor's health is not negative, its buffs are well-formed, and no
    /// two of them are of one kind.
    pub open spec fn wf(self) -> bool {
        &&& self.attributes.act_health >= 0
        &&& forall|i: int| 0 <= i < self.buffs.len() ==> (#[trigger] self.buffs[i]).wf()
        &&& forall|i: int, j: int|
            0 <= i < j < self.buffs.len() ==> !(#[trigger] self.buffs[i]).same_kind(
                #[trigger] self.buffs[j],
            )
    }

    /// The actor after a buff was laid on it: the buff takes the place of
    /// the first buff of its kind, if there is one, and stands last.
    pub open spec fn buffed(self, buff: Buff) -> ActorState {
        ActorState { attributes: self.attributes, buffs: without_kind(self.buffs, buff).push(buff) }
    }

    /// The actor after damage of `value` and `damage_type` was dealt to it:
    /// the damage meets the buffs, oldest first, and what they let through
    /// comes off the health, which does not go below zero.
    pub open spec fn damaged(self, value: int, damage_type: DamageType) -> ActorState {
        let left = self.attributes.act_health - passed_damage(self.buffs, value, damage_type);
        ActorState {
            attributes: Attributes {
                act_health: if left > 0 {
                    left as i8
                } else {
                    0
                },
                ..self.attributes
            },
            buffs: worn_buffs(self.buffs, value, damage_type),
        }
    }
}

impl View for Actor {
    type V = ActorState;

    closed spec fn view(&self) -> ActorState {
        ActorState { attributes: self.attributes, buffs: self.buffs@ }
    }
}

impl Actor {
    /// The buffs on the actor, oldest first.
    pub open spec fn buffs(&self) -> Seq<Buff> {
        self@.buffs
    }

    /// The actor's health is not negative, its buffs are well-formed, and no
    /// two of them are of one kind.
    pub open spec fn wf(&self) -> bool {
        self@.wf()
    }

    /// An actor at full health and energy, without buffs.
    pub fn new(health: i8, energy: i8, energy_regeneration: i8) -> (actor: Self)
        ensures
            actor@.attributes == (Attributes {
                max_health: health,
                act_health: health,
                max_energy: energy,
                act_energy: energy,
                energy_regeneration,
            }),
            actor.buffs() == Seq::<Buff>::empty(),
            health >= 0 ==> actor.wf(),
    {
        Self {
            attributes: Attributes {
                max_health: health,
                act_health: health,
                max_energy: energy,
                act_energy: energy,
                energy_regeneration,
            },
            buffs: Vec::new(),
        }
    }

    /// The buffs on the actor, oldest first.
    pub fn get_buffs(&self) -> (buffs: &[Buff])
        ensures
            buffs@ == self.buffs(),
    {
        self.buffs.as_slice()
    }

    /// Lays a buff on the actor. It takes the place of the first buff of its
    /// kind, if there is one, and stands last.
    pub fn add_buff(&mut self, active_spell: Buff)
        ensures
            final(self)@ == old(self)@.buffed(active_spell),
            old(self).wf() && active_spell.wf() ==> final(self).wf(),
    {
        let mut existing_index: Option<usize> = None;
        let mut i: usize = 0;
        while i < self.buffs.len() && existing_index.is_none()
            invariant
                i <= self.buffs.len(),
                *self == *old(self),
                match existing_index {
                    Some(found) => found < self.buffs.len() && self.buffs@[found as int].same_kind(
                        active_spell,
                    ) && forall|j: int|
                        0 <= j < found ==> !(#[trigger] self.buffs@[j]).same_kind(active_spell),
                    None => forall|j: int|
                        0 <= j < i ==> !(#[trigger] self.buffs@[j]).same_kind(active_spell),
                },
            decreases self.buffs.len() - i + (if existing_index.is_none() { 1nat } else { 0nat }),
        {
            if active_spell.is_same_kind(&self.buffs[i]) {
                existing_index = Some(i);
            } else {
                i += 1;
            }
        }
        if let Some(found) = existing_index {
            self.buffs.remove(found);
        }
        self.buffs.push(active_spell);
        proof {
            let before = old(self).buffs();
            match existing_index {
                Some(found) => {
                    assert(is_first_of_kind(before, active_spell, found as int));
                    let first = choose|at: int| is_first_of_kind(before, active_spell, at);
                    if first < found {
                        assert(!before[first].same_kind(active_spell));
                    } else if found < first {
                        assert(!before[found as int].same_kind(active_spell));
                    }
                },
                None => {
                    if exists|at: int| is_first_of_kind(before, active_spell, at) {
                        let first = choose|at: int| is_first_of_kind(before, active_spell, at);
                        assert(!before[first].same_kind(active_spell));
                    }
                },
            }
            if old(self).wf() && active_spell.wf() {
                let after = self.buffs();
                assert forall|a: int, b: int| 0 <= a < b < after.len() implies !(#[trigger] after[a]).same_kind(
                    #[trigger] after[b],
                ) by {
                    match existing_index {
                        Some(found) => {
                            let from_a = if a < found { a } else { a + 1 };
                            assert(after[a] == before[from_a]);
                            if b < after.len() - 1 {
                                let from_b = if b < found { b } else { b + 1 };
                                assert(after[b] == before[from_b]);
                                assert(!before[from_a].same_kind(before[from_b]));
                            } else {
                                assert(!before[from_a].same_kind(before[found as int]));
                            }
                        },
                        None => {
                            if b < after.len() - 1 {
                                assert(!before[a].same_kind(before[b]));
                            } else {
                                assert(!before[a].same_kind(active_spell));
                            }
                        },
                    }
                }
                assert forall|a: int| 0 <= a < after.len() implies (#[trigger] after[a]).wf() by {
                    match existing_index {
                        Some(found) => {
                            if a < after.len() - 1 {
                                let from_a = if a < found { a } else { a + 1 };
                                assert(after[a] == before[from_a]);
                            }
                        },
                        None => {
                            if a < after.len() - 1 {
                                assert(after[a] == before[a]);
                            }
                        },
                    }
                }
            }
        }
    }

    /// Lets damage meet the buffs of the actor, oldest first. Each buff takes
    /// its part of what the one before let through: an earth shield absorbs
    /// as much as it holds and is used up by that much, a shield wards off
    /// magic damage whole. Returns the damage that is left.
    pub fn process_damage(&mut self, damage: Damage) -> (left: Damage)
        requires
            damage.value >= 0,
            forall|i: int| 0 <= i < old(self).buffs().len() ==> (#[trigger] old(self).buffs()[i]).wf(),
        ensures
            final(self)@.attributes == old(self)@.attributes,
            final(self).buffs() == worn_buffs(old(self).buffs(), damage.value as int, damage.damage_type),
            left.value == passed_damage(old(self).buffs(), damage.value as int, damage.damage_type),
            left.damage_type == damage.damage_type,
            old(self).wf() ==> final(self).wf(),
    {
        let mut damage = damage;
        let ghost before = self.buffs();
        let ghost value = damage.value as int;
        let ghost damage_type = damage.damage_type;
        let mut i: usize = 0;
        while i < self.buffs.len()
            invariant
                i <= self.buffs.len(),
                self.attributes == old(self).attributes,
                before == old(self).buffs(),
                value >= 0,
                damage.damage_type == damage_type,
                forall|j: int| 0 <= j < before.len() ==> (#[trigger] before[j]).wf(),
                self.buffs@.len() == before.len(),
                self.buffs@.take(i as int) == worn_buffs(before.take(i as int), value, damage_type),
                forall|j: int| i <= j < before.len() ==> self.buffs@[j] == before[j],
                damage.value == passed_damage(before.take(i as int), value, damage_type),
            decreases self.buffs.len() - i,
        {
            proof {
                lemma_passed_damage_bounds(before.take(i as int), value, damage_type);
                assert(before.take(i + 1).drop_last() =~= before.take(i as int));
                assert(before[i as int].wf());
            }
            let ghost done = self.buffs@.take(i as int);
            match self.buffs[i] {
                Buff::EarthShield(dr) => {
                    let new_value: i8 = if damage.value - dr > 0 {
                        damage.value - dr
                    } else {
                        0
                    };
                    let left: i8 = if dr - damage.value > 0 {
                        dr - damage.value
                    } else {
                        0
                    };
                    self.buffs.set(i, Buff::EarthShield(left));
                    damage.value = new_value;
                },
                Buff::Shield(_) => {
                    if damage.damage_type == DamageType::Magic {
                        damage.value = 0;
                    }
                },
            }
            proof {
                assert(self.buffs@.take(i + 1) =~= done.push(self.buffs@[i as int]));
            }
            i += 1;
        }
        proof {
            assert(before.take(before.len() as int) =~= before);
            assert(self.buffs@.take(self.buffs@.len() as int) =~= self.buffs@);
            lemma_passed_damage_bounds(before, value, damage_type);
            if old(self).wf() {
                let after = self.buffs();
                assert forall|a: int, b: int| 0 <= a < b < after.len() implies !(#[trigger] after[a]).same_kind(
                    #[trigger] after[b],
                ) by {
                    assert(after[a].same_kind(before[a]));
                    assert(after[b].same_kind(before[b]));
                    assert(!before[a].same_kind(before[b]));
                }
            }
        }
        damage
    }

    /// Deals damage to the actor: what its buffs let through comes off its
    /// health, which does not go below zero.
    pub fn take_damage(&mut self, damage: Damage)
        requires
            damage.value >= 0,
            old(self).wf(),
        ensures
            final(self).wf(),
            final(self)@ == old(self)@.damaged(damage.value as int, damage.damage_type),
    {
        proof {
            lemma_passed_damage_bounds(self.buffs(), damage.value as int, damage.damage_type);
        }
        let damage = self.process_damage(damage);
        let health = self.attributes.act_health;
        self.attributes.act_health = if health - damage.value > 0 {
            health - damage.value
        } else {
            0
        };
    }
}

} // verus!
