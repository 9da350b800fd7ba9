//! What each spell does to the actor it is cast on.

use crate::actor::Actor;
use crate::actor::ActorState;
use crate::actor::Buff;
use crate::damage::Damage;
use crate::damage::DamageType;
use crate::magic::spells::SpellKind;
use vstd::prelude::*;

verus! {

/// The damage of one magic missile.
pub const MISSILE_DAMAGE: i8 = 2;

/// The greatest power at which twice the power is still a damage or a strength.
pub const MAX_DOUBLED_POWER: u8 = 63;

/// How many magic missiles a power lets fly.
pub open spec fn missile_count(power: u8) -> nat {
    if power == 0 {
        0
    } else if power == 1 {
        1
    } else if power == 2 {
        2
    } else if power == 3 {
        4
    } else {
        6
    }
}

/// The actor after that many magic missiles struck it, one after the other.
pub open spec fn struck(actor: ActorState, missiles: nat) -> ActorState
    decreases missiles,
{
    if missiles == 0 {
        actor
    } else {
        struck(actor, (missiles - 1) as nat).damaged(MISSILE_DAMAGE as int, DamageType::Magic)
    }
}

/// Whether a spell can be cast at a power: a firebolt and an earth shield
/// double the power, which must stay within what a damage can hold.
pub open spec fn castable(kind: SpellKind, power: u8) -> bool {
    kind == SpellKind::Firebolt || kind == SpellKind::EarthShield ==> power <= MAX_DOUBLED_POWER
}

/// The actor after a spell was cast on it at a power. A firebolt burns for
/// twice the power. Magic missiles strike for two each, as many as the
/// power lets fly. A shield and an earth shield are laid on the actor as
/// buffs, the earth shield with twice the power as its strength.
pub open spec fn cast_on(actor: ActorState, kind: SpellKind, power: u8) -> ActorState {
    match kind {
        SpellKind::Firebolt => actor.damaged(2 * power, DamageType::Burn),
        SpellKind::MagicMissile => struck(actor, missile_count(power)),
        SpellKind::Shield => actor.buffed(Buff::Shield(power)),
        SpellKind::EarthShield => actor.buffed(Buff::EarthShield((2 * power) as i8)),
    }
}

fn firebolt(power: u8, target: &mut Actor)
    requires
        power <= MAX_DOUBLED_POWER,
        old(target).wf(),
    ensures
        final(target).wf(),
        final(target)@ == cast_on(old(target)@, SpellKind::Firebolt, power),
{
    target.take_damage(Damage::new(power as i8 * 2, DamageType::Burn));
}

fn magic_missile(power: u8, target: &mut Actor)
    requires
        old(target).wf(),
    ensures
        final(target).wf(),
        final(target)@ == cast_on(old(target)@, SpellKind::MagicMissile, power),
{
    let count: u8 = match power {
        0 => 0,
        1 => 1,
        2 => 2,
        3 => 4,
        _ => 6,
    };
    let mut sent: u8 = 0;
    while sent < count
        invariant
            sent <= count,
            count == missile_count(power),
            target.wf(),
            target@ == struck(old(target)@, sent as nat),
        decreases count - sent,
    {
        target.take_damage(Damage::new(MISSILE_DAMAGE, DamageType::Magic));
        sent += 1;
    }
}

fn shield(power: u8, target: &mut Actor)
    requires
        old(target).wf(),
    ensures
        final(target).wf(),
        final(target)@ == cast_on(old(target)@, SpellKind::Shield, power),
{
    target.add_buff(Buff::Shield(power));
}

fn earth_shell(power: u8, target: &mut Actor)
    requires
        power <= MAX_DOUBLED_POWER,
        old(target).wf(),
    ensures
        final(target).wf(),
        final(target)@ == cast_on(old(target)@, SpellKind::EarthShield, power),
{
    target.add_buff(Buff::EarthShield(2 * power as i8));
}

/// The effects of the spells.
pub struct CastEffects {}

impl CastEffects {
    /// The effects of all spells.
    pub fn new() -> Self {
        Self {  }
    }

    /// Casts a spell on an actor at a power.
    pub fn apply_effect(&mut self, kind: &SpellKind, power: u8, target: &mut Actor)
        requires
            castable(*kind, power),
            old(target).wf(),
        ensures
            final(target).wf(),
            final(target)@ == cast_on(old(target)@, *kind, power),
    {
        match kind {
            SpellKind::Firebolt => firebolt(power, target),
            SpellKind::MagicMissile => magic_missile(power, target),
            SpellKind::Shield => shield(power, target),
            SpellKind::EarthShield => earth_shell(power, target),
        }
    }
}

} // verus!
