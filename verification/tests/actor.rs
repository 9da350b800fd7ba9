use token_combat::actor::Actor;
use token_combat::actor::Attributes;
use token_combat::actor::Buff;
use token_combat::damage::Damage;
use token_combat::damage::DamageType;

#[test]
fn more_same_active_abilities() {
    let mut a = Actor::new(10, 10, 10);

    a.add_buff(Buff::EarthShield(2));
    a.add_buff(Buff::EarthShield(1));
    assert_eq!(a.get_buffs().len(), 1);
    assert_eq!(a.get_buffs().get(0), Some(&Buff::EarthShield(1)));
}

#[test]
fn new_actor_is_at_full_health_and_energy() {
    let a = Actor::new(10, 7, 2);
    assert_eq!(
        a.attributes,
        Attributes { max_health: 10, act_health: 10, max_energy: 7, act_energy: 7, energy_regeneration: 2 }
    );
    assert_eq!(a.get_buffs(), &[]);
}

#[test]
fn replaced_buff_stands_last() {
    let mut a = Actor::new(10, 10, 1);
    a.add_buff(Buff::EarthShield(2));
    a.add_buff(Buff::Shield(1));
    assert_eq!(a.get_buffs(), &[Buff::EarthShield(2), Buff::Shield(1)]);
    a.add_buff(Buff::EarthShield(5));
    assert_eq!(a.get_buffs(), &[Buff::Shield(1), Buff::EarthShield(5)]);
    a.add_buff(Buff::Shield(3));
    assert_eq!(a.get_buffs(), &[Buff::EarthShield(5), Buff::Shield(3)]);
}

#[test]
fn earth_shield_absorbs_and_is_used_up() {
    let mut a = Actor::new(10, 10, 1);
    a.add_buff(Buff::EarthShield(5));
    let left = a.process_damage(Damage::new(3, DamageType::Burn));
    assert_eq!((left.value, left.damage_type), (0, DamageType::Burn));
    assert_eq!(a.get_buffs(), &[Buff::EarthShield(2)]);
    let left = a.process_damage(Damage::new(3, DamageType::Necrotic));
    assert_eq!(left.value, 1);
    assert_eq!(a.get_buffs(), &[Buff::EarthShield(0)]);
    let left = a.process_damage(Damage::new(3, DamageType::Magic));
    assert_eq!(left.value, 3);
    assert_eq!(a.attributes.act_health, 10);
}

#[test]
fn shield_wards_off_magic_only() {
    let mut a = Actor::new(10, 10, 1);
    a.add_buff(Buff::Shield(1));
    assert_eq!(a.process_damage(Damage::new(4, DamageType::Magic)).value, 0);
    assert_eq!(a.process_damage(Damage::new(4, DamageType::Burn)).value, 4);
    assert_eq!(a.process_damage(Damage::new(4, DamageType::Necrotic)).value, 4);
    assert_eq!(a.get_buffs(), &[Buff::Shield(1)]);
}

#[test]
fn buffs_meet_damage_oldest_first() {
    let mut a = Actor::new(10, 10, 1);
    a.add_buff(Buff::EarthShield(3));
    a.add_buff(Buff::Shield(1));
    // the earth shield is used up although the shield would have warded the damage off
    assert_eq!(a.process_damage(Damage::new(2, DamageType::Magic)).value, 0);
    assert_eq!(a.get_buffs(), &[Buff::EarthShield(1), Buff::Shield(1)]);

    let mut b = Actor::new(10, 10, 1);
    b.add_buff(Buff::Shield(1));
    b.add_buff(Buff::EarthShield(3));
    assert_eq!(b.process_damage(Damage::new(2, DamageType::Magic)).value, 0);
    assert_eq!(b.get_buffs(), &[Buff::Shield(1), Buff::EarthShield(3)]);
}

#[test]
fn damage_comes_off_the_health_down_to_zero() {
    let mut a = Actor::new(10, 10, 1);
    a.take_damage(Damage::new(4, DamageType::Burn));
    assert_eq!(a.attributes.act_health, 6);
    a.take_damage(Damage::new(0, DamageType::Burn));
    assert_eq!(a.attributes.act_health, 6);
    a.take_damage(Damage::new(6, DamageType::Burn));
    assert_eq!(a.attributes.act_health, 0);
    a.take_damage(Damage::new(127, DamageType::Burn));
    assert_eq!(a.attributes.act_health, 0);
    assert_eq!(a.attributes.max_health, 10);
}

#[test]
fn shielded_actor_loses_what_the_shield_lets_through() {
    let mut a = Actor::new(10, 10, 1);
    a.add_buff(Buff::EarthShield(3));
    a.take_damage(Damage::new(5, DamageType::Burn));
    assert_eq!(a.attributes.act_health, 8);
    assert_eq!(a.get_buffs(), &[Buff::EarthShield(0)]);
}

#[test]
fn buffs_of_one_kind_are_told_apart_from_others() {
    assert!(Buff::Shield(1).is_same_kind(&Buff::Shield(9)));
    assert!(Buff::EarthShield(1).is_same_kind(&Buff::EarthShield(9)));
    assert!(!Buff::Shield(1).is_same_kind(&Buff::EarthShield(1)));
    assert!(!Buff::EarthShield(1).is_same_kind(&Buff::Shield(1)));
}
