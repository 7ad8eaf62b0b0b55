use vstd::prelude::*;

use crate::character::Character;
use crate::race::{class_id, get_power_for_class, race_id, Class, Power, Race};

verus! {

/// The attributes a race and class have at a level before any bonus.
#[derive(Clone, Copy, Debug, PartialEq, Eq, Structural)]
pub struct BaseStats {
    pub strength: u8,
    pub agility: u8,
    pub stamina: u8,
    pub intellect: u8,
    pub spirit: u8,
    pub health: u16,
    pub mana: u16,
}

/// The base attributes of the static tables for a race, class and level,
/// keyed by wire identifiers, as (strength, agility, stamina, intellect,
/// spirit, health, mana).
pub uninterp spec fn base_stats_of(race: u8, class: u8, level: u8) -> Option<(u8, u8, u8, u8, u8, u16, u16)>;

pub open spec fn stats_tuple(b: BaseStats) -> (u8, u8, u8, u8, u8, u16, u16) {
    (b.strength, b.agility, b.stamina, b.intellect, b.spirit, b.health, b.mana)
}

/// Relies on wow_world_base's `RaceClass::base_stats_for` (reached through
/// the `TryFrom` conversions of `Race`, `Class` and `RaceClass`), which has
/// no entry for level 0 or above the highest level.
#[verifier::external_body]
fn lookup_base_stats(race: u8, class: u8, level: u8) -> (r: Option<BaseStats>)
    ensures
        match r {
            Some(b) => base_stats_of(race, class, level) == Some(stats_tuple(b)),
            None => base_stats_of(race, class, level) is None,
        },
        level == 0 || level > 60 ==> r is None,
{
    let Ok(race) = wow_world_base::vanilla::Race::try_from(race) else { return None };
    let Ok(class) = wow_world_base::vanilla::Class::try_from(class) else { return None };
    let Ok(race_class) = wow_world_base::vanilla::RaceClass::try_from((race, class)) else {
        return None
    };
    race_class.base_stats_for(level).map(|b| BaseStats {
        strength: b.strength,
        agility: b.agility,
        stamina: b.stamina,
        intellect: b.intellect,
        spirit: b.spirit,
        health: b.health,
        mana: b.mana,
    })
}

/// Health that stamina adds: one point for each of the first twenty, ten
/// for each beyond.
pub open spec fn health_bonus(stamina: u8) -> int {
    if stamina < 20 {
        stamina as int
    } else {
        20 + (stamina - 20) * 10
    }
}

/// Mana that intellect adds: one point for each of the first twenty,
/// fifteen for each beyond.
pub open spec fn mana_bonus(intellect: u8) -> int {
    if intellect < 20 {
        intellect as int
    } else {
        20 + (intellect - 20) * 15
    }
}

/// Relies on wow_world_base's `calculate_health`: base health plus the
/// stamina bonus.
#[verifier::external_body]
fn calculate_health(base_health: u16, stamina: u8) -> (r: u16)
    requires
        base_health + health_bonus(stamina) <= u16::MAX,
    ensures
        r == base_health + health_bonus(stamina),
{
    wow_world_base::stats::calculate_health(base_health, stamina)
}

/// Relies on wow_world_base's `calculate_mana`: base mana plus the
/// intellect bonus.
#[verifier::external_body]
fn calculate_mana(base_mana: u16, intellect: u8) -> (r: u16)
    requires
        base_mana + mana_bonus(intellect) <= u16::MAX,
    ensures
        r == base_mana + mana_bonus(intellect),
{
    wow_world_base::stats::calculate_mana(base_mana, intellect)
}

/// The base attributes of a character: those of its level, else those of
/// level one, else none at all.
pub open spec fn default_stats_spec(c: Character) -> (u8, u8, u8, u8, u8, u16, u16) {
    match base_stats_of(race_id(c.race), class_id(c.class), c.level) {
        Some(t) => t,
        None => match base_stats_of(race_id(c.race), class_id(c.class), 1) {
            Some(t) => t,
            None => (0, 0, 0, 0, 0, 0, 0),
        },
    }
}

impl Character {
    fn default_stats(&self) -> (r: BaseStats)
        ensures
            stats_tuple(r) == default_stats_spec(*self),
    {
        match lookup_base_stats(self.race.id(), self.class.id(), self.level) {
            Some(b) => b,
            None => match lookup_base_stats(self.race.id(), self.class.id(), 1) {
                Some(b) => b,
                None => BaseStats {
                    strength: 0,
                    agility: 0,
                    stamina: 0,
                    intellect: 0,
                    spirit: 0,
                    health: 0,
                    mana: 0,
                },
            },
        }
    }

    pub fn strength(&self) -> (r: i32)
        ensures
            r == default_stats_spec(*self).0,
    {
        self.default_stats().strength as i32
    }

    pub fn agility(&self) -> (r: i32)
        ensures
            r == default_stats_spec(*self).1,
    {
        self.default_stats().agility as i32
    }

    pub fn stamina(&self) -> (r: i32)
        ensures
            r == default_stats_spec(*self).2,
    {
        self.default_stats().stamina as i32
    }

    pub fn intellect(&self) -> (r: i32)
        ensures
            r == default_stats_spec(*self).3,
    {
        self.default_stats().intellect as i32
    }

    pub fn spirit(&self) -> (r: i32)
        ensures
            r == default_stats_spec(*self).4,
    {
        self.default_stats().spirit as i32
    }

    pub fn base_health(&self) -> (r: i32)
        ensures
            r == default_stats_spec(*self).5,
    {
        self.default_stats().health as i32
    }

    pub fn base_mana(&self) -> (r: i32)
        ensures
            r == default_stats_spec(*self).6,
    {
        self.default_stats().mana as i32
    }

    /// Base health plus the stamina bonus; `None` when the sum leaves the
    /// range of the wire's 16-bit health.
    pub fn max_health(&self) -> (r: Option<i32>)
        ensures
            ({
                let t = default_stats_spec(*self);
                if t.5 + health_bonus(t.2) <= u16::MAX {
                    r == Some((t.5 + health_bonus(t.2)) as i32)
                } else {
                    r is None
                }
            }),
    {
        let s = self.default_stats();
        let bonus: u32 = if s.stamina < 20 {
            s.stamina as u32
        } else {
            20 + (s.stamina as u32 - 20) * 10
        };
        if s.health as u32 + bonus > u16::MAX as u32 {
            return None;
        }
        Some(calculate_health(s.health, s.stamina) as i32)
    }

    /// Base mana plus the intellect bonus for classes that use mana, zero
    /// for the others; `None` when the sum leaves the range of the wire's
    /// 16-bit mana.
    pub fn max_mana(&self) -> (r: Option<i32>)
        ensures
            ({
                let t = default_stats_spec(*self);
                if self.class == Class::Warrior || self.class == Class::Rogue {
                    r == Some(0i32)
                } else if t.6 + mana_bonus(t.3) <= u16::MAX {
                    r == Some((t.6 + mana_bonus(t.3)) as i32)
                } else {
                    r is None
                }
            }),
    {
        if get_power_for_class(self.class) != Power::Mana {
            return Some(0);
        }
        let s = self.default_stats();
        let bonus: u32 = if s.intellect < 20 {
            s.intellect as u32
        } else {
            20 + (s.intellect as u32 - 20) * 15
        };
        if s.mana as u32 + bonus > u16::MAX as u32 {
            return None;
        }
        Some(calculate_mana(s.mana, s.intellect) as i32)
    }
}

} // verus!
