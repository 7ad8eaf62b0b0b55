use vstd::prelude::*;

use crate::geometry::{Position, Vector3};
use crate::inventory::Inventory;
use crate::race::{Class, Gender, Race};

verus! {

/// Length of one world tick in milliseconds.
pub const TIMESTEP_MS: u32 = 100;

/// Time between two unarmed swings in milliseconds.
pub const UNARMED_SPEED_MS: u32 = 1800;

/// Running speed of a new character, in thousandths of a yard per second.
pub const DEFAULT_RUNNING_SPEED: i32 = 7000;

/// Damage dealt by one resolved auto-attack.
pub const AUTO_ATTACK_DAMAGE: u32 = 1332;

/// Highest level a player can reach.
pub const MAX_LEVEL: u8 = 60;

/// Where an entity is and how it moves, as the client last reported it.
#[derive(Clone, Copy, Debug, PartialEq, Eq, Structural)]
pub struct MovementInfo {
    pub flags: u32,
    pub timestamp: u32,
    pub position: Vector3,
    /// Facing in milliradians.
    pub orientation: i32,
    /// Time spent falling, in milliseconds.
    pub fall_time: u32,
}

impl MovementInfo {
    /// Standing still at `p`, with no movement flags set.
    pub fn at(p: Position) -> (r: MovementInfo)
        ensures
            r == (MovementInfo {
                flags: 0,
                timestamp: 0,
                position: p.point(),
                orientation: p.orientation,
                fall_time: 0,
            }),
    {
        MovementInfo {
            flags: 0,
            timestamp: 0,
            position: Vector3 { x: p.x, y: p.y, z: p.z },
            orientation: p.orientation,
            fall_time: 0,
        }
    }
}

/// The authoritative record of a player character.
#[derive(Clone, Debug)]
pub struct Character {
    pub guid: u64,
    pub name: String,
    pub race: Race,
    pub class: Class,
    pub gender: Gender,
    pub skin: u8,
    pub face: u8,
    pub hairstyle: u8,
    pub haircolor: u8,
    pub facialhair: u8,
    pub level: u8,
    pub area: u32,
    pub map: u32,
    pub info: MovementInfo,
    /// Running speed in thousandths of a yard per second.
    pub movement_speed: i32,
    /// The selected entity; zero when nothing is selected.
    pub target: u64,
    pub attacking: bool,
    /// Milliseconds until the next auto-attack may land.
    pub auto_attack_timer: u32,
    pub inventory: Inventory,
}

/// The items a new character of a race and class begins with, as
/// (item entry, slot, amount), keyed by the races' and classes' wire identifiers.
pub uninterp spec fn starter_kit(race: u8, class: u8) -> Seq<(u32, u8, u8)>;

/// Relies on wow_world_base's `RaceClass::starter_items` (reached through the
/// `TryFrom` conversions of `Race`, `Class` and `RaceClass`) for the starting
/// equipment of a race and class: no kit there lists more than ten items,
/// and every slot is an `ItemSlot`, whose largest value is 112.
#[verifier::external_body]
pub(crate) fn starter_items(race: u8, class: u8) -> (r: Vec<(u32, u8, u8)>)
    ensures
        r@ == starter_kit(race, class),
        r@.len() <= 10,
        forall|i: int| 0 <= i < r@.len() ==> (#[trigger] r@[i]).1 < 113,
{
    let Ok(race) = wow_world_base::vanilla::Race::try_from(race) else { return Vec::new() };
    let Ok(class) = wow_world_base::vanilla::Class::try_from(class) else { return Vec::new() };
    let Ok(race_class) = wow_world_base::vanilla::RaceClass::try_from((race, class)) else {
        return Vec::new()
    };
    race_class.starter_items().iter().map(|s| (s.item, s.ty.as_int(), s.amount)).collect()
}

impl Character {
    pub open spec fn wf(&self) -> bool {
        self.inventory.wf()
    }

    /// Where the character stands, on which map, facing where.
    pub open spec fn position_spec(&self) -> Position {
        Position {
            map: self.map,
            x: self.info.position.x,
            y: self.info.position.y,
            z: self.info.position.z,
            orientation: self.info.orientation,
        }
    }

    pub fn position(&self) -> (r: Position)
        ensures
            r == self.position_spec(),
    {
        Position::new(
            self.map,
            self.info.position.x,
            self.info.position.y,
            self.info.position.z,
            self.info.orientation,
        )
    }

    /// A copy of the record, field for field.
    pub fn duplicate(&self) -> (r: Character)
        ensures
            r.same_as(*self),
    {
        Character {
            guid: self.guid,
            name: self.name.clone(),
            race: self.race,
            class: self.class,
            gender: self.gender,
            skin: self.skin,
            face: self.face,
            hairstyle: self.hairstyle,
            haircolor: self.haircolor,
            facialhair: self.facialhair,
            level: self.level,
            area: self.area,
            map: self.map,
            info: self.info,
            movement_speed: self.movement_speed,
            target: self.target,
            attacking: self.attacking,
            auto_attack_timer: self.auto_attack_timer,
            inventory: self.inventory.duplicate(),
        }
    }

    /// Equal in every field, the name and inventory by their contents.
    pub open spec fn same_as(self, other: Character) -> bool {
        &&& self.guid == other.guid
        &&& self.name@ == other.name@
        &&& self.race == other.race
        &&& self.class == other.class
        &&& self.gender == other.gender
        &&& self.skin == other.skin
        &&& self.face == other.face
        &&& self.hairstyle == other.hairstyle
        &&& self.haircolor == other.haircolor
        &&& self.facialhair == other.facialhair
        &&& self.level == other.level
        &&& self.area == other.area
        &&& self.map == other.map
        &&& self.info == other.info
        &&& self.movement_speed == other.movement_speed
        &&& self.target == other.target
        &&& self.attacking == other.attacking
        &&& self.auto_attack_timer == other.auto_attack_timer
        &&& self.inventory@ == other.inventory@
    }

    /// Counts the auto-attack cooldown down by one tick, stopping at zero.
    pub fn update_auto_attack_timer(&mut self)
        ensures
            final(self).auto_attack_timer == if old(self).auto_attack_timer > TIMESTEP_MS {
                (old(self).auto_attack_timer - TIMESTEP_MS) as u32
            } else {
                0
            },
            final(self).same_as(Character { auto_attack_timer: final(self).auto_attack_timer, ..*old(self) }),
    {
        if self.auto_attack_timer > TIMESTEP_MS {
            self.auto_attack_timer = self.auto_attack_timer - TIMESTEP_MS;
        } else {
            self.auto_attack_timer = 0;
        }
    }
}

/// Two records stand for the same character when their identifiers agree,
/// whatever else differs.
impl PartialEq for Character {
    fn eq(&self, other: &Character) -> (r: bool) {
        self.guid == other.guid
    }
}

impl vstd::std_specs::cmp::PartialEqSpecImpl for Character {
    open spec fn obeys_eq_spec() -> bool {
        true
    }

    open spec fn eq_spec(&self, other: &Character) -> bool {
        self.guid == other.guid
    }
}

impl Eq for Character {
}

} // verus!
