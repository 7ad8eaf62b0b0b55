use vstd::prelude::*;

use crate::character::MovementInfo;
use crate::geometry::Position;
use crate::race::{get_starting_position, starting_position_spec, Race};

verus! {

/// A non-player entity of the world. Creatures do not move yet, but they
/// are replicated with the same movement block as players.
#[derive(Clone, Debug)]
pub struct Creature {
    pub name: String,
    pub guid: u64,
    pub info: MovementInfo,
    pub map: u32,
    pub level: u8,
    pub display_id: u16,
    pub entry: u32,
    pub faction_template: u32,
}

impl Creature {
    /// A level-one creature standing at the human starting point.
    pub fn new(name: String, guid: u64) -> (r: Creature)
        ensures
            r.name@ == name@,
            r.guid == guid,
            r.position_spec() == starting_position_spec(Race::Human),
            r.level == 1,
            r.display_id == 646,
            r.entry == 69,
            r.faction_template == 16,
    {
        let p = get_starting_position(Race::Human);
        Creature {
            name,
            guid,
            info: MovementInfo::at(p),
            map: p.map,
            level: 1,
            display_id: 646,
            entry: 69,
            faction_template: 16,
        }
    }

    pub open spec fn position_spec(&self) -> Position {
        Position {
            map: self.map,
            x: self.info.position.x,
            y: self.info.position.y,
            z: self.info.position.z,
            orientation: self.info.orientation,
        }
    }

    pub fn position(&self) -> (r: Position)
        ensures
            r == self.position_spec(),
    {
        Position::new(
            self.map,
            self.info.position.x,
            self.info.position.y,
            self.info.position.z,
            self.info.orientation,
        )
    }

    /// A copy with the same fields.
    pub fn duplicate(&self) -> (r: Creature)
        ensures
            r.name@ == self.name@,
            r.guid == self.guid,
            r.info == self.info,
            r.map == self.map,
            r.level == self.level,
            r.display_id == self.display_id,
            r.entry == self.entry,
            r.faction_template == self.faction_template,
    {
        Creature {
            name: self.name.clone(),
            guid: self.guid,
            info: self.info,
            map: self.map,
            level: self.level,
            display_id: self.display_id,
            entry: self.entry,
            faction_template: self.faction_template,
        }
    }
}

} // verus!
