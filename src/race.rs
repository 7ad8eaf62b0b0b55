use vstd::prelude::*;

use crate::geometry::Position;

verus! {

#[derive(Clone, Copy, Debug, PartialEq, Eq, Structural)]
pub enum Race {
    Human,
    Orc,
    Dwarf,
    NightElf,
    Undead,
    Tauren,
    Gnome,
    Troll,
    Goblin,
}

#[derive(Clone, Copy, Debug, PartialEq, Eq, Structural)]
pub enum Class {
    Warrior,
    Paladin,
    Hunter,
    Rogue,
    Priest,
    Shaman,
    Mage,
    Warlock,
    Druid,
}

#[derive(Clone, Copy, Debug, PartialEq, Eq, Structural)]
pub enum Gender {
    Male,
    Female,
    Neutral,
}

#[derive(Clone, Copy, Debug, PartialEq, Eq, Structural)]
pub enum Power {
    Mana,
    Rage,
    Focus,
    Energy,
    Happiness,
}

/// Map identifier of the Eastern Kingdoms.
pub const EASTERN_KINGDOMS: u32 = 0;

/// Map identifier of Kalimdor.
pub const KALIMDOR: u32 = 1;

pub open spec fn race_id(r: Race) -> u8 {
    match r {
        Race::Human => 1,
        Race::Orc => 2,
        Race::Dwarf => 3,
        Race::NightElf => 4,
        Race::Undead => 5,
        Race::Tauren => 6,
        Race::Gnome => 7,
        Race::Troll => 8,
        Race::Goblin => 9,
    }
}

pub open spec fn class_id(c: Class) -> u8 {
    match c {
        Class::Warrior => 1,
        Class::Paladin => 2,
        Class::Hunter => 3,
        Class::Rogue => 4,
        Class::Priest => 5,
        Class::Shaman => 7,
        Class::Mage => 8,
        Class::Warlock => 9,
        Class::Druid => 11,
    }
}

pub open spec fn gender_id(g: Gender) -> u8 {
    match g {
        Gender::Male => 0,
        Gender::Female => 1,
        Gender::Neutral => 2,
    }
}

impl Race {
    /// The race with the given wire identifier, if there is one.
    pub fn from_id(id: u8) -> (r: Option<Race>)
        ensures
            r matches Some(race) ==> race_id(race) == id,
            r is None ==> forall|race: Race| race_id(race) != id,
    {
        match id {
            1 => Some(Race::Human),
            2 => Some(Race::Orc),
            3 => Some(Race::Dwarf),
            4 => Some(Race::NightElf),
            5 => Some(Race::Undead),
            6 => Some(Race::Tauren),
            7 => Some(Race::Gnome),
            8 => Some(Race::Troll),
            9 => Some(Race::Goblin),
            _ => None,
        }
    }

    pub fn id(&self) -> (r: u8)
        ensures
            r == race_id(*self),
    {
        match self {
            Race::Human => 1,
            Race::Orc => 2,
            Race::Dwarf => 3,
            Race::NightElf => 4,
            Race::Undead => 5,
            Race::Tauren => 6,
            Race::Gnome => 7,
            Race::Troll => 8,
            Race::Goblin => 9,
        }
    }
}

impl Class {
    /// The class with the given wire identifier, if there is one.
    pub fn from_id(id: u8) -> (r: Option<Class>)
        ensures
            r matches Some(class) ==> class_id(class) == id,
            r is None ==> forall|class: Class| class_id(class) != id,
    {
        match id {
            1 => Some(Class::Warrior),
            2 => Some(Class::Paladin),
            3 => Some(Class::Hunter),
            4 => Some(Class::Rogue),
            5 => Some(Class::Priest),
            7 => Some(Class::Shaman),
            8 => Some(Class::Mage),
            9 => Some(Class::Warlock),
            11 => Some(Class::Druid),
            _ => None,
        }
    }

    pub fn id(&self) -> (r: u8)
        ensures
            r == class_id(*self),
    {
        match self {
            Class::Warrior => 1,
            Class::Paladin => 2,
            Class::Hunter => 3,
            Class::Rogue => 4,
            Class::Priest => 5,
            Class::Shaman => 7,
            Class::Mage => 8,
            Class::Warlock => 9,
            Class::Druid => 11,
        }
    }
}

impl Gender {
    /// The gender with the given wire identifier, if there is one.
    pub fn from_id(id: u8) -> (r: Option<Gender>)
        ensures
            r matches Some(g) ==> gender_id(g) == id,
            r is None ==> id > 2,
    {
        match id {
            0 => Some(Gender::Male),
            1 => Some(Gender::Female),
            2 => Some(Gender::Neutral),
            _ => None,
        }
    }

    pub fn id(&self) -> (r: u8)
        ensures
            r == gender_id(*self),
    {
        match self {
            Gender::Male => 0,
            Gender::Female => 1,
            Gender::Neutral => 2,
        }
    }
}

pub open spec fn display_id_spec(race: Race, gender: Gender) -> i32 {
    let base: i32 = match race {
        Race::Human => 49,
        Race::Orc => 51,
        Race::Dwarf => 53,
        Race::NightElf => 55,
        Race::Undead => 57,
        Race::Tauren => 59,
        Race::Gnome => 1563,
        Race::Troll => 1478,
        Race::Goblin => 1140,
    };
    if gender == Gender::Female {
        (base + 1) as i32
    } else {
        base
    }
}

/// The model shown for a player of the given race and gender: the female
/// model directly follows the male one.
pub fn get_display_id_for_player(race: Race, gender: Gender) -> (r: i32)
    ensures
        r == display_id_spec(race, gender),
{
    let race: i32 = match race {
        Race::Human => 49,
        Race::Orc => 51,
        Race::Dwarf => 53,
        Race::NightElf => 55,
        Race::Undead => 57,
        Race::Tauren => 59,
        Race::Gnome => 1563,
        Race::Troll => 1478,
        Race::Goblin => 1140,
    };
    let gender: i32 = match gender {
        Gender::Male => 0,
        Gender::Female => 1,
        Gender::Neutral => 0,
    };
    race + gender
}

/// Warriors fight with rage, rogues with energy, every other class with mana.
pub fn get_power_for_class(class: Class) -> (r: Power)
    ensures
        class == Class::Warrior ==> r == Power::Rage,
        class == Class::Rogue ==> r == Power::Energy,
        class != Class::Warrior && class != Class::Rogue ==> r == Power::Mana,
{
    match class {
        Class::Warrior => Power::Rage,
        Class::Rogue => Power::Energy,
        Class::Paladin | Class::Hunter | Class::Priest | Class::Shaman | Class::Mage
        | Class::Warlock | Class::Druid => Power::Mana,
    }
}

pub open spec fn race_faction_spec(race: Race) -> i32 {
    match race {
        Race::Human => 1,
        Race::Orc => 2,
        Race::Dwarf => 3,
        Race::NightElf => 4,
        Race::Undead => 5,
        Race::Tauren => 6,
        Race::Gnome => 115,
        Race::Troll => 116,
        Race::Goblin => 1,
    }
}

pub fn get_race_faction(race: Race) -> (r: i32)
    ensures
        r == race_faction_spec(race),
{
    match race {
        Race::Human => 1,
        Race::Orc => 2,
        Race::Dwarf => 3,
        Race::NightElf => 4,
        Race::Undead => 5,
        Race::Tauren => 6,
        Race::Gnome => 115,
        Race::Troll => 116,
        Race::Goblin => 1,
    }
}

/// Model scale in thousandths: tauren are drawn larger, everyone else at
/// the natural size.
pub fn get_race_scale(race: Race, gender: Gender) -> (r: u32)
    ensures
        race != Race::Tauren ==> r == 1000,
        race == Race::Tauren && gender == Gender::Male ==> r == 1350,
        race == Race::Tauren && gender == Gender::Female ==> r == 1250,
        race == Race::Tauren && gender == Gender::Neutral ==> r == 1000,
{
    match race {
        Race::Tauren => match gender {
            Gender::Male => 1350,
            Gender::Female => 1250,
            Gender::Neutral => 1000,
        },
        _ => 1000,
    }
}

/// The classes that each playable race may take.
pub open spec fn race_class_allowed(race: Race, class: Class) -> bool {
    match race {
        Race::Dwarf => class == Class::Hunter || class == Class::Paladin || class == Class::Priest
            || class == Class::Rogue || class == Class::Warrior,
        Race::Gnome => class == Class::Mage || class == Class::Rogue || class == Class::Warlock
            || class == Class::Warrior,
        Race::Human => class == Class::Mage || class == Class::Paladin || class == Class::Priest
            || class == Class::Rogue || class == Class::Warlock || class == Class::Warrior,
        Race::NightElf => class == Class::Druid || class == Class::Hunter || class
            == Class::Priest || class == Class::Rogue || class == Class::Warrior,
        Race::Orc => class == Class::Hunter || class == Class::Rogue || class == Class::Shaman
            || class == Class::Warlock || class == Class::Warrior,
        Race::Tauren => class == Class::Druid || class == Class::Hunter || class == Class::Shaman
            || class == Class::Warrior,
        Race::Troll => class == Class::Hunter || class == Class::Mage || class == Class::Priest
            || class == Class::Rogue || class == Class::Shaman || class == Class::Warrior,
        Race::Undead => class == Class::Mage || class == Class::Priest || class == Class::Rogue
            || class == Class::Warlock || class == Class::Warrior,
        Race::Goblin => false,
    }
}

pub fn character_race_class_combo_is_valid(race: Race, class: Class) -> (r: bool)
    ensures
        r == race_class_allowed(race, class),
{
    match race {
        Race::Dwarf => match class {
            Class::Hunter | Class::Paladin | Class::Priest | Class::Rogue | Class::Warrior => true,
            _ => false,
        },
        Race::Gnome => match class {
            Class::Mage | Class::Rogue | Class::Warlock | Class::Warrior => true,
            _ => false,
        },
        Race::Human => match class {
            Class::Mage | Class::Paladin | Class::Priest | Class::Rogue | Class::Warlock
            | Class::Warrior => true,
            _ => false,
        },
        Race::NightElf => match class {
            Class::Druid | Class::Hunter | Class::Priest | Class::Rogue | Class::Warrior => true,
            _ => false,
        },
        Race::Orc => match class {
            Class::Hunter | Class::Rogue | Class::Shaman | Class::Warlock | Class::Warrior => true,
            _ => false,
        },
        Race::Tauren => match class {
            Class::Druid | Class::Hunter | Class::Shaman | Class::Warrior => true,
            _ => false,
        },
        Race::Troll => match class {
            Class::Hunter | Class::Mage | Class::Priest | Class::Rogue | Class::Shaman
            | Class::Warrior => true,
            _ => false,
        },
        Race::Undead => match class {
            Class::Mage | Class::Priest | Class::Rogue | Class::Warlock | Class::Warrior => true,
            _ => false,
        },
        Race::Goblin => false,
    }
}

/// Upper bounds, inclusive, of the cosmetic choices of a playable race and
/// gender: skin, facial hair, face, hair colour, hair style. Goblins and
/// the neutral gender have none.
pub open spec fn feature_limits(race: Race, gender: Gender) -> Option<(u8, u8, u8, u8, u8)> {
    match (race, gender) {
        (Race::Goblin, _) | (_, Gender::Neutral) => None,
        (Race::Human, Gender::Male) => Some((9, 8, 11, 9, 11)),
        (Race::Human, Gender::Female) => Some((9, 6, 14, 9, 18)),
        (Race::Orc, Gender::Male) => Some((8, 10, 8, 7, 6)),
        (Race::Orc, Gender::Female) => Some((8, 6, 8, 7, 7)),
        (Race::Dwarf, Gender::Male) => Some((8, 10, 9, 9, 10)),
        (Race::Dwarf, Gender::Female) => Some((8, 5, 9, 9, 13)),
        (Race::NightElf, Gender::Male) => Some((8, 5, 8, 7, 6)),
        (Race::NightElf, Gender::Female) => Some((8, 9, 8, 7, 6)),
        (Race::Undead, Gender::Male) => Some((5, 16, 9, 9, 9)),
        (Race::Undead, Gender::Female) => Some((5, 7, 9, 9, 9)),
        (Race::Tauren, Gender::Male) => Some((18, 6, 4, 2, 7)),
        (Race::Tauren, Gender::Female) => Some((10, 4, 3, 2, 6)),
        (Race::Gnome, Gender::Male) => Some((4, 7, 6, 8, 6)),
        (Race::Gnome, Gender::Female) => Some((4, 6, 6, 8, 6)),
        (Race::Troll, Gender::Male) => Some((5, 10, 4, 9, 5)),
        (Race::Troll, Gender::Female) => Some((5, 5, 5, 9, 4)),
    }
}

fn features_limits(race: Race, gender: Gender) -> (r: Option<(u8, u8, u8, u8, u8)>)
    ensures
        r == feature_limits(race, gender),
{
    match (race, gender) {
        (Race::Goblin, _) | (_, Gender::Neutral) => None,
        (Race::Human, Gender::Male) => Some((9, 8, 11, 9, 11)),
        (Race::Human, Gender::Female) => Some((9, 6, 14, 9, 18)),
        (Race::Orc, Gender::Male) => Some((8, 10, 8, 7, 6)),
        (Race::Orc, Gender::Female) => Some((8, 6, 8, 7, 7)),
        (Race::Dwarf, Gender::Male) => Some((8, 10, 9, 9, 10)),
        (Race::Dwarf, Gender::Female) => Some((8, 5, 9, 9, 13)),
        (Race::NightElf, Gender::Male) => Some((8, 5, 8, 7, 6)),
        (Race::NightElf, Gender::Female) => Some((8, 9, 8, 7, 6)),
        (Race::Undead, Gender::Male) => Some((5, 16, 9, 9, 9)),
        (Race::Undead, Gender::Female) => Some((5, 7, 9, 9, 9)),
        (Race::Tauren, Gender::Male) => Some((18, 6, 4, 2, 7)),
        (Race::Tauren, Gender::Female) => Some((10, 4, 3, 2, 6)),
        (Race::Gnome, Gender::Male) => Some((4, 7, 6, 8, 6)),
        (Race::Gnome, Gender::Female) => Some((4, 6, 6, 8, 6)),
        (Race::Troll, Gender::Male) => Some((5, 10, 4, 9, 5)),
        (Race::Troll, Gender::Female) => Some((5, 5, 5, 9, 4)),
    }
}

/// Whether a new character's looks are within what its race and gender offer.
pub fn character_features_are_valid(
    race: Race,
    gender: Gender,
    skin: u8,
    facial_hair: u8,
    face: u8,
    hair_color: u8,
    hair_style: u8,
) -> (r: bool)
    ensures
        r == match feature_limits(race, gender) {
            None => false,
            Some(l) => skin <= l.0 && facial_hair <= l.1 && face <= l.2 && hair_color <= l.3
                && hair_style <= l.4,
        },
{
    match features_limits(race, gender) {
        None => false,
        Some((max_skin, max_facial_hair, max_face, max_hair_color, max_hair_style)) => {
            skin <= max_skin && facial_hair <= max_facial_hair && face <= max_face && hair_color
                <= max_hair_color && hair_style <= max_hair_style
        },
    }
}

/// Experience needed to leave each level, starting with level 1.
pub open spec fn exp_table() -> Seq<i32> {
    seq![
        400, 900, 1400, 2100, 2800, 3600, 4500, 5400, 6500, 7600, 8800, 10100, 11400, 12900,
        14400, 16000, 17700, 19400, 21300, 23200, 25200, 27300, 29400, 31700, 34000, 36400,
        38900, 41400, 44300, 47400, 50800, 54500, 58600, 62800, 67100, 71600, 76100, 80800,
        85700, 90700, 95800, 101000, 106300, 111800, 117500, 123200, 129100, 135100, 141200,
        147500, 153900, 160400, 167100, 173900, 180800, 187900, 195000, 202300, 209800, 217400,
    ]
}

/// Experience needed to level up from `level`. Levels 0 and from 60 on need
/// none: the client hides the bar there.
pub fn exp_required_to_level_up(level: u8) -> (r: i32)
    ensures
        level == 0 || level >= 60 ==> r == 0,
        1 <= level < 60 ==> r == exp_table()[level - 1],
{
    if level == 0 || level >= 60 {
        return 0;
    }
    let table: Vec<i32> = vec![
        400, 900, 1400, 2100, 2800, 3600, 4500, 5400, 6500, 7600, 8800, 10100, 11400, 12900,
        14400, 16000, 17700, 19400, 21300, 23200, 25200, 27300, 29400, 31700, 34000, 36400,
        38900, 41400, 44300, 47400, 50800, 54500, 58600, 62800, 67100, 71600, 76100, 80800,
        85700, 90700, 95800, 101000, 106300, 111800, 117500, 123200, 129100, 135100, 141200,
        147500, 153900, 160400, 167100, 173900, 180800, 187900, 195000, 202300, 209800, 217400,
    ];
    assert(table@ =~= exp_table());
    table[(level - 1) as usize]
}

/// Where a new character of the given race enters the world (goblins, not
/// playable, share the human start).
pub open spec fn starting_position_spec(race: Race) -> Position {
    match race {
        Race::Human | Race::Goblin => Position {
            map: EASTERN_KINGDOMS,
            x: -8949950i32,
            y: -132493i32,
            z: 83531,
            orientation: 0,
        },
        Race::Tauren => Position {
            map: KALIMDOR,
            x: -2917580i32,
            y: -257980i32,
            z: 52997,
            orientation: 0,
        },
        Race::Orc | Race::Troll => Position {
            map: KALIMDOR,
            x: -618518i32,
            y: -4251670i32,
            z: 38718,
            orientation: 0,
        },
        Race::Dwarf | Race::Gnome => Position {
            map: EASTERN_KINGDOMS,
            x: -6240320i32,
            y: 331033,
            z: 382758,
            orientation: 6177,
        },
        Race::NightElf => Position {
            map: KALIMDOR,
            x: 10311300,
            y: 832463,
            z: 1326410,
            orientation: 5696,
        },
        Race::Undead => Position {
            map: EASTERN_KINGDOMS,
            x: 1676710,
            y: 1678310,
            z: 121670,
            orientation: 2705,
        },
    }
}

pub fn get_starting_position(race: Race) -> (r: Position)
    ensures
        r == starting_position_spec(race),
{
    match race {
        Race::Human | Race::Goblin => Position::new(EASTERN_KINGDOMS, -8949950, -132493, 83531, 0),
        Race::Tauren => Position::new(KALIMDOR, -2917580, -257980, 52997, 0),
        Race::Orc | Race::Troll => Position::new(KALIMDOR, -618518, -4251670, 38718, 0),
        Race::Dwarf | Race::Gnome => Position::new(
            EASTERN_KINGDOMS,
            -6240320,
            331033,
            382758,
            6177,
        ),
        Race::NightElf => Position::new(KALIMDOR, 10311300, 832463, 1326410, 5696),
        Race::Undead => Position::new(EASTERN_KINGDOMS, 1676710, 1678310, 121670, 2705),
    }
}

} // verus!
