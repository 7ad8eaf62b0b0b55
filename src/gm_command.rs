use vstd::prelude::*;

use crate::chat::{eq_ignore_ascii_case, eq_ignore_ascii_case_spec, find_player_by_name};
use crate::character::Character;
use crate::creature::Creature;
use crate::database::{ids_below, WorldDatabase};
use crate::dispatch::{appended, everyone, extends, find_creature, placed_at, prepare_teleport, same_connection, sends, to_everyone};
use crate::inventory::{holds_guid_elsewhere, Item};
use crate::protocol::{Effect, Notice, ServerMessage};
use crate::geometry::{distance_squared, Position};
use crate::items::{
    item_entry_named, item_known, lookup_item_entry_by_name, lookup_item_exists, map_exists,
    map_known,
};
use crate::session::Client;
use crate::text::{
    all_digits, chars_of, decimal_of, decimal_int, digits_value, has_prefix, invalid_argument_text,
    is_word, parse_decimal, parse_int, pieces, read_digits, split_on,
    split_words, string_from_chars, suffix, trim, trimmed_rest, views, words, DIGITS_CAP,
};

verus! {

/// A command a game master typed into chat.
#[derive(Debug)]
pub enum GmCommand {
    WhereAmI,
    Teleport(Position),
    /// A running speed in thousandths of a yard per second.
    SetRunSpeed(i32),
    Mark { names: Vec<String>, p: Position },
    /// The squared distance to the selected entity.
    RangeToTarget(u128),
    AddItem(u32),
    MoveNpc,
    Information(u64),
    ShouldHaveLineOfSight(u64),
    ShouldNotHaveLineOfSight(u64),
}

/// Why a command was refused.
#[derive(Debug)]
pub enum GmCommandError {
    NoTargetSelected,
    InvalidGuid { parameter: String },
    MissingTarget,
    TargetNotFound { guid: u64 },
    NameNotFound { name: String },
    OnlyTwoCoordinates,
    /// An argument that does not parse, with the message that says which.
    InvalidArgument { message: String },
    InvalidMap { map: i32 },
    TooManyArguments,
    MissingMarkNames,
    RangeNoTarget,
    RangeSelfTarget,
    RangeTargetNotFound { guid: u64 },
    RangeOtherMap { name: String, target: u64, target_map: u32, map: u32 },
    NoItemWithId { entry: u32 },
    NoItemNamed { name: String },
    OutOfBounds,
    Invalid { command: String },
}

/// The command words, in the order they are tried.
#[derive(Clone, Copy, Debug, PartialEq, Eq, Structural)]
pub enum CommandWord {
    North,
    South,
    East,
    West,
    WhereAmI,
    Info,
    Go,
    Speed,
    Mark,
    Range,
    Float,
    AddItem,
    Move,
    Los,
    NoLos,
    Unknown,
}

pub open spec fn starts(m: Seq<char>, p: Seq<char>) -> bool {
    p.len() <= m.len() && m.subrange(0, p.len() as int) == p
}

/// Which command `m` asks for: the exact words first, then the prefixes,
/// in a fixed order.
pub open spec fn command_word(m: Seq<char>) -> CommandWord {
    if m == "north"@ {
        CommandWord::North
    } else if m == "south"@ {
        CommandWord::South
    } else if m == "east"@ {
        CommandWord::East
    } else if m == "west"@ {
        CommandWord::West
    } else if m == "whereami"@ {
        CommandWord::WhereAmI
    } else if starts(m, "info"@) {
        CommandWord::Info
    } else if starts(m, "go"@) {
        CommandWord::Go
    } else if starts(m, "speed"@) {
        CommandWord::Speed
    } else if starts(m, "mark"@) {
        CommandWord::Mark
    } else if m == "range"@ {
        CommandWord::Range
    } else if starts(m, "float"@) {
        CommandWord::Float
    } else if starts(m, "additem"@) {
        CommandWord::AddItem
    } else if m == "move"@ {
        CommandWord::Move
    } else if m == "los"@ {
        CommandWord::Los
    } else if m == "nolos"@ {
        CommandWord::NoLos
    } else {
        CommandWord::Unknown
    }
}

pub fn classify(m: &Vec<char>) -> (r: CommandWord)
    ensures
        r == command_word(m@),
{
    if is_word(m, "north") {
        CommandWord::North
    } else if is_word(m, "south") {
        CommandWord::South
    } else if is_word(m, "east") {
        CommandWord::East
    } else if is_word(m, "west") {
        CommandWord::West
    } else if is_word(m, "whereami") {
        CommandWord::WhereAmI
    } else if has_prefix(m, "info") {
        CommandWord::Info
    } else if has_prefix(m, "go") {
        CommandWord::Go
    } else if has_prefix(m, "speed") {
        CommandWord::Speed
    } else if has_prefix(m, "mark") {
        CommandWord::Mark
    } else if is_word(m, "range") {
        CommandWord::Range
    } else if has_prefix(m, "float") {
        CommandWord::Float
    } else if has_prefix(m, "additem") {
        CommandWord::AddItem
    } else if is_word(m, "move") {
        CommandWord::Move
    } else if is_word(m, "los") {
        CommandWord::Los
    } else if is_word(m, "nolos") {
        CommandWord::NoLos
    } else {
        CommandWord::Unknown
    }
}

/// One step of five yards along an axis.
pub const NUDGE: i32 = 5000;

/// `p` moved by `dx` and `dy`, or `None` when a coordinate would leave the
/// range of an `i32`.
pub open spec fn nudged(p: Position, dx: int, dy: int) -> Option<Position> {
    if i32::MIN <= p.x + dx <= i32::MAX && i32::MIN <= p.y + dy <= i32::MAX {
        Some(Position { x: (p.x + dx) as i32, y: (p.y + dy) as i32, ..p })
    } else {
        None
    }
}

fn nudge(p: Position, dx: i32, dy: i32) -> (r: Result<GmCommand, GmCommandError>)
    ensures
        match nudged(p, dx as int, dy as int) {
            Some(q) => r == Ok::<GmCommand, GmCommandError>(GmCommand::Teleport(q)),
            None => r matches Err(GmCommandError::OutOfBounds),
        },
{
    let x = p.x as i64 + dx as i64;
    let y = p.y as i64 + dy as i64;
    if x < i32::MIN as i64 || x > i32::MAX as i64 || y < i32::MIN as i64 || y > i32::MAX as i64 {
        return Err(GmCommandError::OutOfBounds);
    }
    Ok(GmCommand::Teleport(Position { x: x as i32, y: y as i32, ..p }))
}

/// Where the entity with identifier `guid` stands: a player among `others`
/// first, then a creature.
pub open spec fn entity_position(others: Seq<Client>, creatures: Seq<Creature>, guid: u64) -> Option<Position> {
    if exists|k: int| 0 <= k < others.len() && (#[trigger] others[k]).character.guid == guid {
        let k = choose|k: int| 0 <= k < others.len() && (#[trigger] others[k]).character.guid == guid
            && forall|j: int| 0 <= j < k ==> (#[trigger] others[j]).character.guid != guid;
        Some(others[k].character.position_spec())
    } else if exists|k: int| 0 <= k < creatures.len() && (#[trigger] creatures[k]).guid == guid {
        let k = choose|k: int| 0 <= k < creatures.len() && (#[trigger] creatures[k]).guid == guid
            && forall|j: int| 0 <= j < k ==> (#[trigger] creatures[j]).guid != guid;
        Some(creatures[k].position_spec())
    } else {
        None
    }
}

proof fn lemma_first_player(others: Seq<Client>, guid: u64, i: int)
    requires
        0 <= i < others.len(),
        others[i].character.guid == guid,
    ensures
        exists|k: int| 0 <= k < others.len() && (#[trigger] others[k]).character.guid == guid
            && forall|j: int| 0 <= j < k ==> (#[trigger] others[j]).character.guid != guid,
    decreases i,
{
    if exists|j: int| 0 <= j < i && (#[trigger] others[j]).character.guid == guid {
        let j = choose|j: int| 0 <= j < i && (#[trigger] others[j]).character.guid == guid;
        lemma_first_player(others, guid, j);
    }
}

proof fn lemma_first_creature(creatures: Seq<Creature>, guid: u64, i: int)
    requires
        0 <= i < creatures.len(),
        creatures[i].guid == guid,
    ensures
        exists|k: int| 0 <= k < creatures.len() && (#[trigger] creatures[k]).guid == guid
            && forall|j: int| 0 <= j < k ==> (#[trigger] creatures[j]).guid != guid,
    decreases i,
{
    if exists|j: int| 0 <= j < i && (#[trigger] creatures[j]).guid == guid {
        let j = choose|j: int| 0 <= j < i && (#[trigger] creatures[j]).guid == guid;
        lemma_first_creature(creatures, guid, j);
    }
}

/// Index of the first player among `others` whose character has identifier `guid`.
pub fn find_player(others: &Vec<Client>, guid: u64) -> (r: Option<usize>)
    ensures
        match r {
            Some(k) => k < others@.len() && others@[k as int].character.guid == guid
                && forall|j: int| 0 <= j < k ==> (#[trigger] others@[j]).character.guid != guid,
            None => forall|j: int| 0 <= j < others@.len() ==> (#[trigger] others@[j]).character.guid != guid,
        },
{
    let mut i: usize = 0;
    while i < others.len()
        invariant
            i <= others@.len(),
            forall|j: int| 0 <= j < i ==> (#[trigger] others@[j]).character.guid != guid,
        decreases others@.len() - i,
    {
        if others[i].character.guid == guid {
            return Some(i);
        }
        i = i + 1;
    }
    None
}

pub fn find_position(others: &Vec<Client>, creatures: &Vec<Creature>, guid: u64) -> (r: Option<Position>)
    ensures
        r == entity_position(others@, creatures@, guid),
{
    match find_player(others, guid) {
        Some(k) => {
            proof {
                lemma_first_player(others@, guid, k as int);
                let c = choose|c: int| 0 <= c < others@.len() && (#[trigger] others@[c]).character.guid == guid
                    && forall|j: int| 0 <= j < c ==> (#[trigger] others@[j]).character.guid != guid;
                if c < k { assert(others@[c].character.guid != guid); }
                if k < c { assert(others@[k as int].character.guid != guid); }
            }
            Some(others[k].position())
        },
        None => match find_creature(creatures, guid) {
            Some(k) => {
                proof {
                    lemma_first_creature(creatures@, guid, k as int);
                    let c = choose|c: int| 0 <= c < creatures@.len() && (#[trigger] creatures@[c]).guid == guid
                        && forall|j: int| 0 <= j < c ==> (#[trigger] creatures@[j]).guid != guid;
                    if c < k { assert(creatures@[c].guid != guid); }
                    if k < c { assert(creatures@[k as int].guid != guid); }
                }
                Some(creatures[k].position())
            },
            None => None,
        },
    }
}

/// What `.info` selects: an identifier written in the argument, else the
/// current target.
pub open spec fn info_result(t: Seq<char>, target: u64, r: Result<GmCommand, GmCommandError>) -> bool {
    if all_digits(t) && digits_value(t) < DIGITS_CAP {
        r == Ok::<GmCommand, GmCommandError>(GmCommand::Information(digits_value(t) as u64))
    } else if target != 0 {
        r == Ok::<GmCommand, GmCommandError>(GmCommand::Information(target))
    } else if t.len() != 0 {
        r matches Err(GmCommandError::NoTargetSelected)
    } else {
        r matches Err(GmCommandError::InvalidGuid { parameter }) && parameter@ == t
    }
}

fn parse_info(t: &Vec<char>, target: u64) -> (r: Result<GmCommand, GmCommandError>)
    ensures
        info_result(t@, target, r),
{
    if t.len() > 0 {
        match read_digits(t, 0, t.len()) {
            Some(v) => {
                assert(t@.subrange(0, t@.len() as int) =~= t@);
                if v < DIGITS_CAP {
                    return Ok(GmCommand::Information(v));
                }
            },
            None => {
                assert(t@.subrange(0, t@.len() as int) =~= t@);
            },
        }
    }
    if target != 0 {
        Ok(GmCommand::Information(target))
    } else if t.len() != 0 {
        Err(GmCommandError::NoTargetSelected)
    } else {
        Err(GmCommandError::InvalidGuid { parameter: string_from_chars(t) })
    }
}

/// A decimal argument: its value in thousandths, or the message that names it.
pub open spec fn decimal_result(t: Seq<char>, name: Seq<char>, r: Result<i32, String>) -> bool {
    match r {
        Ok(n) => decimal_of(t) == Some(n),
        Err(e) => decimal_of(t) is None && e@ == invalid_argument_text(name, t),
    }
}

fn parse_decimal_chars(t: &Vec<char>, name: &str) -> (r: Result<i32, String>)
    ensures
        decimal_result(t@, name@, r),
{
    let s = string_from_chars(t);
    let r = parse_decimal(s.as_str(), name);
    r
}

/// The integer of a decimal argument, when it fits in an `i32`.
pub open spec fn int_of(t: Seq<char>) -> Option<i32> {
    match decimal_int(t) {
        Some(n) => if i32::MIN <= n <= i32::MAX {
            Some(n as i32)
        } else {
            None
        },
        None => None,
    }
}

/// `k` is the first creature whose name matches `name` without regard to ASCII case.
pub open spec fn first_creature_named(creatures: Seq<Creature>, name: Seq<char>, k: int) -> bool {
    &&& 0 <= k < creatures.len()
    &&& eq_ignore_ascii_case_spec(creatures[k].name@, name)
    &&& forall|j: int| 0 <= j < k ==> !eq_ignore_ascii_case_spec(#[trigger] creatures[j].name@, name)
}

/// Where the entity called `name` stands: a player among `others` first,
/// then a creature; names are compared without regard to ASCII case.
pub open spec fn named_position(others: Seq<Client>, creatures: Seq<Creature>, name: Seq<char>) -> Option<Position> {
    if exists|k: int| crate::chat::first_named(others, name, k) {
        let k = choose|k: int| crate::chat::first_named(others, name, k);
        Some(others[k].character.position_spec())
    } else if exists|k: int| first_creature_named(creatures, name, k) {
        let k = choose|k: int| first_creature_named(creatures, name, k);
        Some(creatures[k].position_spec())
    } else {
        None
    }
}

fn find_named_position(others: &Vec<Client>, creatures: &Vec<Creature>, name: &str) -> (r: Option<Position>)
    ensures
        r == named_position(others@, creatures@, name@),
{
    match find_player_by_name(others, name) {
        Some(k) => {
            proof {
                let c = choose|c: int| crate::chat::first_named(others@, name@, c);
                if c < k { assert(!eq_ignore_ascii_case_spec(others@[c].character.name@, name@)); }
                if k < c { assert(!eq_ignore_ascii_case_spec(others@[k as int].character.name@, name@)); }
            }
            return Some(others[k].position());
        },
        None => {
            assert(!exists|k: int| crate::chat::first_named(others@, name@, k));
        },
    }
    let mut i: usize = 0;
    while i < creatures.len()
        invariant
            !exists|k: int| crate::chat::first_named(others@, name@, k),
            i <= creatures@.len(),
            forall|j: int| 0 <= j < i ==> !eq_ignore_ascii_case_spec(#[trigger] creatures@[j].name@, name@),
        decreases creatures@.len() - i,
    {
        if eq_ignore_ascii_case(creatures[i].name.as_str(), name) {
            proof {
                assert(first_creature_named(creatures@, name@, i as int));
                let c = choose|c: int| first_creature_named(creatures@, name@, c);
                if c < i { assert(!eq_ignore_ascii_case_spec(creatures@[c].name@, name@)); }
                if i < c { assert(!eq_ignore_ascii_case_spec(creatures@[i as int].name@, name@)); }
            }
            return Some(creatures[i].position());
        }
        i = i + 1;
    }
    None
}

/// What `.go` does with its words: no word goes to the target, one word
/// to the entity of that name, three or four words to coordinates on the
/// current map or on the given one.
pub open spec fn go_result(
    ws: Seq<Seq<char>>,
    client: Client,
    others: Seq<Client>,
    creatures: Seq<Creature>,
    r: Result<GmCommand, GmCommandError>,
) -> bool {
    let me = client.character;
    if ws.len() == 0 {
        if me.target != 0 {
            match entity_position(others, creatures, me.target) {
                Some(p) => r == Ok::<GmCommand, GmCommandError>(GmCommand::Teleport(p)),
                None => r matches Err(GmCommandError::TargetNotFound { guid }) && guid == me.target,
            }
        } else {
            r matches Err(GmCommandError::MissingTarget)
        }
    } else if ws.len() == 1 {
        match named_position(others, creatures, ws[0]) {
            Some(p) => r == Ok::<GmCommand, GmCommandError>(GmCommand::Teleport(p)),
            None => r matches Err(GmCommandError::NameNotFound { name }) && name@ == ws[0],
        }
    } else if ws.len() == 2 {
        r matches Err(GmCommandError::OnlyTwoCoordinates)
    } else if ws.len() <= 4 {
        match (decimal_of(ws[0]), decimal_of(ws[1]), decimal_of(ws[2])) {
            (Some(x), Some(y), Some(z)) => if ws.len() == 3 {
                r == Ok::<GmCommand, GmCommandError>(
                    GmCommand::Teleport(
                        Position { map: me.map, x, y, z, orientation: me.info.orientation },
                    ),
                )
            } else {
                match int_of(ws[3]) {
                    Some(m) => if m >= 0 && map_known(m as u32) {
                        r == Ok::<GmCommand, GmCommandError>(
                            GmCommand::Teleport(
                                Position { map: m as u32, x, y, z, orientation: me.info.orientation },
                            ),
                        )
                    } else {
                        r matches Err(GmCommandError::InvalidMap { map }) && map == m
                    },
                    None => r matches Err(GmCommandError::InvalidArgument { message })
                        && message@ == invalid_argument_text("map"@, ws[3]),
                }
            },
            (None, _, _) => r matches Err(GmCommandError::InvalidArgument { message })
                && message@ == invalid_argument_text("x coordinate"@, ws[0]),
            (Some(_), None, _) => r matches Err(GmCommandError::InvalidArgument { message })
                && message@ == invalid_argument_text("y coordinate"@, ws[1]),
            (Some(_), Some(_), None) => r matches Err(GmCommandError::InvalidArgument { message })
                && message@ == invalid_argument_text("z coordinate"@, ws[2]),
        }
    } else {
        r matches Err(GmCommandError::TooManyArguments)
    }
}

fn parse_go(
    ws: &Vec<Vec<char>>,
    client: &Client,
    others: &Vec<Client>,
    creatures: &Vec<Creature>,
) -> (r: Result<GmCommand, GmCommandError>)
    ensures
        go_result(views(ws@), *client, others@, creatures@, r),
{
    let me = &client.character;
    let n = ws.len();
    assert(views(ws@).len() == n);
    if n == 0 {
        if me.target != 0 {
            match find_position(others, creatures, me.target) {
                Some(p) => Ok(GmCommand::Teleport(p)),
                None => Err(GmCommandError::TargetNotFound { guid: me.target }),
            }
        } else {
            Err(GmCommandError::MissingTarget)
        }
    } else if n == 1 {
        assert(views(ws@)[0] == ws@[0]@);
        let name = string_from_chars(&ws[0]);
        match find_named_position(others, creatures, name.as_str()) {
            Some(p) => Ok(GmCommand::Teleport(p)),
            None => Err(GmCommandError::NameNotFound { name }),
        }
    } else if n == 2 {
        Err(GmCommandError::OnlyTwoCoordinates)
    } else if n <= 4 {
        assert(views(ws@)[0] == ws@[0]@);
        assert(views(ws@)[1] == ws@[1]@);
        assert(views(ws@)[2] == ws@[2]@);
        let x = match parse_decimal_chars(&ws[0], "x coordinate") {
            Ok(v) => v,
            Err(message) => return Err(GmCommandError::InvalidArgument { message }),
        };
        let y = match parse_decimal_chars(&ws[1], "y coordinate") {
            Ok(v) => v,
            Err(message) => return Err(GmCommandError::InvalidArgument { message }),
        };
        let z = match parse_decimal_chars(&ws[2], "z coordinate") {
            Ok(v) => v,
            Err(message) => return Err(GmCommandError::InvalidArgument { message }),
        };
        if n == 3 {
            return Ok(
                GmCommand::Teleport(
                    Position { map: me.map, x, y, z, orientation: me.info.orientation },
                ),
            );
        }
        assert(views(ws@)[3] == ws@[3]@);
        let text = string_from_chars(&ws[3]);
        let m = match parse_int(text.as_str(), "map") {
            Ok(v) => v,
            Err(message) => return Err(GmCommandError::InvalidArgument { message }),
        };
        if m < 0 || !map_exists(m as u32) {
            return Err(GmCommandError::InvalidMap { map: m });
        }
        Ok(
            GmCommand::Teleport(
                Position { map: m as u32, x, y, z, orientation: me.info.orientation },
            ),
        )
    } else {
        Err(GmCommandError::TooManyArguments)
    }
}

/// What `.range` reports about the selected entity.
pub open spec fn range_result(
    client: Client,
    others: Seq<Client>,
    creatures: Seq<Creature>,
    r: Result<GmCommand, GmCommandError>,
) -> bool {
    let me = client.character;
    if me.target == 0 {
        r matches Err(GmCommandError::RangeNoTarget)
    } else if me.target == me.guid {
        r matches Err(GmCommandError::RangeSelfTarget)
    } else {
        match entity_position(others, creatures, me.target) {
            None => r matches Err(GmCommandError::RangeTargetNotFound { guid }) && guid == me.target,
            Some(p) => if p.map == me.map {
                r == Ok::<GmCommand, GmCommandError>(
                    GmCommand::RangeToTarget(distance_squared(me.position_spec().point(), p.point()) as u128),
                )
            } else {
                r matches Err(GmCommandError::RangeOtherMap { target, target_map, map, .. })
                    && target == me.target && target_map == p.map && map == me.map
            },
        }
    }
}

fn parse_range(client: &Client, others: &Vec<Client>, creatures: &Vec<Creature>) -> (r: Result<GmCommand, GmCommandError>)
    ensures
        range_result(*client, others@, creatures@, r),
{
    let me = &client.character;
    let target = me.target;
    if target == 0 {
        return Err(GmCommandError::RangeNoTarget);
    }
    if target == me.guid {
        return Err(GmCommandError::RangeSelfTarget);
    }
    let position = match find_position(others, creatures, target) {
        Some(p) => p,
        None => return Err(GmCommandError::RangeTargetNotFound { guid: target }),
    };
    let name = match find_player(others, target) {
        Some(k) => others[k].character.name.clone(),
        None => match find_creature(creatures, target) {
            Some(k) => creatures[k].name.clone(),
            None => String::new(),
        },
    };
    match client.distance_to_position(&position) {
        Some(d) => Ok(GmCommand::RangeToTarget(d)),
        None => Err(GmCommandError::RangeOtherMap { name, target, target_map: position.map, map: me.map }),
    }
}

/// The trimmed pieces of a comma-separated list.
pub open spec fn mark_names(t: Seq<char>) -> Seq<Seq<char>> {
    pieces(t, ',').map_values(|x: Seq<char>| trim(x))
}

pub open spec fn string_views(v: Seq<String>) -> Seq<Seq<char>> {
    v.map_values(|x: String| x@)
}

fn trimmed_names(t: &Vec<char>) -> (r: Vec<String>)
    ensures
        string_views(r@) == mark_names(t@),
{
    let parts = split_on(t, ',');
    let mut r: Vec<String> = Vec::new();
    let mut i: usize = 0;
    while i < parts.len()
        invariant
            i <= parts@.len(),
            views(parts@) == pieces(t@, ','),
            string_views(r@) == mark_names(t@).subrange(0, i as int),
        decreases parts@.len() - i,
    {
        let piece = trimmed_rest(&parts[i], 0);
        assert(parts@[i as int]@.skip(0) =~= parts@[i as int]@);
        assert(views(parts@)[i as int] == parts@[i as int]@);
        assert(piece@ == trim(pieces(t@, ',')[i as int]));
        assert(mark_names(t@)[i as int] == piece@);
        let ghost before = r@;
        r.push(string_from_chars(&piece));
        assert(string_views(r@) =~= string_views(before).push(piece@));
        assert(mark_names(t@).subrange(0, i + 1) =~= mark_names(t@).subrange(0, i as int).push(piece@));
        i = i + 1;
        assert(string_views(r@) =~= mark_names(t@).subrange(0, i as int));
    }
    assert(mark_names(t@).subrange(0, parts@.len() as int) =~= mark_names(t@));
    r
}

/// Distance that `.float` rises by when no distance is given.
pub const FLOAT_DEFAULT: i32 = 5000;

/// The player's position raised by `d`, or `None` beyond the range of an `i32`.
pub open spec fn raised(p: Position, d: int) -> Option<Position> {
    if i32::MIN <= p.z + d <= i32::MAX {
        Some(Position { z: (p.z + d) as i32, ..p })
    } else {
        None
    }
}

/// The command that a game master's chat message `m` (without its leading
/// dots) asks for, read against the sender, the other players and the
/// creatures; nothing changes.
pub open spec fn command_result(
    m: Seq<char>,
    client: Client,
    others: Seq<Client>,
    creatures: Seq<Creature>,
    r: Result<GmCommand, GmCommandError>,
) -> bool {
    let me = client.character;
    let p = me.position_spec();
    match command_word(m) {
        CommandWord::North => match nudged(p, NUDGE as int, 0) {
            Some(q) => r == Ok::<GmCommand, GmCommandError>(GmCommand::Teleport(q)),
            None => r matches Err(GmCommandError::OutOfBounds),
        },
        CommandWord::South => match nudged(p, -NUDGE, 0) {
            Some(q) => r == Ok::<GmCommand, GmCommandError>(GmCommand::Teleport(q)),
            None => r matches Err(GmCommandError::OutOfBounds),
        },
        CommandWord::East => match nudged(p, 0, -NUDGE) {
            Some(q) => r == Ok::<GmCommand, GmCommandError>(GmCommand::Teleport(q)),
            None => r matches Err(GmCommandError::OutOfBounds),
        },
        CommandWord::West => match nudged(p, 0, NUDGE as int) {
            Some(q) => r == Ok::<GmCommand, GmCommandError>(GmCommand::Teleport(q)),
            None => r matches Err(GmCommandError::OutOfBounds),
        },
        CommandWord::WhereAmI => r matches Ok(GmCommand::WhereAmI),
        CommandWord::Info => info_result(trim(m.skip(4)), me.target, r),
        CommandWord::Go => go_result(words(m.skip(2)), client, others, creatures, r),
        CommandWord::Speed => match decimal_of(trim(m.skip(5))) {
            Some(v) => r == Ok::<GmCommand, GmCommandError>(GmCommand::SetRunSpeed(v)),
            None => r matches Err(GmCommandError::InvalidArgument { message })
                && message@ == invalid_argument_text("speed argument"@, trim(m.skip(5))),
        },
        CommandWord::Mark => if trim(m.skip(4)).len() == 0 {
            r matches Err(GmCommandError::MissingMarkNames)
        } else {
            r matches Ok(GmCommand::Mark { names, p: q }) && q == p && string_views(names@)
                == mark_names(trim(m.skip(4)))
        },
        CommandWord::Range => range_result(client, others, creatures, r),
        CommandWord::Float => {
            let d = match decimal_of(trim(m.skip(5))) {
                Some(v) => v as int,
                None => FLOAT_DEFAULT as int,
            };
            match raised(p, d) {
                Some(q) => r == Ok::<GmCommand, GmCommandError>(GmCommand::Teleport(q)),
                None => r matches Err(GmCommandError::OutOfBounds),
            }
        },
        CommandWord::AddItem => {
            let t = trim(m.skip(7));
            if all_digits(t) && digits_value(t) <= u32::MAX {
                if item_known(digits_value(t) as u32) {
                    r == Ok::<GmCommand, GmCommandError>(GmCommand::AddItem(digits_value(t) as u32))
                } else {
                    r matches Err(GmCommandError::NoItemWithId { entry }) && entry == digits_value(t)
                }
            } else {
                match item_entry_named(t) {
                    Some(e) => r == Ok::<GmCommand, GmCommandError>(GmCommand::AddItem(e)),
                    None => r matches Err(GmCommandError::NoItemNamed { name }) && name@ == t,
                }
            }
        },
        CommandWord::Move => r matches Ok(GmCommand::MoveNpc),
        CommandWord::Los => r == Ok::<GmCommand, GmCommandError>(GmCommand::ShouldHaveLineOfSight(me.target)),
        CommandWord::NoLos => r == Ok::<GmCommand, GmCommandError>(GmCommand::ShouldNotHaveLineOfSight(me.target)),
        CommandWord::Unknown => r matches Err(GmCommandError::Invalid { command }) && command@ == m,
    }
}

impl GmCommand {
    /// Reads a game master's command from chat text without its leading
    /// dots. It performs no action: the caller carries out what it returns.
    pub fn from_player_command(
        message: &str,
        client: &Client,
        others: &Vec<Client>,
        creatures: &Vec<Creature>,
    ) -> (r: Result<GmCommand, GmCommandError>)
        ensures
            command_result(message@, *client, others@, creatures@, r),
    {
        let m = chars_of(message);
        let p = client.position();
        let me = &client.character;
        match classify(&m) {
            CommandWord::North => nudge(p, NUDGE, 0),
            CommandWord::South => nudge(p, -NUDGE, 0),
            CommandWord::East => nudge(p, 0, -NUDGE),
            CommandWord::West => nudge(p, 0, NUDGE),
            CommandWord::WhereAmI => Ok(GmCommand::WhereAmI),
            CommandWord::Info => {
                proof {
                    reveal_strlit("info");
                }
                let t = trimmed_rest(&m, 4);
                parse_info(&t, me.target)
            },
            CommandWord::Go => {
                proof {
                    reveal_strlit("go");
                }
                let ws = split_words(&suffix(&m, 2));
                parse_go(&ws, client, others, creatures)
            },
            CommandWord::Speed => {
                proof {
                    reveal_strlit("speed");
                }
                let t = trimmed_rest(&m, 5);
                match parse_decimal_chars(&t, "speed argument") {
                    Ok(v) => Ok(GmCommand::SetRunSpeed(v)),
                    Err(message) => Err(GmCommandError::InvalidArgument { message }),
                }
            },
            CommandWord::Mark => {
                proof {
                    reveal_strlit("mark");
                }
                let t = trimmed_rest(&m, 4);
                if t.len() == 0 {
                    Err(GmCommandError::MissingMarkNames)
                } else {
                    Ok(GmCommand::Mark { names: trimmed_names(&t), p })
                }
            },
            CommandWord::Range => parse_range(client, others, creatures),
            CommandWord::Float => {
                proof {
                    reveal_strlit("float");
                }
                let t = trimmed_rest(&m, 5);
                let d: i32 = match parse_decimal_chars(&t, "distance") {
                    Ok(v) => v,
                    Err(_) => FLOAT_DEFAULT,
                };
                let z = p.z as i64 + d as i64;
                if z < i32::MIN as i64 || z > i32::MAX as i64 {
                    Err(GmCommandError::OutOfBounds)
                } else {
                    Ok(GmCommand::Teleport(Position { z: z as i32, ..p }))
                }
            },
            CommandWord::AddItem => {
                proof {
                    reveal_strlit("additem");
                }
                let t = trimmed_rest(&m, 7);
                let number = if t.len() > 0 {
                    let v = read_digits(&t, 0, t.len());
                    assert(t@.subrange(0, t@.len() as int) =~= t@);
                    v
                } else {
                    None
                };
                match number {
                    Some(v) if v <= u32::MAX as u64 => {
                        if lookup_item_exists(v as u32) {
                            Ok(GmCommand::AddItem(v as u32))
                        } else {
                            Err(GmCommandError::NoItemWithId { entry: v as u32 })
                        }
                    },
                    _ => {
                        let name = string_from_chars(&t);
                        match lookup_item_entry_by_name(name.as_str()) {
                            Some(e) => Ok(GmCommand::AddItem(e)),
                            None => Err(GmCommandError::NoItemNamed { name }),
                        }
                    },
                }
            },
            CommandWord::Move => Ok(GmCommand::MoveNpc),
            CommandWord::Los => Ok(GmCommand::ShouldHaveLineOfSight(me.target)),
            CommandWord::NoLos => Ok(GmCommand::ShouldNotHaveLineOfSight(me.target)),
            CommandWord::Unknown => Err(GmCommandError::Invalid { command: string_from_chars(&m) }),
        }
    }
}

/// Amount of a stack that a command hands out.
pub const AWARDED_AMOUNT: u8 = 1;

/// What carrying out a parsed command does to the sender's session, the
/// store, and what it sends.
/// `e` tells session `id` about the entity with identifier `target`: a
/// player among `others` first, then a creature, else that none was found.
pub open spec fn information_reply(e: Effect, id: u64, others: Seq<Client>, creatures: Seq<Creature>, target: u64) -> bool {
    match e {
        Effect::Send { recipients, message: ServerMessage::System { notice } } => recipients@ == seq![id] && if exists|k: int|
            0 <= k < others.len() && (#[trigger] others[k]).character.guid == target {
            exists|k: int|
                0 <= k < others.len() && (#[trigger] others[k]).character.guid == target && (forall|j: int| 0 <= j < k ==> (#[trigger] others[j]).character.guid != target)
                    && match notice {
                    Notice::PlayerInformation { character } => character.same_as(others[k].character),
                    _ => false,
                }
        } else if exists|k: int| 0 <= k < creatures.len() && (#[trigger] creatures[k]).guid == target {
            exists|k: int|
                crate::dispatch::first_creature(creatures, target, k) && match notice {
                    Notice::CreatureInformation { creature } => creature.name@ == creatures[k].name@ && creature.guid == creatures[k].guid
                        && creature.info == creatures[k].info && creature.map == creatures[k].map,
                    _ => false,
                }
        } else {
            notice == Notice::TargetNotFound { guid: target }
        },
        _ => false,
    }
}

pub open spec fn command_effects(
    before: Client,
    after: Client,
    others: Seq<Client>,
    creatures: Seq<Creature>,
    db_before: WorldDatabase,
    db_after: WorldDatabase,
    cmd: Result<GmCommand, GmCommandError>,
    added: Seq<Effect>,
) -> bool {
    let c = before.character;
    let kept = same_connection(after, before) && after.in_process_of_teleport == before.in_process_of_teleport;
    let unchanged = kept && after.character == c && db_after == db_before;
    match cmd {
        Err(e) => unchanged && added.len() == 1 && sends(
            added[0],
            seq![before.id],
            ServerMessage::System { notice: Notice::Command(e) },
        ),
        Ok(GmCommand::WhereAmI) => unchanged && added.len() == 1 && sends(
            added[0],
            seq![before.id],
            ServerMessage::System { notice: Notice::WhereAmI { position: c.position_spec() } },
        ),
        Ok(GmCommand::RangeToTarget(distance_squared)) => unchanged && added.len() == 1 && sends(
            added[0],
            seq![before.id],
            ServerMessage::System { notice: Notice::RangeToTarget { distance_squared } },
        ),
        Ok(GmCommand::Information(target)) => unchanged && added.len() == 1 && information_reply(
            added[0],
            before.id,
            others,
            creatures,
            target,
        ),
        Ok(GmCommand::ShouldHaveLineOfSight(target)) | Ok(GmCommand::ShouldNotHaveLineOfSight(target)) =>
            unchanged && added.len() == 1 && if exists|k: int| 0 <= k < others.len() && (#[trigger] others[k]).character.guid == target {
            sends(added[0], seq![before.id], ServerMessage::System { notice: Notice::NoPathfindingMap { map: c.map } })
        } else {
            sends(added[0], seq![before.id], ServerMessage::System { notice: Notice::TargetNotFound { guid: target } })
        },
        Ok(GmCommand::Teleport(p)) => {
            &&& db_after == db_before
            &&& same_connection(after, before)
            &&& after.character == placed_at(c, p)
            &&& if p.map == c.map {
                &&& after.in_process_of_teleport == before.in_process_of_teleport
                &&& added.len() == 1
                &&& sends(added[0], seq![before.id], ServerMessage::TeleportAck { guid: c.guid, destination: p })
            } else {
                &&& after.in_process_of_teleport
                &&& added.len() == 2
                &&& sends(added[0], seq![before.id], ServerMessage::TransferPending { map: p.map })
                &&& sends(added[1], seq![before.id], ServerMessage::NewWorld { destination: p })
            }
        },
        Ok(GmCommand::SetRunSpeed(speed)) => {
            &&& kept
            &&& db_after == db_before
            &&& after.character == Character { movement_speed: speed, ..c }
            &&& added.len() == 2
            &&& sends(added[0], seq![before.id], ServerMessage::ForceRunSpeedChange { guid: c.guid, speed })
            &&& sends(added[1], crate::chat::session_ids(others), ServerMessage::SplineSetRunSpeed { guid: c.guid, speed })
        },
        Ok(GmCommand::Mark { names, p }) => unchanged && added.len() == 2 && added[0] == Effect::Bookmark {
            names,
            position: p,
        } && sends(added[1], seq![before.id], ServerMessage::System { notice: Notice::Bookmarked { position: p } }),
        Ok(GmCommand::AddItem(entry)) => {
            &&& kept
            &&& db_after.characters() == db_before.characters()
            &&& if db_before.next_id() == u64::MAX {
                after.character == c && db_after.next_id() == db_before.next_id() && added.len() == 1
                    && sends(added[0], seq![before.id], ServerMessage::System { notice: Notice::IdentifiersExhausted })
            } else {
                let item = Item { entry, guid: db_before.next_id(), amount: AWARDED_AMOUNT, creator: c.guid };
                &&& db_after.next_id() == db_before.next_id() + 1
                &&& if exists|k: int| crate::inventory::BACKPACK_START <= k <= crate::inventory::BACKPACK_END && c.inventory@[k] is None {
                    exists|k: int| crate::inventory::BACKPACK_START <= k <= crate::inventory::BACKPACK_END
                        && after.character == Character { inventory: after.character.inventory, ..c }
                        && after.character.inventory@ == c.inventory@.update(k, Some(item))
                        && added.len() == 2
                        && sends(added[0], seq![before.id], ServerMessage::ItemCreated { owner: c.guid, item, slot: k as u8 })
                        && sends(added[1], everyone(before, others), ServerMessage::ItemPushResult { owner: c.guid, item, slot: k as u8 })
                } else {
                    after.character == Character { inventory: after.character.inventory, ..c }
                        && after.character.inventory@ == c.inventory@ && added.len() == 1
                        && sends(added[0], seq![before.id], ServerMessage::System { notice: Notice::NoFreeSlots })
                }
            }
        },
        Ok(GmCommand::MoveNpc) => unchanged && if creatures.len() > 0 {
            added.len() == 1 && sends(added[0], seq![before.id], ServerMessage::MonsterMove { guid: creatures[0].guid })
        } else {
            added.len() == 0
        },
    }
}

fn notify(id: u64, notice: Notice, out: &mut Vec<Effect>)
    ensures
        final(out)@.len() == old(out)@.len() + 1,
        final(out)@.drop_last() == old(out)@,
        sends(final(out)@.last(), seq![id], (ServerMessage::System { notice })),
{
    let mut recipients: Vec<u64> = Vec::new();
    recipients.push(id);
    out.push(Effect::Send { recipients, message: ServerMessage::System { notice } });
    assert(out@.drop_last() =~= old(out)@);
}

/// Gives the sender a new item in the first free backpack slot and tells
/// everyone; tells the sender when there is no room, or no identifier left.
pub fn award_item(entry: u32, client: &mut Client, others: &Vec<Client>, db: &mut WorldDatabase, out: &mut Vec<Effect>)
    requires
        old(client).character.wf(),
        ids_below(old(client).character, old(db).next_id()),
        old(db).wf(),
    ensures
        final(client).character.wf(),
        ids_below(final(client).character, final(db).next_id()),
        final(db).wf(),
        extends(old(out)@, final(out)@),
        command_effects(*old(client), *final(client), others@, Seq::empty(), *old(db), *final(db),
            Ok(GmCommand::AddItem(entry)), appended(old(out)@, final(out)@)),
{
    let ghost start = out@;
    assert(start.subrange(0, start.len() as int) =~= start);
    let guid = match db.new_guid() {
        Some(g) => g,
        None => {
            notify(client.id, Notice::IdentifiersExhausted, out);
            assert(appended(start, out@) =~= seq![out@.last()]);
            assert(out@.subrange(0, start.len() as int) =~= start);
            return;
        },
    };
    let owner = client.character.guid;
    let item = Item::new(entry, guid, AWARDED_AMOUNT, owner);
    proof {
        if holds_guid_elsewhere(client.character.inventory@, guid, -1) {
            let j = choose|j: int| 0 <= j < client.character.inventory@.len() && j != -1
                && (#[trigger] client.character.inventory@[j] is Some && client.character.inventory@[j]->0.guid == guid);
            assert(client.character.inventory@[j]->0.guid < guid);
        }
    }
    let ghost c0 = client.character;
    match client.character.inventory.insert_into_first_slot(item) {
        None => {
            assert(!exists|k: int| crate::inventory::BACKPACK_START <= k <= crate::inventory::BACKPACK_END && c0.inventory@[k] is None);
            assert(client.character == Character { inventory: client.character.inventory, ..c0 });
            notify(client.id, Notice::NoFreeSlots, out);
            assert(appended(start, out@) =~= seq![out@.last()]);
        },
        Some(slot) => {
            let mut to_owner: Vec<u64> = Vec::new();
            to_owner.push(client.id);
            out.push(Effect::Send { recipients: to_owner, message: ServerMessage::ItemCreated { owner, item, slot: slot as u8 } });
            out.push(Effect::Send { recipients: to_everyone(client, others), message: ServerMessage::ItemPushResult { owner, item, slot: slot as u8 } });
            assert(appended(start, out@) =~= seq![out@[out@.len() - 2], out@[out@.len() - 1]]);
            assert(c0.inventory@[slot as int] is None);
            assert(client.character == Character { inventory: client.character.inventory, ..c0 });
            assert(crate::inventory::BACKPACK_START <= slot as int <= crate::inventory::BACKPACK_END
                && client.character == Character { inventory: client.character.inventory, ..c0 }
                && client.character.inventory@ == c0.inventory@.update(slot as int, Some(item)));
        },
    }
    assert(out@.subrange(0, start.len() as int) =~= start);
}

/// Acts on a command that was read successfully.
#[verifier::rlimit(60)]
fn carry_out(
    command: GmCommand,
    client: &mut Client,
    others: &Vec<Client>,
    creatures: &Vec<Creature>,
    db: &mut WorldDatabase,
    out: &mut Vec<Effect>,
)
    requires
        old(client).character.wf(),
        ids_below(old(client).character, old(db).next_id()),
        old(db).wf(),
    ensures
        final(client).character.wf(),
        ids_below(final(client).character, final(db).next_id()),
        final(db).wf(),
        final(db).next_id() >= old(db).next_id(),
        final(db).characters() == old(db).characters(),
        extends(old(out)@, final(out)@),
        command_effects(*old(client), *final(client), others@, creatures@, *old(db), *final(db),
            Ok(command), appended(old(out)@, final(out)@)),
{
    let ghost start = out@;
    assert(start.subrange(0, start.len() as int) =~= start);
    match command {
        GmCommand::WhereAmI => {
            notify(client.id, Notice::WhereAmI { position: client.position() }, out);
            assert(appended(start, out@) =~= seq![out@.last()]);
        },
        GmCommand::Teleport(p) => {
            prepare_teleport(p, client, out);
        },
        GmCommand::SetRunSpeed(speed) => {
            client.character.movement_speed = speed;
            let guid = client.character.guid;
            let mut to_self: Vec<u64> = Vec::new();
            to_self.push(client.id);
            out.push(Effect::Send { recipients: to_self, message: ServerMessage::ForceRunSpeedChange { guid, speed } });
            out.push(Effect::Send { recipients: crate::chat::all_ids(others), message: ServerMessage::SplineSetRunSpeed { guid, speed } });
            assert(appended(start, out@) =~= seq![out@[out@.len() - 2], out@[out@.len() - 1]]);
        },
        GmCommand::Mark { names, p } => {
            out.push(Effect::Bookmark { names, position: p });
            notify(client.id, Notice::Bookmarked { position: p }, out);
            assert(appended(start, out@) =~= seq![out@[out@.len() - 2], out@[out@.len() - 1]]);
        },
        GmCommand::RangeToTarget(distance_squared) => {
            notify(client.id, Notice::RangeToTarget { distance_squared }, out);
            assert(appended(start, out@) =~= seq![out@.last()]);
        },
        GmCommand::AddItem(entry) => {
            award_item(entry, client, others, db, out);
            assert(appended(start, out@) == appended(old(out)@, out@));
        },
        GmCommand::MoveNpc => {
            if creatures.len() > 0 {
                let mut to_self: Vec<u64> = Vec::new();
                to_self.push(client.id);
                out.push(Effect::Send { recipients: to_self, message: ServerMessage::MonsterMove { guid: creatures[0].guid } });
                assert(appended(start, out@) =~= seq![out@.last()]);
            } else {
                assert(appended(start, out@) =~= Seq::<Effect>::empty());
            }
        },
        GmCommand::Information(target) => {
            match find_player(others, target) {
                Some(k) => {
                    let character = others[k].character.duplicate();
                    notify(client.id, Notice::PlayerInformation { character }, out);
                },
                None => match find_creature(creatures, target) {
                    Some(k) => {
                        let creature = creatures[k].duplicate();
                        notify(client.id, Notice::CreatureInformation { creature }, out);
                    },
                    None => notify(client.id, Notice::TargetNotFound { guid: target }, out),
                },
            }
            assert(appended(start, out@) =~= seq![out@.last()]);
        },
        GmCommand::ShouldHaveLineOfSight(target) | GmCommand::ShouldNotHaveLineOfSight(target) => {
            match find_player(others, target) {
                Some(_) => notify(client.id, Notice::NoPathfindingMap { map: client.character.map }, out),
                None => notify(client.id, Notice::TargetNotFound { guid: target }, out),
            }
            assert(appended(start, out@) =~= seq![out@.last()]);
        },
    }
    assert(out@.subrange(0, start.len() as int) =~= start);
}

/// Carries out a game master's command typed by `client`: reads it, then
/// acts on the world, or tells the sender why it was refused.
pub fn gm_command(
    client: &mut Client,
    others: &Vec<Client>,
    creatures: &Vec<Creature>,
    message: &str,
    db: &mut WorldDatabase,
    out: &mut Vec<Effect>,
)
    requires
        old(client).character.wf(),
        ids_below(old(client).character, old(db).next_id()),
        old(db).wf(),
    ensures
        final(client).character.wf(),
        ids_below(final(client).character, final(db).next_id()),
        final(db).wf(),
        final(db).next_id() >= old(db).next_id(),
        final(db).characters() == old(db).characters(),
        extends(old(out)@, final(out)@),
        exists|cmd: Result<GmCommand, GmCommandError>|
            command_result(message@, *old(client), others@, creatures@, cmd) && command_effects(
                *old(client),
                *final(client),
                others@,
                creatures@,
                *old(db),
                *final(db),
                cmd,
                appended(old(out)@, final(out)@),
            ),
{
    let ghost start = out@;
    let command = GmCommand::from_player_command(message, client, others, creatures);
    let ghost cmd = command;
    match command {
        Err(e) => {
            notify(client.id, Notice::Command(e), out);
            assert(appended(start, out@) =~= seq![out@.last()]);
            assert(out@.subrange(0, start.len() as int) =~= start);
        },
        Ok(c) => {
            carry_out(c, client, others, creatures, db, out);
        },
    }
    assert(command_result(message@, *old(client), others@, creatures@, cmd));
}

} // verus!
