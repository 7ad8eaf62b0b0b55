use vstd::prelude::*;

verus! {

/// Number of fixed-point units in one yard of world space.
pub const UNITS_PER_YARD: i32 = 1000;

/// A point in world space, in fixed-point units (`UNITS_PER_YARD` per yard).
#[derive(Clone, Copy, Debug, PartialEq, Eq, Structural)]
pub struct Vector3 {
    pub x: i32,
    pub y: i32,
    pub z: i32,
}

/// Squared Euclidean distance between two points.
pub open spec fn distance_squared(a: Vector3, b: Vector3) -> int {
    (a.x - b.x) * (a.x - b.x) + (a.y - b.y) * (a.y - b.y) + (a.z - b.z) * (a.z - b.z)
}

proof fn lemma_square_bounds(d: int)
    requires
        -0x1_0000_0000 <= d <= 0x1_0000_0000,
    ensures
        0 <= d * d <= 0x1_0000_0000 * 0x1_0000_0000,
{
    assert(0 <= d * d <= 0x1_0000_0000 * 0x1_0000_0000) by (nonlinear_arith)
        requires
            -0x1_0000_0000 <= d <= 0x1_0000_0000,
    ;
}

pub fn distance_squared_between(a: Vector3, b: Vector3) -> (r: u128)
    ensures
        r as int == distance_squared(a, b),
{
    let dx: i64 = a.x as i64 - b.x as i64;
    let dy: i64 = a.y as i64 - b.y as i64;
    let dz: i64 = a.z as i64 - b.z as i64;
    proof {
        lemma_square_bounds(dx as int);
        lemma_square_bounds(dy as int);
        lemma_square_bounds(dz as int);
    }
    let sx: u128 = (dx as i128 * dx as i128) as u128;
    let sy: u128 = (dy as i128 * dy as i128) as u128;
    let sz: u128 = (dz as i128 * dz as i128) as u128;
    sx + sy + sz
}

/// Squared Euclidean distance in the horizontal plane.
pub open spec fn distance_squared_2d(a: Vector3, b: Vector3) -> int {
    (a.x - b.x) * (a.x - b.x) + (a.y - b.y) * (a.y - b.y)
}

pub fn distance_squared_between_2d(a: Vector3, b: Vector3) -> (r: u128)
    ensures
        r as int == distance_squared_2d(a, b),
{
    let dx: i64 = a.x as i64 - b.x as i64;
    let dy: i64 = a.y as i64 - b.y as i64;
    proof {
        lemma_square_bounds(dx as int);
        lemma_square_bounds(dy as int);
    }
    let sx: u128 = (dx as i128 * dx as i128) as u128;
    let sy: u128 = (dy as i128 * dy as i128) as u128;
    sx + sy
}

/// Whether `to` lies strictly closer to `from` than `distance`.
///
/// Both sides are non-negative, so comparing squares decides the same
/// question as comparing the Euclidean distance itself.
pub fn is_within_distance(from: Vector3, to: Vector3, distance: u32) -> (r: bool)
    ensures
        r == (distance_squared(from, to) < distance * distance),
{
    let d = distance_squared_between(from, to);
    assert(distance * distance <= 0xffff_ffff * 0xffff_ffff) by (nonlinear_arith)
        requires
            distance <= 0xffff_ffff,
    ;
    let limit: u128 = distance as u128 * distance as u128;
    d < limit
}

/// A place in the world: a map, a point on it and a facing.
#[derive(Clone, Copy, Debug, PartialEq, Eq, Structural)]
pub struct Position {
    pub map: u32,
    pub x: i32,
    pub y: i32,
    pub z: i32,
    /// Facing in milliradians.
    pub orientation: i32,
}

impl Position {
    pub fn new(map: u32, x: i32, y: i32, z: i32, orientation: i32) -> (r: Position)
        ensures
            r == (Position { map, x, y, z, orientation }),
    {
        Position { map, x, y, z, orientation }
    }

    pub open spec fn point(self) -> Vector3 {
        Vector3 { x: self.x, y: self.y, z: self.z }
    }
}

/// The range gate: the same map, and strictly closer than `distance`.
pub open spec fn within_range(a: Position, b: Position, distance: u32) -> bool {
    a.map == b.map && distance_squared(a.point(), b.point()) < distance * distance
}

pub fn positions_within_range(a: Position, b: Position, distance: u32) -> (r: bool)
    ensures
        r == within_range(a, b, distance),
{
    if a.map != b.map {
        return false;
    }
    is_within_distance(
        Vector3 { x: a.x, y: a.y, z: a.z },
        Vector3 { x: b.x, y: b.y, z: b.z },
        distance,
    )
}

/// Range of a spoken message.
pub const SAY: u32 = 25_000;

/// Range of an emote.
pub const EMOTE: u32 = 25_000;

/// Range of a yelled message.
pub const YELL: u32 = 300_000;

/// Maximum range at which stealth can be detected, for players and creatures alike.
pub const STEALTH_DETECTION: u32 = 30_000;

/// Range within which two players can trade.
pub const TRADE: u32 = 11_110;

/// Range within which a player can interact with an object.
pub const INTERACTION: u32 = 5_000;

/// Range of a melee attack.
pub const MELEE_ATTACK: u32 = 5_000;

/// Positions on different maps are never in range of each other, whatever
/// their coordinates.
pub proof fn lemma_other_map_never_in_range(a: Position, b: Position, distance: u32)
    requires
        a.map != b.map,
    ensures
        !within_range(a, b, distance),
{
}

/// On one map the range gate holds exactly when the squared distance is
/// below the squared threshold, which for non-negative quantities is the
/// Euclidean distance being below the threshold.
pub proof fn lemma_same_map_range_gate(a: Position, b: Position, distance: u32)
    requires
        a.map == b.map,
    ensures
        within_range(a, b, distance) <==> distance_squared(a.point(), b.point()) < distance * distance,
        distance_squared(a.point(), b.point()) >= 0,
{
    let p = a.point();
    let q = b.point();
    assert((p.x - q.x) * (p.x - q.x) >= 0) by (nonlinear_arith);
    assert((p.y - q.y) * (p.y - q.y) >= 0) by (nonlinear_arith);
    assert((p.z - q.z) * (p.z - q.z) >= 0) by (nonlinear_arith);
}

} // verus!
