//! Shared value types: tile coordinates, companies, cargo types, vehicle
//! kinds and the eight-point compass used by vehicle headings.

use vstd::prelude::*;

verus! {

/// A map tile position (signed so that offsets can step off the map).
#[derive(Debug, Clone, Copy, PartialEq, Eq, Structural)]
pub struct TileCoord {
    pub x: i32,
    pub y: i32,
}

impl TileCoord {
    pub fn new(x: i32, y: i32) -> (r: TileCoord)
        ensures
            r.x == x,
            r.y == y,
    {
        TileCoord { x, y }
    }
}

/// Manhattan distance between two tiles, as a mathematical integer.
pub open spec fn manhattan(a: TileCoord, b: TileCoord) -> int {
    abs_int(a.x - b.x) + abs_int(a.y - b.y)
}

pub open spec fn abs_int(v: int) -> int {
    if v < 0 {
        -v
    } else {
        v
    }
}

/// `|a - b|` of two `i32` values, as `u32` (it always fits).
pub fn abs_diff_i32(a: i32, b: i32) -> (r: u32)
    ensures
        r as int == abs_int(a - b),
{
    if a >= b {
        (a as i64 - b as i64) as u32
    } else {
        (b as i64 - a as i64) as u32
    }
}

/// Manhattan distance between two tiles, saturating at `u32::MAX`.
pub fn manhattan_distance(a: TileCoord, b: TileCoord) -> (r: u32)
    ensures
        r as int == if manhattan(a, b) > u32::MAX { u32::MAX as int } else { manhattan(a, b) },
{
    let dx = abs_diff_i32(a.x, b.x);
    let dy = abs_diff_i32(a.y, b.y);
    dx.saturating_add(dy)
}

/// A company slot (`CompanyID`); slot 0 is the local player.
#[derive(Debug, Clone, Copy, PartialEq, Eq, Structural)]
pub struct CompanyId(pub u8);

impl CompanyId {
    /// The local player's company.
    pub fn player() -> (r: CompanyId)
        ensures
            r.0 == 0,
    {
        CompanyId(0)
    }

    /// Index of the company in per-company tables.
    pub fn index(self) -> (r: usize)
        ensures
            r == self.0,
    {
        self.0 as usize
    }
}

/// Cargo types known to the simulation (all climates).
#[derive(Debug, Clone, Copy, PartialEq, Eq, Structural)]
pub enum CargoType {
    Passengers,
    Coal,
    Mail,
    Oil,
    Livestock,
    Goods,
    Grain,
    Wood,
    IronOre,
    Steel,
    Valuables,
    Paper,
    Food,
    Fruit,
    CopperOre,
    Water,
    Rubber,
    Gold,
    Diamonds,
    Sugar,
    Toys,
    Candy,
    Toffee,
    Cola,
    CottonCandy,
    Bubbles,
    Plastic,
    Batteries,
    FizzyDrinks,
}

/// Vehicle families.
#[derive(Debug, Clone, Copy, PartialEq, Eq, Structural)]
pub enum VehicleKind {
    Truck,
    Bus,
    /// Same movement as a bus, on tram tracks.
    Tram,
    Train,
    Ship,
    Aircraft,
}

/// Heading on the eight-point compass: N=0, NE=1, E=2, SE=3, S=4, SW=5, W=6, NW=7.
pub type VehicleDirection = u8;

pub const DIR_N: u8 = 0;
pub const DIR_NE: u8 = 1;
pub const DIR_E: u8 = 2;
pub const DIR_SE: u8 = 3;
pub const DIR_S: u8 = 4;
pub const DIR_SW: u8 = 5;
pub const DIR_W: u8 = 6;
pub const DIR_NW: u8 = 7;

/// Opposite heading on the compass rose.
pub fn reverse_direction(d: u8) -> (r: u8)
    requires
        d + 4 <= u8::MAX,
    ensures
        r == (d + 4) % 8,
{
    (d + 4) % 8
}

/// Heading of a step between two orthogonally adjacent tiles; any other step
/// (diagonal, longer, or none) falls back to NE.
pub open spec fn spec_direction_from_tile_step(from: TileCoord, to: TileCoord) -> u8 {
    let dx = to.x - from.x;
    let dy = to.y - from.y;
    if dx == -1 && dy == 0 {
        DIR_NE
    } else if dx == 0 && dy == 1 {
        DIR_SE
    } else if dx == 1 && dy == 0 {
        DIR_SW
    } else if dx == 0 && dy == -1 {
        DIR_NW
    } else {
        DIR_NE
    }
}

pub fn direction_from_tile_step(from: TileCoord, to: TileCoord) -> (r: u8)
    ensures
        r == spec_direction_from_tile_step(from, to),
{
    let dx = to.x as i64 - from.x as i64;
    let dy = to.y as i64 - from.y as i64;
    if dx == -1 && dy == 0 {
        DIR_NE
    } else if dx == 0 && dy == 1 {
        DIR_SE
    } else if dx == 1 && dy == 0 {
        DIR_SW
    } else if dx == 0 && dy == -1 {
        DIR_NW
    } else {
        DIR_NE
    }
}

/// Reversing a compass heading twice gives the heading back.
pub proof fn lemma_reverse_direction_involution(d: u8)
    requires
        d < 8,
    ensures
        ((((d + 4) % 8) + 4) % 8) == d,
{
}

} // verus!
