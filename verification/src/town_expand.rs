//! Town street layouts: where a grid town lets houses and roads go, the
//! diagonal directions of road growth, and the growth walk's dice.

use vstd::prelude::*;
use crate::common::TileCoord;
use crate::town::{Town, TownLayout};

verus! {

/// Radius around the centre searched for a road to grow from.
pub const TOWN_EXPAND_SEARCH_RADIUS: i32 = 12;
/// Growth attempts per expansion.
pub const TOWN_EXPAND_ATTEMPTS: u8 = 3;
/// Population counted per house built by an expansion.
pub const TOWN_EXPAND_POP_PER_HOUSE: u32 = 8;

pub const ROAD_NW: u8 = 0x01;
pub const ROAD_SW: u8 = 0x02;
pub const ROAD_SE: u8 = 0x04;
pub const ROAD_NE: u8 = 0x08;
/// Straight road along X (NE + SW).
pub const ROAD_AXIS_X: u8 = 0x0A;
/// Straight road along Y (NW + SE).
pub const ROAD_AXIS_Y: u8 = 0x05;

/// Multiplier and increment of the growth walk's linear congruential dice.
pub const LCG_MUL: u32 = 1_103_515_245;
pub const LCG_ADD: u32 = 12_345;

/// Outcome of one attempt at growing a town on the map.
#[derive(Debug, Clone, Copy, PartialEq, Eq, Structural)]
pub enum TownExpandResult {
    House(TileCoord),
    Road(TileCoord),
    Nothing,
}

/// Offsets from the town centre fit in a tile coordinate.
pub open spec fn offsets_fit(town: Town, tile: TileCoord) -> bool {
    i32::MIN <= town.pos.x - tile.x <= i32::MAX && i32::MIN <= town.pos.y - tile.y <= i32::MAX
}

/// The grid lines of a grid town are kept for roads: a house may stand on a
/// tile only off both lines (every third tile in a 2x2 grid, every fourth
/// in a 3x3 grid, counted from the centre).
pub open spec fn spec_layout_allows_house(town: Town, tile: TileCoord) -> bool {
    let gx = town.pos.x - tile.x;
    let gy = town.pos.y - tile.y;
    match town.layout {
        TownLayout::Grid2x2 => gx % 3 != 0 && gy % 3 != 0,
        TownLayout::Grid3x3 => gx % 4 != 0 && gy % 4 != 0,
        _ => true,
    }
}

/// A 2x2 house must fill a whole grid cell: its base tile is the last tile
/// of the cell on both axes.
pub open spec fn spec_layout_allows_2x2_house(town: Town, tile: TileCoord) -> bool {
    let gx = town.pos.x - tile.x;
    let gy = town.pos.y - tile.y;
    match town.layout {
        TownLayout::Grid2x2 => gx % 3 == 2 && gy % 3 == 2,
        TownLayout::Grid3x3 => gx % 4 >= 2 && gy % 4 >= 2,
        _ => true,
    }
}

/// Roads of a grid town run only along its grid lines.
pub open spec fn spec_road_allowed(town: Town, tile: TileCoord) -> bool {
    let gx = town.pos.x - tile.x;
    let gy = town.pos.y - tile.y;
    match town.layout {
        TownLayout::Grid2x2 => gx % 3 == 0 || gy % 3 == 0,
        TownLayout::Grid3x3 => gx % 4 == 0 || gy % 4 == 0,
        _ => true,
    }
}

/// `g` modulo `m` (non-negative remainder) for `m` of 3 or 4.
fn rem_euclid_small(g: i32, m: i64) -> (r: i64)
    requires
        m == 3 || m == 4,
    ensures
        r == (g as int) % (m as int),
        0 <= r < m,
{
    let shift: i64 = m * 2_147_483_648;
    let nonneg: i64 = g as i64 + shift;
    proof {
        vstd::arithmetic::div_mod::lemma_mod_multiples_vanish(2_147_483_648, g as int, m as int);
        vstd::arithmetic::div_mod::lemma_mod_pos_bound(nonneg as int, m as int);
    }
    nonneg % m
}

/// Whether the town's layout lets a house stand on `tile`.
pub fn town_layout_allows_house_here(town: &Town, tile: TileCoord) -> (r: bool)
    requires
        offsets_fit(*town, tile),
    ensures
        r == spec_layout_allows_house(*town, tile),
{
    let gx = town.pos.x - tile.x;
    let gy = town.pos.y - tile.y;
    match town.layout {
        TownLayout::Grid2x2 => rem_euclid_small(gx, 3) != 0 && rem_euclid_small(gy, 3) != 0,
        TownLayout::Grid3x3 => rem_euclid_small(gx, 4) != 0 && rem_euclid_small(gy, 4) != 0,
        _ => true,
    }
}

/// Whether the town's layout lets a 2x2 house have its base on `tile`.
pub fn town_layout_allows_2x2_house_here(town: &Town, tile: TileCoord) -> (r: bool)
    requires
        offsets_fit(*town, tile),
    ensures
        r == spec_layout_allows_2x2_house(*town, tile),
{
    let gx = town.pos.x - tile.x;
    let gy = town.pos.y - tile.y;
    match town.layout {
        TownLayout::Grid2x2 => rem_euclid_small(gx, 3) == 2 && rem_euclid_small(gy, 3) == 2,
        TownLayout::Grid3x3 => rem_euclid_small(gx, 4) >= 2 && rem_euclid_small(gy, 4) >= 2,
        _ => true,
    }
}

/// Whether the town's layout lets a road run through `tile`.
pub fn road_allowed_here(town: &Town, tile: TileCoord) -> (r: bool)
    requires
        offsets_fit(*town, tile),
    ensures
        r == spec_road_allowed(*town, tile),
{
    match town.layout {
        TownLayout::Grid2x2 => {
            let gx = town.pos.x - tile.x;
            let gy = town.pos.y - tile.y;
            rem_euclid_small(gx, 3) == 0 || rem_euclid_small(gy, 3) == 0
        },
        TownLayout::Grid3x3 => {
            let gx = town.pos.x - tile.x;
            let gy = town.pos.y - tile.y;
            rem_euclid_small(gx, 4) == 0 || rem_euclid_small(gy, 4) == 0
        },
        TownLayout::BetterRoads | TownLayout::Original | TownLayout::Random => true,
    }
}

/// Road bit of diagonal direction `dir` (0 NE, 1 SE, 2 SW, 3 NW; taken modulo 4).
pub open spec fn spec_diag_road_bits(dir: u8) -> u8 {
    let d = dir % 4;
    if d == 0 {
        ROAD_NE
    } else if d == 1 {
        ROAD_SE
    } else if d == 2 {
        ROAD_SW
    } else {
        ROAD_NW
    }
}

pub fn diag_dir_to_road_bits(dir: u8) -> (r: u8)
    ensures
        r == spec_diag_road_bits(dir),
{
    let d = dir % 4;
    if d == 0 {
        ROAD_NE
    } else if d == 1 {
        ROAD_SE
    } else if d == 2 {
        ROAD_SW
    } else {
        ROAD_NW
    }
}

/// The opposite diagonal direction.
pub fn reverse_diag(dir: u8) -> (r: u8)
    ensures
        r == (dir as int + 2) % 4,
{
    ((dir as u16 + 2) % 4) as u8
}

/// Tile step of diagonal direction `dir` (taken modulo 4): NE is -x, SE +y,
/// SW +x, NW -y.
pub open spec fn spec_diag_offset(dir: u8) -> (int, int) {
    let d = dir % 4;
    if d == 0 {
        (-1, 0)
    } else if d == 1 {
        (0, 1)
    } else if d == 2 {
        (1, 0)
    } else {
        (0, -1)
    }
}

/// The neighbour of `tile` in diagonal direction `dir`.
pub fn tile_add_diag(tile: TileCoord, dir: u8) -> (r: TileCoord)
    requires
        i32::MIN < tile.x < i32::MAX,
        i32::MIN < tile.y < i32::MAX,
    ensures
        r.x == tile.x + spec_diag_offset(dir).0,
        r.y == tile.y + spec_diag_offset(dir).1,
{
    let d = dir % 4;
    if d == 0 {
        TileCoord::new(tile.x - 1, tile.y)
    } else if d == 1 {
        TileCoord::new(tile.x, tile.y + 1)
    } else if d == 2 {
        TileCoord::new(tile.x + 1, tile.y)
    } else {
        TileCoord::new(tile.x, tile.y - 1)
    }
}

/// Diagonal direction of a step by the signs of `dx` and `dy`: NE, SE, SW,
/// and NW for every other step.
pub open spec fn spec_diag_from_delta(dx: i32, dy: i32) -> u8 {
    if dx < 0 && dy == 0 {
        0
    } else if dx == 0 && dy > 0 {
        1
    } else if dx > 0 && dy == 0 {
        2
    } else {
        3
    }
}

pub fn diag_from_delta(dx: i32, dy: i32) -> (r: u8)
    ensures
        r == spec_diag_from_delta(dx, dy),
{
    if dx < 0 && dy == 0 {
        0
    } else if dx == 0 && dy > 0 {
        1
    } else if dx > 0 && dy == 0 {
        2
    } else {
        3
    }
}

/// Road bits a grid town lays from `tile` towards `dir`: a straight piece
/// along that axis when the next tile lies on a grid line, else none.
pub fn grid_road_bits(town: &Town, tile: TileCoord, dir: u8) -> (r: u8)
    requires
        i32::MIN < tile.x < i32::MAX,
        i32::MIN < tile.y < i32::MAX,
        i32::MIN + 1 <= town.pos.x - tile.x <= i32::MAX - 1,
        i32::MIN + 1 <= town.pos.y - tile.y <= i32::MAX - 1,
    ensures
        ({
            let next = TileCoord {
                x: (tile.x + spec_diag_offset(dir).0) as i32,
                y: (tile.y + spec_diag_offset(dir).1) as i32,
            };
            r == if spec_road_allowed(*town, next) {
                spec_diag_road_bits(dir) | spec_diag_road_bits(((dir as int + 2) % 4) as u8)
            } else {
                0
            }
        }),
{
    let next = tile_add_diag(tile, dir);
    if !road_allowed_here(town, next) {
        return 0;
    }
    diag_dir_to_road_bits(dir) | diag_dir_to_road_bits(reverse_diag(dir))
}

/// One roll of the growth walk's dice: advances the generator and tells
/// whether its high half, modulo `b`, fell below `a` (never for `b` = 0,
/// which leaves the generator alone).
pub fn chance16(rng: &mut u32, a: u32, b: u32) -> (r: bool)
    ensures
        b == 0 ==> !r && *final(rng) == *old(rng),
        b != 0 ==> *final(rng) == (*old(rng) as int * LCG_MUL as int + LCG_ADD as int) % 0x1_0000_0000,
        b != 0 ==> r == ((*final(rng) >> 16u32) % b < a),
{
    if b == 0 {
        return false;
    }
    let next = rng.wrapping_mul(LCG_MUL).wrapping_add(LCG_ADD);
    proof {
        let m = *rng as int * LCG_MUL as int;
        vstd::arithmetic::div_mod::lemma_add_mod_noop(m, LCG_ADD as int, 0x1_0000_0000);
        vstd::arithmetic::div_mod::lemma_small_mod(LCG_ADD as nat, 0x1_0000_0000);
    }
    *rng = next;
    (next >> 16) % b < a
}

/// A step in a diagonal direction reads back as that direction, and the
/// reverse of the reverse is the direction itself.
pub proof fn lemma_diag_step_round_trip(dir: u8)
    requires
        dir < 4,
    ensures
        spec_diag_from_delta(spec_diag_offset(dir).0 as i32, spec_diag_offset(dir).1 as i32) == dir,
        ((((dir as int + 2) % 4) + 2) % 4) == dir,
        spec_diag_offset(((dir as int + 2) % 4) as u8).0 == -spec_diag_offset(dir).0,
        spec_diag_offset(((dir as int + 2) % 4) as u8).1 == -spec_diag_offset(dir).1,
{
}

} // verus!
