//! Rail movement tables and helpers: diagonal-direction rows, track pieces,
//! sub-tile entry points, direction differences.

use vstd::prelude::*;
use crate::common::{DIR_E, DIR_N, DIR_NE, DIR_NW, DIR_S, DIR_SE, DIR_SW, DIR_W};

verus! {

/// Curve and slope slowdown parameters of a rail type (`_accel_slowdown`).
#[derive(Debug, Clone, Copy, PartialEq, Eq, Structural)]
pub struct AccelSlowdownParams {
    /// Penalty on a short turn.
    pub small_turn: u8,
    /// Penalty on a long turn (128 = -50 %).
    pub large_turn: u8,
    /// Fraction lost when climbing.
    pub z_up: u8,
    /// Speed gained when descending.
    pub z_down: u8,
}

/// Slowdown parameters for normal rail (0), monorail (1) and maglev (2).
pub fn accel_slowdown(rail_type: usize) -> (r: AccelSlowdownParams)
    requires
        rail_type < 3,
    ensures
        r == (AccelSlowdownParams {
            small_turn: if rail_type == 2 {
                0
            } else {
                64
            },
            large_turn: 128,
            z_up: 64,
            z_down: 2,
        }),
{
    AccelSlowdownParams {
        small_turn: if rail_type == 2 {
            0
        } else {
            64
        },
        large_turn: 128,
        z_up: 64,
        z_down: 2,
    }
}

/// Tunnel visibility frame per diagonal direction NE, SE, SW, NW.
pub const TUNNEL_VISIBILITY_FRAME: [u8; 4] = [12, 8, 8, 12];

/// Sub-tile position and heading on entering a tile (`_vehicle_subcoord`).
#[derive(Debug, Clone, Copy, PartialEq, Eq, Structural)]
pub struct VehicleSubcoord {
    pub x: u8,
    pub y: u8,
    pub dir: u8,
}

pub open spec fn spec_diag_dir_index(diag: u8) -> int {
    if diag == DIR_NE {
        0
    } else if diag == DIR_SE {
        1
    } else if diag == DIR_SW {
        2
    } else {
        3
    }
}

/// Row 0..3 of the diagonal tables (NE, SE, SW, NW); any other heading uses the NW row.
pub fn diag_dir_index(diag: u8) -> (r: usize)
    ensures
        r == spec_diag_dir_index(diag),
        r < 4,
{
    if diag == DIR_NE {
        0
    } else if diag == DIR_SE {
        1
    } else if diag == DIR_SW {
        2
    } else {
        3
    }
}

/// Whether a train entering a tunnel at `progress` is still hidden.
pub fn tunnel_hides_train_at_progress(enter_diag: u8, progress: u8) -> (r: bool)
    ensures
        r == (progress < TUNNEL_VISIBILITY_FRAME@[spec_diag_dir_index(enter_diag)]),
{
    let frames: [u8; 4] = TUNNEL_VISIBILITY_FRAME;
    progress < frames[diag_dir_index(enter_diag)]
}

pub open spec fn spec_rail_track_index(track_bit: u8) -> Option<int> {
    if track_bit == 0x01 {
        Some(0)
    } else if track_bit == 0x02 {
        Some(1)
    } else if track_bit == 0x04 {
        Some(2)
    } else if track_bit == 0x08 {
        Some(3)
    } else if track_bit == 0x10 {
        Some(4)
    } else if track_bit == 0x20 {
        Some(5)
    } else {
        None
    }
}

/// Piece index (X, Y, UPPER, LOWER, LEFT, RIGHT) of a single track bit.
pub fn rail_track_index(track_bit: u8) -> (r: Option<usize>)
    ensures
        r matches Some(i) ==> spec_rail_track_index(track_bit) == Some(i as int),
        r is None ==> spec_rail_track_index(track_bit) is None,
{
    if track_bit == 0x01 {
        Some(0)
    } else if track_bit == 0x02 {
        Some(1)
    } else if track_bit == 0x04 {
        Some(2)
    } else if track_bit == 0x08 {
        Some(3)
    } else if track_bit == 0x10 {
        Some(4)
    } else if track_bit == 0x20 {
        Some(5)
    } else {
        None
    }
}

/// Entry of `_vehicle_subcoord[enterdir][track]`; `None` marks an invalid combination.
pub open spec fn spec_vehicle_subcoord(d: int, t: int) -> Option<VehicleSubcoord> {
    if d == 0 && t == 0 {
        Some(VehicleSubcoord { x: 15, y: 8, dir: DIR_NE })
    } else if d == 0 && t == 3 {
        Some(VehicleSubcoord { x: 15, y: 8, dir: DIR_E })
    } else if d == 0 && t == 4 {
        Some(VehicleSubcoord { x: 15, y: 7, dir: DIR_N })
    } else if d == 1 && t == 1 {
        Some(VehicleSubcoord { x: 8, y: 0, dir: DIR_SE })
    } else if d == 1 && t == 2 {
        Some(VehicleSubcoord { x: 7, y: 0, dir: DIR_E })
    } else if d == 1 && t == 4 {
        Some(VehicleSubcoord { x: 8, y: 0, dir: DIR_S })
    } else if d == 2 && t == 0 {
        Some(VehicleSubcoord { x: 0, y: 8, dir: DIR_SW })
    } else if d == 2 && t == 2 {
        Some(VehicleSubcoord { x: 0, y: 7, dir: DIR_W })
    } else if d == 2 && t == 5 {
        Some(VehicleSubcoord { x: 0, y: 8, dir: DIR_S })
    } else if d == 3 && t == 1 {
        Some(VehicleSubcoord { x: 8, y: 15, dir: DIR_NW })
    } else if d == 3 && t == 3 {
        Some(VehicleSubcoord { x: 8, y: 15, dir: DIR_W })
    } else if d == 3 && t == 5 {
        Some(VehicleSubcoord { x: 7, y: 15, dir: DIR_N })
    } else {
        None
    }
}

pub fn vehicle_subcoord(d: usize, t: usize) -> (r: Option<VehicleSubcoord>)
    ensures
        r == spec_vehicle_subcoord(d as int, t as int),
{
    if d == 0 && t == 0 {
        Some(VehicleSubcoord { x: 15, y: 8, dir: DIR_NE })
    } else if d == 0 && t == 3 {
        Some(VehicleSubcoord { x: 15, y: 8, dir: DIR_E })
    } else if d == 0 && t == 4 {
        Some(VehicleSubcoord { x: 15, y: 7, dir: DIR_N })
    } else if d == 1 && t == 1 {
        Some(VehicleSubcoord { x: 8, y: 0, dir: DIR_SE })
    } else if d == 1 && t == 2 {
        Some(VehicleSubcoord { x: 7, y: 0, dir: DIR_E })
    } else if d == 1 && t == 4 {
        Some(VehicleSubcoord { x: 8, y: 0, dir: DIR_S })
    } else if d == 2 && t == 0 {
        Some(VehicleSubcoord { x: 0, y: 8, dir: DIR_SW })
    } else if d == 2 && t == 2 {
        Some(VehicleSubcoord { x: 0, y: 7, dir: DIR_W })
    } else if d == 2 && t == 5 {
        Some(VehicleSubcoord { x: 0, y: 8, dir: DIR_S })
    } else if d == 3 && t == 1 {
        Some(VehicleSubcoord { x: 8, y: 15, dir: DIR_NW })
    } else if d == 3 && t == 3 {
        Some(VehicleSubcoord { x: 8, y: 15, dir: DIR_W })
    } else if d == 3 && t == 5 {
        Some(VehicleSubcoord { x: 7, y: 15, dir: DIR_N })
    } else {
        None
    }
}

/// A single pure diagonal piece (UPPER, LOWER, LEFT or RIGHT, or a higher single bit).
pub fn is_diagonal_rail_piece(bits: u8) -> (r: bool)
    ensures
        r == (bits == 4 || bits == 8 || bits == 16 || bits == 32 || bits == 64 || bits == 128),
{
    bits == 4 || bits == 8 || bits == 16 || bits == 32 || bits == 64 || bits == 128
}

/// Angular difference of two headings (`DirDifference`): `(d0 - d1) mod 8` over bytes.
pub open spec fn spec_dir_difference(d0: u8, d1: u8) -> int {
    ((d0 as int - d1 as int + 256) % 256) % 8
}

pub fn dir_difference(d0: u8, d1: u8) -> (r: u8)
    ensures
        r == spec_dir_difference(d0, d1),
{
    d0.wrapping_sub(d1) % 8
}

/// Distance in rail pixels between the centres of two coupled units of
/// lengths `prev_length` and `next_length` (`CalcNextVehicleOffset`): the
/// front unit's rear half plus the next unit's front half, which is the
/// longer half of an odd length. `last` (no next unit) counts only the
/// front unit's half.
pub open spec fn spec_next_vehicle_offset(prev_length: u8, next_length: u8, last: bool) -> int {
    prev_length / 2 + if last { 0 } else { (next_length + 1) / 2 }
}

pub fn calc_next_vehicle_offset(prev_length: u8, next_length: u8, last: bool) -> (r: u16)
    ensures
        r == spec_next_vehicle_offset(prev_length, next_length, last),
{
    let front = prev_length as u16 / 2;
    if last {
        front
    } else {
        front + (next_length as u16 + 1) / 2
    }
}

/// A 45-degree turn (difference 1 or 7).
pub fn is_45_degree_turn(d0: u8, d1: u8) -> (r: bool)
    ensures
        r == (spec_dir_difference(d0, d1) == 1 || spec_dir_difference(d0, d1) == 7),
{
    let d = dir_difference(d0, d1);
    d == 1 || d == 7
}

pub open spec fn spec_touching_side(d: int) -> u8 {
    if d == 0 {
        0x25
    } else if d == 1 {
        0x2A
    } else if d == 2 {
        0x19
    } else {
        0x16
    }
}

pub open spec fn is_pow2_u8(x: u8) -> bool {
    x == 1 || x == 2 || x == 4 || x == 8 || x == 16 || x == 32 || x == 64 || x == 128
}

fn is_power_of_two_u8(x: u8) -> (r: bool)
    ensures
        r == is_pow2_u8(x),
{
    x == 1 || x == 2 || x == 4 || x == 8 || x == 16 || x == 32 || x == 64 || x == 128
}

/// The first of the single pieces X, Y, UPPER, LOWER, LEFT, RIGHT (from
/// position `k`) that is in `bits` and valid to enter from row `d`.
pub open spec fn first_enterable(bits: u8, d: int, k: int) -> Option<u8>
    decreases 6 - k,
{
    if k < 0 || k >= 6 {
        None
    } else {
        let b: u8 = if k == 0 {
            1
        } else if k == 1 {
            2
        } else if k == 2 {
            4
        } else if k == 3 {
            8
        } else if k == 4 {
            16
        } else {
            32
        };
        if bits & b != 0 && spec_vehicle_subcoord(d, k) is Some {
            Some(b)
        } else {
            first_enterable(bits, d, k + 1)
        }
    }
}

/// Track piece used when entering a tile towards `enter_diag`: the single
/// piece touching the entry side, else the first enterable one (straight
/// before curved), else a lone piece of the tile.
pub open spec fn spec_track_bit_for_movement(enter_diag: u8, track_bits: u8) -> Option<u8> {
    let tb = track_bits & 0x3F;
    let d = spec_diag_dir_index(enter_diag);
    let bits = tb & spec_touching_side(d);
    if tb == 0 {
        None
    } else if is_pow2_u8(bits) {
        Some(bits)
    } else if bits != 0 {
        first_enterable(bits, d, 0)
    } else if is_pow2_u8(tb) {
        Some(tb)
    } else {
        None
    }
}

proof fn lemma_first_enterable_piece(bits: u8, d: int, k: int)
    ensures
        first_enterable(bits, d, k) matches Some(b) ==> (b == 1 || b == 2 || b == 4 || b == 8 || b == 16 || b == 32) && bits & b != 0,
    decreases 6 - k,
{
    if 0 <= k < 6 {
        lemma_first_enterable_piece(bits, d, k + 1);
    }
}

/// Law: a tile without track pieces gives no piece, and the piece chosen
/// is a single track bit that the tile holds.
pub proof fn lemma_track_bit_is_one_piece_of_tile(enter_diag: u8, track_bits: u8)
    ensures
        track_bits & 0x3F == 0 ==> spec_track_bit_for_movement(enter_diag, track_bits) is None,
        spec_track_bit_for_movement(enter_diag, track_bits) matches Some(b) ==> is_pow2_u8(b) && b & (track_bits & 0x3F)
            == b,
{
    let tb = track_bits & 0x3F;
    let d = spec_diag_dir_index(enter_diag);
    let mask = spec_touching_side(d);
    let bits = tb & mask;
    lemma_first_enterable_piece(bits, d, 0);
    match spec_track_bit_for_movement(enter_diag, track_bits) {
        Some(b) => {
            if is_pow2_u8(bits) {
                assert(b == bits);
                assert(bits & tb == bits) by (bit_vector)
                    requires
                        bits == tb & mask,
                ;
            } else if bits != 0 {
                assert(b & tb == b) by (bit_vector)
                    requires
                        b == 1 || b == 2 || b == 4 || b == 8 || b == 16 || b == 32,
                        bits & b != 0,
                        bits == tb & mask,
                ;
            } else {
                assert(b == tb);
                assert(tb & tb == tb) by (bit_vector);
            }
        },
        None => {},
    }
}

pub fn track_bit_for_movement(enter_diag: u8, track_bits: u8) -> (r: Option<u8>)
    ensures
        r == spec_track_bit_for_movement(enter_diag, track_bits),
{
    let tb = track_bits & 0x3F;
    if tb == 0 {
        return None;
    }
    let d = diag_dir_index(enter_diag);
    let mask: u8 = if d == 0 {
        0x25
    } else if d == 1 {
        0x2A
    } else if d == 2 {
        0x19
    } else {
        0x16
    };
    let bits = tb & mask;
    if is_power_of_two_u8(bits) {
        return Some(bits);
    }
    if bits != 0 {
        let mut k: usize = 0;
        while k < 6
            invariant
                k <= 6,
                d < 4,
                d == spec_diag_dir_index(enter_diag),
                tb == track_bits & 0x3F,
                tb != 0,
                bits == tb & spec_touching_side(d as int),
                bits != 0,
                !is_pow2_u8(bits),
                first_enterable(bits, d as int, 0) == first_enterable(bits, d as int, k as int),
            decreases 6 - k,
        {
            let b: u8 = if k == 0 {
                1
            } else if k == 1 {
                2
            } else if k == 2 {
                4
            } else if k == 3 {
                8
            } else if k == 4 {
                16
            } else {
                32
            };
            if bits & b != 0 && vehicle_subcoord(d, k).is_some() {
                return Some(b);
            }
            k = k + 1;
        }
        return None;
    }
    if is_power_of_two_u8(tb) {
        Some(tb)
    } else {
        None
    }
}

/// Diagonal heading of a depot from its mouth bits (`m5 & 3`).
pub fn train_depot_facing(mouth: u8) -> (r: u8)
    ensures
        r == (if mouth % 4 == 0 {
            DIR_NE
        } else if mouth % 4 == 1 {
            DIR_SE
        } else if mouth % 4 == 2 {
            DIR_SW
        } else {
            DIR_NW
        }),
{
    let m = mouth % 4;
    if m == 0 {
        DIR_NE
    } else if m == 1 {
        DIR_SE
    } else if m == 2 {
        DIR_SW
    } else {
        DIR_NW
    }
}

/// Law: a 45-degree turn one way is a 45-degree turn back the other way.
pub proof fn lemma_45_degree_turn_symmetric(d0: u8, d1: u8)
    ensures
        (spec_dir_difference(d0, d1) == 1 || spec_dir_difference(d0, d1) == 7) == (
        spec_dir_difference(d1, d0) == 1 || spec_dir_difference(d1, d0) == 7),
{
}

/// Track piece whose entry point places a train entering a tile: a lone
/// piece, else the X piece, else the Y piece.
pub open spec fn spec_entry_track_bit(track_bits: u8) -> Option<u8> {
    if is_pow2_u8(track_bits) {
        Some(track_bits)
    } else if track_bits & 0x01 != 0 {
        Some(0x01)
    } else if track_bits & 0x02 != 0 {
        Some(0x02)
    } else {
        None
    }
}

/// Sub-tile entry point of a train entering a tile towards `enter_diag`
/// with `track_bits` (`_vehicle_subcoord` of the piece chosen by
/// `spec_entry_track_bit`).
pub open spec fn spec_subcoord_at_entry(enter_diag: u8, track_bits: u8) -> Option<VehicleSubcoord> {
    match spec_entry_track_bit(track_bits) {
        None => None,
        Some(bit) => match spec_rail_track_index(bit) {
            None => None,
            Some(ti) => spec_vehicle_subcoord(spec_diag_dir_index(enter_diag), ti),
        },
    }
}

pub fn subcoord_at_entry(enter_diag: u8, track_bits: u8) -> (r: Option<VehicleSubcoord>)
    ensures
        r == spec_subcoord_at_entry(enter_diag, track_bits),
{
    let bit: u8 = if is_power_of_two_u8(track_bits) {
        track_bits
    } else if track_bits & 0x01 != 0 {
        0x01
    } else if track_bits & 0x02 != 0 {
        0x02
    } else {
        return None;
    };
    let ti = match rail_track_index(bit) {
        Some(t) => t,
        None => {
            return None;
        },
    };
    vehicle_subcoord(diag_dir_index(enter_diag), ti)
}

/// Coupled units sit one unit length apart: two units of the same length `l`
/// have their centres exactly `l` rail pixels apart, and a unit of even length
/// `2h` is `h` ahead of its own rear end; the spacing grows with either length.
pub proof fn lemma_coupled_units_one_length_apart(l: u8, a: u8, b: u8)
    requires
        a <= b,
    ensures
        spec_next_vehicle_offset(l, l, false) == l,
        l % 2 == 0 ==> spec_next_vehicle_offset(l, 0, true) == l / 2,
        spec_next_vehicle_offset(a, l, false) <= spec_next_vehicle_offset(b, l, false),
        spec_next_vehicle_offset(l, a, false) <= spec_next_vehicle_offset(l, b, false),
        spec_dir_difference(l, l) == 0,
        (spec_dir_difference(a, b) + spec_dir_difference(b, a)) % 8 == 0,
{
}

} // verus!
