//! Poses of a consist's units: the head keeps its own position, and every
//! following unit is placed the centre-to-centre distance of the pair behind
//! the unit in front, along the tiles the head has left.

use vstd::prelude::*;
use crate::common::{
    direction_from_tile_step, spec_direction_from_tile_step, TileCoord, DIR_E, DIR_N, DIR_NW, DIR_S, DIR_SE,
    DIR_SW, DIR_W,
};
use crate::train_consist::{consist_unit_ids, find_vehicle, find_vehicle_index, spec_consist_unit_ids};
use crate::train_movement::{calc_next_vehicle_offset, spec_next_vehicle_offset};
use crate::vehicle::Vehicle;

verus! {

/// Rail pose of one unit: tile and rail pixel, with the heading it entered
/// the tile with and the heading it leaves towards.
#[derive(Debug, Clone, Copy, PartialEq, Eq, Structural)]
pub struct TrainUnitPose {
    pub tile: TileCoord,
    pub rail_pixel: u8,
    pub direction: u8,
    pub curve_prev_direction: u8,
}

/// Rail pixels per tile.
pub const PIXELS_PER_TILE: u16 = 16;

/// First index below `k` at which `h` holds `t`.
pub open spec fn history_pos(h: Seq<TileCoord>, t: TileCoord, k: int) -> Option<int>
    decreases k,
{
    if k <= 0 {
        None
    } else {
        match history_pos(h, t, k - 1) {
            Some(i) => Some(i),
            None => if h[k - 1] == t { Some(k - 1) } else { None },
        }
    }
}

pub open spec fn first_pos(h: Seq<TileCoord>, t: TileCoord) -> Option<int> {
    history_pos(h, t, h.len() as int)
}

/// Headings at `tile` on the head's route: entering and leaving. On the
/// head's own tile they are its heading and the step to its next path tile;
/// on a tile it left, the steps from the older and to the newer tile; off
/// the route, the head's previous curve heading.
pub open spec fn spec_route_directions_at(head: Vehicle, tile: TileCoord) -> (u8, u8) {
    let h = head.rail_tile_history@;
    if tile == head.pos {
        let enter = head.direction;
        (enter, if head.path@.len() > 0 { spec_direction_from_tile_step(tile, head.path@[0]) } else { enter })
    } else {
        match first_pos(h, tile) {
            None => (head.curve_prev_direction, head.curve_prev_direction),
            Some(i) => {
                let newer = if i == 0 { head.pos } else { h[i - 1] };
                let exit = spec_direction_from_tile_step(tile, newer);
                let enter = if i + 1 < h.len() { spec_direction_from_tile_step(h[i + 1], tile) } else { exit };
                (enter, exit)
            },
        }
    }
}

/// Index in the head's history of the first tile behind `tile`.
pub open spec fn spec_history_index_after(head: Vehicle, tile: TileCoord) -> int {
    if tile == head.pos {
        0
    } else {
        match first_pos(head.rail_tile_history@, tile) {
            Some(i) => i + 1,
            None => 0,
        }
    }
}

/// Step of one tile backwards for a head with heading `direction`.
pub open spec fn back_step(direction: u8) -> (int, int) {
    if direction == DIR_E {
        (1, 1)
    } else if direction == DIR_SE {
        (0, 1)
    } else if direction == DIR_S {
        (-1, 1)
    } else if direction == DIR_SW {
        (-1, 0)
    } else if direction == DIR_W {
        (-1, -1)
    } else if direction == DIR_NW {
        (0, -1)
    } else if direction == DIR_N {
        (1, -1)
    } else {
        (1, 0)
    }
}

/// The tile `steps` tiles behind `from` against the head's heading.
pub open spec fn spec_fallback_tile(from: TileCoord, direction: u8, steps: int) -> TileCoord {
    TileCoord {
        x: (from.x + back_step(direction).0 * steps) as i32,
        y: (from.y + back_step(direction).1 * steps) as i32,
    }
}

/// The pose `back` rail pixels behind `from` along the head's route.
pub open spec fn spec_project_behind(head: Vehicle, from: TrainUnitPose, back: int) -> TrainUnitPose {
    let start: int = if from.rail_pixel > 15 { 15 } else { from.rail_pixel as int };
    if back == 0 {
        from
    } else if back <= start {
        let d = spec_route_directions_at(head, from.tile);
        TrainUnitPose { tile: from.tile, rail_pixel: (start - back) as u8, direction: d.0, curve_prev_direction: d.1 }
    } else {
        let into = back - start;
        let abs_hist = spec_history_index_after(head, from.tile) + (into - 1) / 16;
        let tile = if abs_hist < head.rail_tile_history@.len() {
            head.rail_tile_history@[abs_hist]
        } else {
            spec_fallback_tile(head.pos, head.direction, abs_hist + 1)
        };
        let d = spec_route_directions_at(head, tile);
        TrainUnitPose { tile, rail_pixel: (15 - (into - 1) % 16) as u8, direction: d.0, curve_prev_direction: d.1 }
    }
}

/// Length used for spacing: at least 1.
pub open spec fn spacing_length(v: Vehicle) -> u8 {
    if v.unit_length == 0 { 1 } else { v.unit_length }
}

/// Poses of the units `ids[k..]` behind the one at `prev` of length `prev_len`
/// (ids that name no vehicle are skipped).
pub open spec fn follower_poses(
    vs: Seq<Vehicle>,
    head: Vehicle,
    ids: Seq<u32>,
    k: int,
    prev: TrainUnitPose,
    prev_len: u8,
) -> Seq<TrainUnitPose>
    decreases ids.len() - k,
{
    if k < 0 || k >= ids.len() {
        Seq::empty()
    } else {
        match find_vehicle(vs, ids[k]) {
            None => follower_poses(vs, head, ids, k + 1, prev, prev_len),
            Some(j) => {
                let nl = spacing_length(vs[j]);
                let p = spec_project_behind(head, prev, spec_next_vehicle_offset(prev_len, nl, false));
                seq![p] + follower_poses(vs, head, ids, k + 1, p, nl)
            },
        }
    }
}

/// Pose of the head itself.
pub open spec fn head_pose(head: Vehicle) -> TrainUnitPose {
    let d = spec_route_directions_at(head, head.pos);
    TrainUnitPose {
        tile: head.pos,
        rail_pixel: if head.rail_pixel > 15 { 15 } else { head.rail_pixel },
        direction: d.0,
        curve_prev_direction: d.1,
    }
}

/// Poses of the consist headed by `head_id`, head first.
pub open spec fn spec_consist_unit_poses(vs: Seq<Vehicle>, head_id: u32) -> Seq<TrainUnitPose> {
    match find_vehicle(vs, head_id) {
        None => Seq::empty(),
        Some(h) => {
            let head = vs[h];
            seq![head_pose(head)] + follower_poses(
                vs,
                head,
                spec_consist_unit_ids(vs, head_id),
                1,
                head_pose(head),
                spacing_length(head),
            )
        },
    }
}

/// Coordinates stay far from the `i32` limits: tile positions of real maps.
pub open spec fn pose_coordinates_fit(head: Vehicle) -> bool {
    &&& -0x1000_0000 < head.pos.x < 0x1000_0000
    &&& -0x1000_0000 < head.pos.y < 0x1000_0000
    &&& head.rail_tile_history@.len() < 0x100_0000
}

fn history_position(h: &Vec<TileCoord>, t: TileCoord) -> (r: Option<usize>)
    ensures
        h@.len() <= usize::MAX,
        match r {
            Some(i) => first_pos(h@, t) == Some(i as int) && i < h@.len(),
            None => first_pos(h@, t) is None,
        },
{
    let n = h.len();
    let mut k: usize = 0;
    while k < n
        invariant
            n == h@.len(),
            k <= h@.len(),
            history_pos(h@, t, k as int) is None,
        decreases h@.len() - k,
    {
        if h[k] == t {
            proof {
                lemma_history_pos_found(h@, t, k as int + 1, h@.len() as int);
            }
            return Some(k);
        }
        k = k + 1;
    }
    None
}

/// Once found below `k`, the first position stays the same for larger bounds.
proof fn lemma_history_pos_found(h: Seq<TileCoord>, t: TileCoord, k: int, m: int)
    requires
        k <= m,
        history_pos(h, t, k) is Some,
    ensures
        history_pos(h, t, m) == history_pos(h, t, k),
    decreases m - k,
{
    if k < m {
        lemma_history_pos_found(h, t, k, m - 1);
    }
}

fn route_directions_at(head: &Vehicle, tile: TileCoord) -> (r: (u8, u8))
    ensures
        r == spec_route_directions_at(*head, tile),
{
    if tile == head.pos {
        let enter = head.direction;
        let exit = if head.path.len() > 0 { direction_from_tile_step(tile, head.path[0]) } else { enter };
        return (enter, exit);
    }
    match history_position(&head.rail_tile_history, tile) {
        None => (head.curve_prev_direction, head.curve_prev_direction),
        Some(i) => {
            let newer = if i == 0 { head.pos } else { head.rail_tile_history[i - 1] };
            let exit = direction_from_tile_step(tile, newer);
            let enter = if i + 1 < head.rail_tile_history.len() {
                direction_from_tile_step(head.rail_tile_history[i + 1], tile)
            } else {
                exit
            };
            (enter, exit)
        },
    }
}

fn history_index_after(head: &Vehicle, tile: TileCoord) -> (r: usize)
    ensures
        r == spec_history_index_after(*head, tile),
        r <= head.rail_tile_history@.len(),
{
    if tile == head.pos {
        return 0;
    }
    match history_position(&head.rail_tile_history, tile) {
        Some(i) => i + 1,
        None => 0,
    }
}

fn fallback_tile(from: TileCoord, direction: u8, steps: usize) -> (r: TileCoord)
    requires
        -0x1000_0000 < from.x < 0x1000_0000,
        -0x1000_0000 < from.y < 0x1000_0000,
        steps < 0x1000_0000,
    ensures
        r == spec_fallback_tile(from, direction, steps as int),
{
    let s = steps as i32;
    let (dx, dy): (i32, i32) = if direction == DIR_E {
        (1, 1)
    } else if direction == DIR_SE {
        (0, 1)
    } else if direction == DIR_S {
        (-1, 1)
    } else if direction == DIR_SW {
        (-1, 0)
    } else if direction == DIR_W {
        (-1, -1)
    } else if direction == DIR_NW {
        (0, -1)
    } else if direction == DIR_N {
        (1, -1)
    } else {
        (1, 0)
    };
    assert(-1 <= dx <= 1 && -1 <= dy <= 1);
    assert(-0x1000_0000 <= dx * s <= 0x1000_0000) by (nonlinear_arith)
        requires
            -1 <= dx <= 1,
            0 <= s < 0x1000_0000,
    ;
    assert(-0x1000_0000 <= dy * s <= 0x1000_0000) by (nonlinear_arith)
        requires
            -1 <= dy <= 1,
            0 <= s < 0x1000_0000,
    ;
    TileCoord::new(from.x + dx * s, from.y + dy * s)
}

fn project_behind_unit(head: &Vehicle, from: TrainUnitPose, back_pixels: u16) -> (r: TrainUnitPose)
    requires
        pose_coordinates_fit(*head),
    ensures
        r == spec_project_behind(*head, from, back_pixels as int),
{
    let start: u16 = if from.rail_pixel > 15 { 15 } else { from.rail_pixel as u16 };
    if back_pixels == 0 {
        return from;
    }
    if back_pixels <= start {
        let (enter, exit) = route_directions_at(head, from.tile);
        return TrainUnitPose {
            tile: from.tile,
            rail_pixel: (start - back_pixels) as u8,
            direction: enter,
            curve_prev_direction: exit,
        };
    }
    let into = back_pixels - start;
    let hist_skip = history_index_after(head, from.tile);
    let hist = ((into - 1) / PIXELS_PER_TILE) as usize;
    let pixel_from_exit = (into - 1) % PIXELS_PER_TILE;
    let rail_pixel = (15 - pixel_from_exit) as u8;
    let abs_hist = hist_skip + hist;
    let tile = if abs_hist < head.rail_tile_history.len() {
        head.rail_tile_history[abs_hist]
    } else {
        fallback_tile(head.pos, head.direction, abs_hist + 1)
    };
    let (enter, exit) = route_directions_at(head, tile);
    TrainUnitPose { tile, rail_pixel, direction: enter, curve_prev_direction: exit }
}

/// Poses of the units of the consist headed by `head_id`, head first (none
/// when no vehicle has that id).
pub fn consist_unit_poses(vehicles: &Vec<Vehicle>, head_id: u32) -> (r: Vec<TrainUnitPose>)
    requires
        forall|i: int| 0 <= i < vehicles@.len() ==> pose_coordinates_fit(#[trigger] vehicles@[i]),
    ensures
        r@ == spec_consist_unit_poses(vehicles@, head_id),
{
    let ids = consist_unit_ids(vehicles, head_id);
    let h = match find_vehicle_index(vehicles, head_id) {
        None => {
            return Vec::new();
        },
        Some(h) => h,
    };
    let head = &vehicles[h];
    let (enter, exit) = route_directions_at(head, head.pos);
    let mut prev = TrainUnitPose {
        tile: head.pos,
        rail_pixel: if head.rail_pixel > 15 { 15 } else { head.rail_pixel },
        direction: enter,
        curve_prev_direction: exit,
    };
    let mut poses: Vec<TrainUnitPose> = Vec::new();
    poses.push(prev);
    let mut prev_length: u8 = if head.unit_length == 0 { 1 } else { head.unit_length };
    let ghost total = spec_consist_unit_poses(vehicles@, head_id);
    let mut k: usize = 1;
    proof {
        assert(pose_coordinates_fit(vehicles@[h as int]));
    }
    while k < ids.len()
        invariant
            1 <= k,
            h < vehicles@.len(),
            *head == vehicles@[h as int],
            find_vehicle(vehicles@, head_id) == Some(h as int),
            pose_coordinates_fit(*head),
            ids@ == spec_consist_unit_ids(vehicles@, head_id),
            total == spec_consist_unit_poses(vehicles@, head_id),
            total == poses@ + follower_poses(vehicles@, *head, ids@, k as int, prev, prev_length),
        decreases ids@.len() - k,
    {
        match find_vehicle_index(vehicles, ids[k]) {
            None => {},
            Some(j) => {
                let unit = &vehicles[j];
                let next_length: u8 = if unit.unit_length == 0 { 1 } else { unit.unit_length };
                let offset = calc_next_vehicle_offset(prev_length, next_length, false);
                let p = project_behind_unit(head, prev, offset);
                proof {
                    assert(poses@.push(p) + follower_poses(vehicles@, *head, ids@, k + 1, p, next_length)
                        =~= poses@ + (seq![p] + follower_poses(vehicles@, *head, ids@, k + 1, p, next_length)));
                }
                poses.push(p);
                prev = p;
                prev_length = next_length;
            },
        }
        k = k + 1;
    }
    proof {
        assert(poses@ + follower_poses(vehicles@, *head, ids@, k as int, prev, prev_length) =~= poses@);
    }
    poses
}

/// The head's own pose always comes first, on the head's tile.
pub proof fn lemma_head_pose_first(vs: Seq<Vehicle>, head_id: u32)
    requires
        find_vehicle(vs, head_id) is Some,
    ensures
        spec_consist_unit_poses(vs, head_id).len() >= 1,
        spec_consist_unit_poses(vs, head_id)[0].tile == vs[find_vehicle(vs, head_id)->0].pos,
{
}

} // verus!
