//! Turning a stopped train round: the units swap their poses end to end and
//! all reverse their headings in the same tick, so the engine is at the new
//! front before it moves and never drives through its own wagons.

use vstd::prelude::*;
use crate::common::{direction_from_tile_step, reverse_direction, spec_direction_from_tile_step, TileCoord, VehicleKind};
use crate::train_consist::{
    consist_unit_ids, find_upto, find_vehicle, find_vehicle_index, lemma_find_same_ids, spec_consist_unit_ids,
};
use crate::train_pose::{consist_unit_poses, pose_coordinates_fit, spec_consist_unit_poses, TrainUnitPose};
use crate::vehicle::{dest_offset_fits, spec_movement_target, Vehicle};

verus! {

/// What a unit's pose is made of: tile, rail pixel, entry and exit
/// headings, and height.
pub type PoseSnapshot = (TileCoord, u8, u8, u8, Option<i16>);

pub open spec fn snapshot_of(v: Vehicle) -> PoseSnapshot {
    (v.pos, v.rail_pixel, v.direction, v.curve_prev_direction, v.z_pos)
}

/// `new` is `o` placed at the pose `src` run backwards: same tile and height,
/// mirrored rail pixel, entry and exit swapped and both reversed; it stands
/// still with no path and no tile history.
pub open spec fn reversed_into(o: Vehicle, src: PoseSnapshot, new: Vehicle) -> bool {
    &&& new == (Vehicle {
        pos: src.0,
        z_pos: src.4,
        direction: ((src.3 + 4) % 8) as u8,
        curve_prev_direction: ((src.2 + 4) % 8) as u8,
        rail_pixel: (15 - if src.1 > 15 { 15 } else { src.1 }) as u8,
        progress: 0,
        depart_turn: 0,
        cur_speed: 0,
        subspeed: 0,
        path: new.path,
        rail_tile_history: new.rail_tile_history,
        ..o
    })
    &&& new.path@.len() == 0
    &&& new.rail_tile_history@.len() == 0
}

/// The last of the first `k` consist ids that names vehicle `i`.
pub open spec fn last_hit(vs: Seq<Vehicle>, ids: Seq<u32>, i: int, k: int) -> Option<int>
    decreases k,
{
    if k <= 0 {
        None
    } else if find_vehicle(vs, ids[k - 1]) == Some(i) {
        Some(k - 1)
    } else {
        last_hit(vs, ids, i, k - 1)
    }
}

/// A stopped train head whose next step leads back the way it faces, with
/// every unit of its consist present, may turn round.
pub open spec fn reversal_allowed(vs: Seq<Vehicle>, head_id: u32) -> bool {
    match find_vehicle(vs, head_id) {
        None => false,
        Some(h) => {
            let head = vs[h];
            let ids = spec_consist_unit_ids(vs, head_id);
            &&& head.kind == VehicleKind::Train
            &&& head.prev_unit is None
            &&& head.cur_speed == 0
            &&& spec_movement_target(head) matches Some(next) && spec_direction_from_tile_step(head.pos, next)
                == (head.direction + 4) % 8
            &&& forall|k: int| 0 <= k < ids.len() ==> (#[trigger] find_vehicle(vs, ids[k])) is Some
        },
    }
}

/// Units of the consist, turned round: the unit `i` hit last at position
/// `k` of the consist takes the pose of the unit at the mirrored position.
pub open spec fn units_turned(vs0: Seq<Vehicle>, ids: Seq<u32>, vs: Seq<Vehicle>, k: int) -> bool {
    &&& vs.len() == vs0.len()
    &&& forall|i: int| 0 <= i < vs0.len() ==> match #[trigger] last_hit(vs0, ids, i, k) {
        None => vs[i] == vs0[i],
        Some(p) => reversed_into(
            vs0[i],
            snapshot_of(vs0[find_vehicle(vs0, ids[ids.len() - 1 - p])->0]),
            vs[i],
        ),
    }
}

/// The whole reversal: every unit turned, then the head set to face its
/// next step, its waits cleared, and its old path kept when it still starts
/// next to the head's new tile.
pub open spec fn consist_reversed(vs0: Seq<Vehicle>, head_id: u32, vs: Seq<Vehicle>) -> bool {
    let ids = spec_consist_unit_ids(vs0, head_id);
    let h = find_vehicle(vs0, head_id)->0;
    let head0 = vs0[h];
    let outbound = spec_direction_from_tile_step(head0.pos, spec_movement_target(head0)->0);
    let src = snapshot_of(vs0[find_vehicle(vs0, ids[ids.len() - 1 - last_hit(vs0, ids, h, ids.len() as int)->0])->0]);
    let keep_path = head0.path@.len() > 0 && crate::common::manhattan(head0.path@[0], src.0) == 1;
    &&& vs.len() == vs0.len()
    &&& forall|i: int| 0 <= i < vs0.len() && i != h ==> match #[trigger] last_hit(vs0, ids, i, ids.len() as int) {
        None => vs[i] == vs0[i],
        Some(p) => reversed_into(
            vs0[i],
            snapshot_of(vs0[find_vehicle(vs0, ids[ids.len() - 1 - p])->0]),
            vs[i],
        ),
    }
    &&& vs[h] == (Vehicle {
        pos: src.0,
        z_pos: src.4,
        direction: outbound,
        curve_prev_direction: outbound,
        rail_pixel: (15 - if src.1 > 15 { 15 } else { src.1 }) as u8,
        progress: 0,
        depart_turn: 0,
        cur_speed: 0,
        subspeed: 0,
        path: vs[h].path,
        rail_tile_history: vs[h].rail_tile_history,
        wait_counter: 0,
        pbs_stuck: false,
        no_network_route_to_order: false,
        ..head0
    })
    &&& vs[h].rail_tile_history@.len() == 0
    &&& vs[h].path@ == if keep_path { head0.path@ } else { Seq::empty() }
}

/// Headings of every unit can be reversed without overflow.
pub open spec fn headings_fit(vs: Seq<Vehicle>) -> bool {
    forall|i: int| 0 <= i < vs.len() ==> (#[trigger] vs[i]).direction + 4 <= u8::MAX
        && vs[i].curve_prev_direction + 4 <= u8::MAX && dest_offset_fits(vs[i])
}

fn turn_unit(u: &mut Vehicle, src: PoseSnapshot)
    requires
        src.2 + 4 <= u8::MAX,
        src.3 + 4 <= u8::MAX,
    ensures
        reversed_into(*old(u), src, *final(u)),
{
    let (pos, rail_pixel, old_enter, old_exit, z_pos) = src;
    u.pos = pos;
    u.z_pos = z_pos;
    u.direction = reverse_direction(old_exit);
    u.curve_prev_direction = reverse_direction(old_enter);
    u.rail_pixel = 15 - if rail_pixel > 15 { 15 } else { rail_pixel };
    u.progress = 0;
    u.depart_turn = 0;
    u.cur_speed = 0;
    u.subspeed = 0;
    u.path.clear();
    u.rail_tile_history.clear();
}

fn snapshots(vehicles: &Vec<Vehicle>, ids: &Vec<u32>) -> (r: Option<Vec<PoseSnapshot>>)
    ensures
        r is Some <==> forall|k: int| 0 <= k < ids@.len() ==> (#[trigger] find_vehicle(vehicles@, ids@[k])) is Some,
        r matches Some(s) ==> s@.len() == ids@.len() && forall|k: int| 0 <= k < ids@.len() ==> #[trigger] s@[k]
            == snapshot_of(vehicles@[find_vehicle(vehicles@, ids@[k])->0]),
{
    let mut out: Vec<PoseSnapshot> = Vec::new();
    let mut k: usize = 0;
    while k < ids.len()
        invariant
            k <= ids@.len(),
            out@.len() == k,
            forall|m: int| 0 <= m < k ==> (#[trigger] find_vehicle(vehicles@, ids@[m])) is Some,
            forall|m: int| 0 <= m < k ==> #[trigger] out@[m] == snapshot_of(
                vehicles@[find_vehicle(vehicles@, ids@[m])->0],
            ),
        decreases ids@.len() - k,
    {
        match find_vehicle_index(vehicles, ids[k]) {
            None => {
                return None;
            },
            Some(j) => {
                let u = &vehicles[j];
                out.push((u.pos, u.rail_pixel, u.direction, u.curve_prev_direction, u.z_pos));
            },
        }
        k = k + 1;
    }
    Some(out)
}

/// Turns a stopped train round in place when its next step leads back the
/// way it faces (see `consist_reversed`); `false`, with nothing changed,
/// when it may not (`reversal_allowed`).
pub fn reverse_consist_at_stop(vehicles: &mut Vec<Vehicle>, head_id: u32) -> (r: bool)
    requires
        headings_fit(old(vehicles)@),
    ensures
        r == reversal_allowed(old(vehicles)@, head_id),
        !r ==> final(vehicles)@ == old(vehicles)@,
        r ==> consist_reversed(old(vehicles)@, head_id, final(vehicles)@),
{
    let ghost vs0 = vehicles@;
    let ids = consist_unit_ids(vehicles, head_id);
    let h = match find_vehicle_index(vehicles, head_id) {
        None => {
            return false;
        },
        Some(h) => h,
    };
    proof {
        assert(headings_fit(vs0));
        assert(dest_offset_fits(vs0[h as int]) && vs0[h as int].direction + 4 <= u8::MAX);
    }
    if vehicles[h].kind != VehicleKind::Train || vehicles[h].prev_unit.is_some() || vehicles[h].cur_speed != 0 {
        return false;
    }
    let next = match vehicles[h].movement_target() {
        None => {
            return false;
        },
        Some(n) => n,
    };
    let outbound = direction_from_tile_step(vehicles[h].pos, next);
    if outbound != reverse_direction(vehicles[h].direction) {
        return false;
    }
    let original_path = vehicles[h].path.clone();
    assert(original_path@ =~= vs0[h as int].path@);
    let snaps = match snapshots(vehicles, &ids) {
        None => {
            return false;
        },
        Some(s) => s,
    };
    let n = ids.len();
    let mut k: usize = 0;
    while k < n
        invariant
            n == ids@.len(),
            ids@ == spec_consist_unit_ids(vs0, head_id),
            snaps@.len() == n,
            forall|m: int| 0 <= m < n ==> #[trigger] snaps@[m] == snapshot_of(vs0[find_vehicle(vs0, ids@[m])->0]),
            forall|m: int| 0 <= m < n ==> (#[trigger] find_vehicle(vs0, ids@[m])) is Some,
            headings_fit(vs0),
            k <= n,
            vehicles@.len() == vs0.len(),
            forall|i: int| 0 <= i < vs0.len() ==> #[trigger] vehicles@[i].id == vs0[i].id,
            units_turned(vs0, ids@, vehicles@, k as int),
        decreases n - k,
    {
        proof {
            lemma_find_same_ids(vehicles@, vs0, ids@[k as int], vehicles@.len() as int);
        }
        match find_vehicle_index(vehicles, ids[k]) {
            None => {},
            Some(j) => {
                let src = snaps[n - 1 - k];
                proof {
                    let f = find_vehicle(vs0, ids@[n - 1 - k])->0;
                    lemma_find_in_range(vs0, ids@[n - 1 - k]);
                    assert(headings_fit(vs0));
                    assert(vs0[f].direction + 4 <= u8::MAX);
                }
                let ghost before = vehicles@;
                turn_unit(&mut vehicles[j], src);
                proof {
                    assert forall|i: int| 0 <= i < vs0.len() implies #[trigger] vehicles@[i].id == vs0[i].id by {
                        if i != j {
                            assert(vehicles@[i] == before[i]);
                        }
                    }
                    assert forall|i: int| 0 <= i < vs0.len() implies match #[trigger] last_hit(vs0, ids@, i, k + 1) {
                        None => vehicles@[i] == vs0[i],
                        Some(p) => reversed_into(
                            vs0[i],
                            snapshot_of(vs0[find_vehicle(vs0, ids@[ids@.len() - 1 - p])->0]),
                            vehicles@[i],
                        ),
                    } by {
                        if i != j {
                            assert(vehicles@[i] == before[i]);
                        } else {
                            lemma_reverse_twice(vs0[i], before[i], vehicles@[i], src, last_hit(vs0, ids@, i, k as int));
                        }
                    }
                }
            },
        }
        k = k + 1;
    }
    let ghost mid = vehicles@;
    proof {
        lemma_head_hit(vs0, head_id, h as int);
    }
    let hp = vehicles[h].pos;
    let keep = original_path.len() > 0 && crate::common::manhattan_distance(original_path[0], hp) == 1;
    vehicles[h].direction = outbound;
    vehicles[h].curve_prev_direction = outbound;
    if keep {
        vehicles[h].path = original_path;
    }
    vehicles[h].wait_counter = 0;
    vehicles[h].pbs_stuck = false;
    vehicles[h].no_network_route_to_order = false;
    proof {
        assert forall|i: int| 0 <= i < vs0.len() && i != h implies match #[trigger] last_hit(vs0, ids@, i, ids@.len() as int) {
            None => vehicles@[i] == vs0[i],
            Some(p) => reversed_into(
                vs0[i],
                snapshot_of(vs0[find_vehicle(vs0, ids@[ids@.len() - 1 - p])->0]),
                vehicles@[i],
            ),
        } by {
            assert(vehicles@[i] == mid[i]);
        }
        let p = last_hit(vs0, ids@, h as int, ids@.len() as int)->0;
        let src = snapshot_of(vs0[find_vehicle(vs0, ids@[ids@.len() - 1 - p])->0]);
        assert(reversed_into(vs0[h as int], src, mid[h as int]));
        assert(hp == src.0);
        assert(vehicles@[h as int].rail_tile_history@.len() == 0);
        assert(vehicles@[h as int].path@ == if vs0[h as int].path@.len() > 0 && crate::common::manhattan(
            vs0[h as int].path@[0],
            src.0,
        ) == 1 {
            vs0[h as int].path@
        } else {
            Seq::empty()
        });
    }
    true
}

proof fn lemma_find_in_range(vs: Seq<Vehicle>, id: u32)
    requires
        find_vehicle(vs, id) is Some,
    ensures
        0 <= find_vehicle(vs, id)->0 < vs.len(),
{
    lemma_find_upto_range(vs, id, vs.len() as int);
}

proof fn lemma_find_upto_range(vs: Seq<Vehicle>, id: u32, k: int)
    requires
        0 <= k <= vs.len(),
        find_upto(vs, id, k) is Some,
    ensures
        0 <= find_upto(vs, id, k)->0 < k,
    decreases k,
{
    if k > 0 && find_upto(vs, id, k - 1) is Some {
        lemma_find_upto_range(vs, id, k - 1);
    }
}

/// Turning a unit again replaces the earlier turn: only the last pose counts.
proof fn lemma_reverse_twice(o: Vehicle, before: Vehicle, new: Vehicle, src: PoseSnapshot, earlier: Option<int>)
    requires
        reversed_into(before, src, new),
        earlier is None ==> before == o,
        earlier matches Some(p) ==> exists|s: PoseSnapshot| reversed_into(o, s, before),
    ensures
        reversed_into(o, src, new),
{
    if earlier is Some {
        let s = choose|s: PoseSnapshot| reversed_into(o, s, before);
        assert(reversed_into(o, s, before));
    }
}

/// The head's own id is in its consist, so the head is turned too.
proof fn lemma_head_hit(vs: Seq<Vehicle>, head_id: u32, h: int)
    requires
        find_vehicle(vs, head_id) == Some(h),
    ensures
        last_hit(vs, spec_consist_unit_ids(vs, head_id), h, spec_consist_unit_ids(vs, head_id).len() as int) is Some,
{
    let ids = spec_consist_unit_ids(vs, head_id);
    assert(ids.len() >= 1 && ids[0] == head_id);
    lemma_last_hit_some(vs, ids, h, 0, ids.len() as int);
}

proof fn lemma_last_hit_some(vs: Seq<Vehicle>, ids: Seq<u32>, i: int, m: int, k: int)
    requires
        0 <= m < k,
        find_vehicle(vs, ids[m]) == Some(i),
    ensures
        last_hit(vs, ids, i, k) is Some,
    decreases k,
{
    if k - 1 > m && find_vehicle(vs, ids[k - 1]) != Some(i) {
        lemma_last_hit_some(vs, ids, i, m, k - 1);
    }
}

/// The last position in `1..k` of the consist ids, below `limit`, that
/// names vehicle `i` (the head's own entry does not count).
pub open spec fn last_follower_hit(vs: Seq<Vehicle>, ids: Seq<u32>, limit: int, i: int, k: int) -> Option<int>
    decreases k,
{
    if k <= 1 {
        None
    } else if k - 1 < limit && find_vehicle(vs, ids[k - 1]) == Some(i) {
        Some(k - 1)
    } else {
        last_follower_hit(vs, ids, limit, i, k - 1)
    }
}

/// `new` is follower `o` brought along with the head: it takes `dir` (or
/// the pose `pose`), runs as the head does, and drops its path and orders.
pub open spec fn follower_synced(o: Vehicle, pose: Option<TrainUnitPose>, dir: u8, running: bool, new: Vehicle) -> bool {
    &&& new == match pose {
        Some(p) => Vehicle {
            pos: p.tile,
            rail_pixel: p.rail_pixel,
            direction: p.direction,
            curve_prev_direction: p.curve_prev_direction,
            running,
            current_order: 0,
            path: new.path,
            orders: new.orders,
            ..o
        },
        None => Vehicle {
            direction: dir,
            curve_prev_direction: dir,
            running,
            current_order: 0,
            path: new.path,
            orders: new.orders,
            ..o
        },
    }
    &&& new.path@.len() == 0
    &&& new.orders@.len() == 0
}

/// A consist just put together: the head has no tile history yet and every
/// unit stands on the head's tile.
pub open spec fn consist_stacked(vs: Seq<Vehicle>, head: Vehicle, ids: Seq<u32>) -> bool {
    &&& head.rail_tile_history@.len() == 0
    &&& forall|k: int| 0 <= k < ids.len() ==> match #[trigger] find_vehicle(vs, ids[k]) {
        Some(j) => vs[j].pos == head.pos,
        None => false,
    }
}

/// Followers of the first `k` consist positions (below `limit`) synced:
/// every vehicle named last at some position `p` took `poses[p]` (or just
/// the heading in a stacked consist); the others are unchanged.
pub open spec fn synced_upto(
    vs0: Seq<Vehicle>,
    ids: Seq<u32>,
    poses: Seq<TrainUnitPose>,
    limit: int,
    stacked: bool,
    dir: u8,
    running: bool,
    vs: Seq<Vehicle>,
    k: int,
) -> bool {
    &&& vs.len() == vs0.len()
    &&& forall|i: int| 0 <= i < vs0.len() ==> #[trigger] vs[i].id == vs0[i].id
    &&& forall|i: int| 0 <= i < vs0.len() ==> match #[trigger] last_follower_hit(vs0, ids, limit, i, k) {
        None => vs[i] == vs0[i],
        Some(p) => follower_synced(vs0[i], if stacked { None } else { Some(poses[p]) }, dir, running, vs[i]),
    }
}

/// The followers after the head moved: a stacked consist only takes the
/// head's heading; otherwise each follower takes its projected pose. A
/// unit named again later in the consist keeps the last update.
pub open spec fn followers_propagated(vs0: Seq<Vehicle>, head_id: u32, vs: Seq<Vehicle>) -> bool {
    match find_vehicle(vs0, head_id) {
        None => vs == vs0,
        Some(h) => {
            let head = vs0[h];
            let ids = spec_consist_unit_ids(vs0, head_id);
            let stacked = consist_stacked(vs0, head, ids);
            let poses = spec_consist_unit_poses(vs0, head_id);
            let limit = if stacked { ids.len() as int } else { poses.len() as int };
            synced_upto(vs0, ids, poses, limit, stacked, head.direction, head.running, vs, ids.len() as int)
        },
    }
}

fn sync_follower(u: &mut Vehicle, pose: Option<TrainUnitPose>, dir: u8, running: bool)
    ensures
        follower_synced(*old(u), pose, dir, running, *final(u)),
{
    match pose {
        Some(p) => {
            u.pos = p.tile;
            u.rail_pixel = p.rail_pixel;
            u.direction = p.direction;
            u.curve_prev_direction = p.curve_prev_direction;
        },
        None => {
            u.direction = dir;
            u.curve_prev_direction = dir;
        },
    }
    u.running = running;
    u.path.clear();
    u.orders.clear();
    u.current_order = 0;
}

fn all_on_tile(vehicles: &Vec<Vehicle>, ids: &Vec<u32>, pos: TileCoord) -> (r: bool)
    ensures
        r == forall|k: int| 0 <= k < ids@.len() ==> match #[trigger] find_vehicle(vehicles@, ids@[k]) {
            Some(j) => vehicles@[j].pos == pos,
            None => false,
        },
{
    let mut k: usize = 0;
    while k < ids.len()
        invariant
            k <= ids@.len(),
            forall|m: int| 0 <= m < k ==> match #[trigger] find_vehicle(vehicles@, ids@[m]) {
                Some(j) => vehicles@[j].pos == pos,
                None => false,
            },
        decreases ids@.len() - k,
    {
        match find_vehicle_index(vehicles, ids[k]) {
            None => {
                return false;
            },
            Some(j) => {
                if vehicles[j].pos != pos {
                    return false;
                }
            },
        }
        k = k + 1;
    }
    true
}

/// Brings the followers of the consist headed by `head_id` along after the
/// head moved (see `followers_propagated`).
pub fn propagate_consist_unit_poses(vehicles: &mut Vec<Vehicle>, head_id: u32)
    requires
        forall|i: int| 0 <= i < old(vehicles)@.len() ==> pose_coordinates_fit(#[trigger] old(vehicles)@[i]),
    ensures
        followers_propagated(old(vehicles)@, head_id, final(vehicles)@),
{
    let ghost vs0 = vehicles@;
    let ids = consist_unit_ids(vehicles, head_id);
    let h = match find_vehicle_index(vehicles, head_id) {
        None => {
            return;
        },
        Some(h) => h,
    };
    let head_pos = vehicles[h].pos;
    let head_dir = vehicles[h].direction;
    let running = vehicles[h].running;
    let stacked = vehicles[h].rail_tile_history.len() == 0 && all_on_tile(vehicles, &ids, head_pos);
    let poses = consist_unit_poses(vehicles, head_id);
    let limit = if stacked { ids.len() } else { poses.len() };
    let n = ids.len();
    assert(ids@.len() >= 1 && ids@[0] == head_id);
    let mut k: usize = 1;
    while k < n
        invariant
            1 <= k <= n,
            n == ids@.len(),
            ids@ == spec_consist_unit_ids(vs0, head_id),
            poses@ == spec_consist_unit_poses(vs0, head_id),
            h < vs0.len(),
            find_vehicle(vs0, head_id) == Some(h as int),
            head_dir == vs0[h as int].direction,
            running == vs0[h as int].running,
            stacked == consist_stacked(vs0, vs0[h as int], ids@),
            limit == if stacked { n as int } else { poses@.len() as int },
            synced_upto(vs0, ids@, poses@, limit as int, stacked, head_dir, running, vehicles@, k as int),
        decreases n - k,
    {
        sync_step(vehicles, Ghost(vs0), &ids, &poses, limit, stacked, head_dir, running, k);
        k = k + 1;
    }
}

fn sync_step(
    vehicles: &mut Vec<Vehicle>,
    vs0: Ghost<Seq<Vehicle>>,
    ids: &Vec<u32>,
    poses: &Vec<TrainUnitPose>,
    limit: usize,
    stacked: bool,
    head_dir: u8,
    running: bool,
    k: usize,
)
    requires
        1 <= k < ids@.len(),
        !stacked ==> limit <= poses@.len(),
        synced_upto(vs0@, ids@, poses@, limit as int, stacked, head_dir, running, old(vehicles)@, k as int),
    ensures
        synced_upto(vs0@, ids@, poses@, limit as int, stacked, head_dir, running, final(vehicles)@, k + 1),
{
    let ghost vs0 = vs0@;
    proof {
        lemma_find_same_ids(vehicles@, vs0, ids@[k as int], vehicles@.len() as int);
    }
    if k >= limit {
        proof {
            assert forall|i: int| 0 <= i < vs0.len() implies #[trigger] last_follower_hit(vs0, ids@, limit as int, i, k + 1)
                == last_follower_hit(vs0, ids@, limit as int, i, k as int) by {}
        }
        return;
    }
    match find_vehicle_index(vehicles, ids[k]) {
        None => {
            proof {
                assert forall|i: int| 0 <= i < vs0.len() implies #[trigger] last_follower_hit(vs0, ids@, limit as int, i, k + 1)
                    == last_follower_hit(vs0, ids@, limit as int, i, k as int) by {}
            }
        },
        Some(j) => {
            let pose = if stacked { None } else { Some(poses[k]) };
            let ghost before = vehicles@;
            sync_follower(&mut vehicles[j], pose, head_dir, running);
            proof {
                lemma_sync_step_found(vs0, ids@, poses@, limit as int, stacked, head_dir, running, before, vehicles@, k as int, j as int, pose);
            }
        },
    }
}

proof fn lemma_sync_step_found(
    vs0: Seq<Vehicle>,
    ids: Seq<u32>,
    poses: Seq<TrainUnitPose>,
    limit: int,
    stacked: bool,
    dir: u8,
    running: bool,
    before: Seq<Vehicle>,
    after: Seq<Vehicle>,
    k: int,
    j: int,
    pose: Option<TrainUnitPose>,
)
    requires
        1 <= k < limit,
        k < ids.len(),
        !stacked ==> k < poses.len(),
        synced_upto(vs0, ids, poses, limit, stacked, dir, running, before, k),
        find_vehicle(vs0, ids[k]) == Some(j),
        0 <= j < before.len(),
        after.len() == before.len(),
        forall|i: int| 0 <= i < before.len() && i != j ==> after[i] == before[i],
        pose == if stacked { None } else { Some(poses[k]) },
        follower_synced(before[j], pose, dir, running, after[j]),
    ensures
        synced_upto(vs0, ids, poses, limit, stacked, dir, running, after, k + 1),
{
    assert forall|i: int| 0 <= i < vs0.len() implies #[trigger] after[i].id == vs0[i].id by {
        if i != j {
            assert(after[i] == before[i]);
        }
    }
    assert forall|i: int| 0 <= i < vs0.len() implies match #[trigger] last_follower_hit(vs0, ids, limit, i, k + 1) {
        None => after[i] == vs0[i],
        Some(p) => follower_synced(vs0[i], if stacked { None } else { Some(poses[p]) }, dir, running, after[i]),
    } by {
        if i != j {
            assert(after[i] == before[i]);
            assert(last_follower_hit(vs0, ids, limit, i, k + 1) == last_follower_hit(vs0, ids, limit, i, k));
        } else {
            let earlier = last_follower_hit(vs0, ids, limit, i, k);
            let prev_pose = if stacked { None } else { Some(poses[earlier->0]) };
            lemma_sync_twice(vs0[i], before[i], after[i], pose, prev_pose, dir, running, earlier);
        }
    }
}

/// Syncing a follower again, the same way, replaces the earlier sync.
proof fn lemma_sync_twice(
    o: Vehicle,
    before: Vehicle,
    new: Vehicle,
    pose: Option<TrainUnitPose>,
    prev_pose: Option<TrainUnitPose>,
    dir: u8,
    running: bool,
    earlier: Option<int>,
)
    requires
        follower_synced(before, pose, dir, running, new),
        earlier is None ==> before == o,
        earlier is Some ==> follower_synced(o, prev_pose, dir, running, before) && (prev_pose is Some
            <==> pose is Some),
    ensures
        follower_synced(o, pose, dir, running, new),
{
}

} // verus!
