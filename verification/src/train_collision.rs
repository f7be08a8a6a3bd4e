//! Train crashes: two trains of the same company whose units stand on a
//! common tile outside a depot collide. Each pair of trains is reported
//! once.

use vstd::prelude::*;
use crate::common::{TileCoord, VehicleKind};
use crate::train_consist::{
    consist_occupied_tiles, consist_unit_ids, spec_consist_occupied_tiles, spec_consist_unit_ids,
};
use crate::vehicle::Vehicle;

verus! {

/// Two consist heads that collide, and a tile they share.
#[derive(Debug, Clone, Copy, PartialEq, Eq, Structural)]
pub struct TrainCollision {
    pub a: u32,
    pub b: u32,
    pub at: TileCoord,
}

/// Vehicle `i` is the head of a train that is not parked in a depot.
pub open spec fn collision_head(vs: Seq<Vehicle>, depots: Seq<TileCoord>, i: int) -> bool {
    &&& 0 <= i < vs.len()
    &&& vs[i].kind == VehicleKind::Train
    &&& vs[i].prev_unit is None
    &&& !depots.contains(vs[i].pos)
}

/// `base` followed by the tiles of `extra` it does not hold yet, each once.
pub open spec fn add_new_tiles(base: Seq<TileCoord>, extra: Seq<TileCoord>) -> Seq<TileCoord>
    decreases extra.len(),
{
    if extra.len() == 0 {
        base
    } else {
        let b = add_new_tiles(base, extra.drop_last());
        if b.contains(extra.last()) { b } else { b.push(extra.last()) }
    }
}

/// The head's length in whole tiles, rounded up, at least one.
pub open spec fn head_span_tiles(h: Vehicle) -> int {
    let tiles = (h.cached_total_length + 255) / 256;
    if tiles < 1 { 1 } else { tiles }
}

/// The most recent tiles of the head's rail history that a chain-less
/// train of its length still covers behind its own tile.
pub open spec fn history_behind(h: Vehicle) -> Seq<TileCoord> {
    let n = head_span_tiles(h) - 1;
    let len = h.rail_tile_history@.len() as int;
    h.rail_tile_history@.take(if n < len { n } else { len })
}

/// Tiles of the train headed by `h`: those its units stand on and, for a
/// train without a coupled chain, the history tiles its length covers.
pub open spec fn train_footprint(vs: Seq<Vehicle>, h: Vehicle) -> Seq<TileCoord> {
    let base = spec_consist_occupied_tiles(vs, h.id);
    if spec_consist_unit_ids(vs, h.id).len() <= 1 {
        add_new_tiles(base, history_behind(h))
    } else {
        base
    }
}

/// The tiles on which the train headed by vehicle `i` can collide.
pub open spec fn crash_tiles(vs: Seq<Vehicle>, depots: Seq<TileCoord>, i: int) -> Seq<TileCoord> {
    if collision_head(vs, depots, i) {
        train_footprint(vs, vs[i])
    } else {
        seq![]
    }
}

/// The trains headed by vehicles `i < j` belong to one company and both
/// stand on `at`, which is not a depot tile.
pub open spec fn trains_meet(vs: Seq<Vehicle>, depots: Seq<TileCoord>, i: int, j: int, at: TileCoord) -> bool {
    &&& 0 <= i < j < vs.len()
    &&& collision_head(vs, depots, i)
    &&& collision_head(vs, depots, j)
    &&& vs[i].owner == vs[j].owner
    &&& !depots.contains(at)
    &&& crash_tiles(vs, depots, i).contains(at)
    &&& crash_tiles(vs, depots, j).contains(at)
}

/// `c` names the pair `a`, `b` in either order.
pub open spec fn same_pair(c: TrainCollision, a: u32, b: u32) -> bool {
    (c.a == a && c.b == b) || (c.a == b && c.b == a)
}

pub open spec fn pair_reported(out: Seq<TrainCollision>, a: u32, b: u32) -> bool {
    exists|k: int| 0 <= k < out.len() && #[trigger] same_pair(out[k], a, b)
}

/// `c` reports a real meeting: an earlier train `a`, a later train `b`.
pub open spec fn collision_witnessed(vs: Seq<Vehicle>, depots: Seq<TileCoord>, c: TrainCollision) -> bool {
    exists|i: int, j: int|
        #![trigger trains_meet(vs, depots, i, j, c.at)]
        trains_meet(vs, depots, i, j, c.at) && vs[i].id == c.a && vs[j].id == c.b
}

fn contains_tile(tiles: &Vec<TileCoord>, pos: TileCoord) -> (r: bool)
    ensures
        r == tiles@.contains(pos),
{
    let mut k: usize = 0;
    while k < tiles.len()
        invariant
            k <= tiles@.len(),
            forall|j: int| 0 <= j < k ==> tiles@[j] != pos,
        decreases tiles@.len() - k,
    {
        if tiles[k] == pos {
            assert(tiles@[k as int] == pos);
            return true;
        }
        k = k + 1;
    }
    false
}

fn already_reported(out: &Vec<TrainCollision>, a: u32, b: u32) -> (r: bool)
    ensures
        r == pair_reported(out@, a, b),
{
    let mut k: usize = 0;
    while k < out.len()
        invariant
            k <= out@.len(),
            forall|j: int| 0 <= j < k ==> !same_pair(#[trigger] out@[j], a, b),
        decreases out@.len() - k,
    {
        let c = out[k];
        if (c.a == a && c.b == b) || (c.a == b && c.b == a) {
            assert(same_pair(out@[k as int], a, b));
            return true;
        }
        k = k + 1;
    }
    false
}

proof fn lemma_reported_push(out: Seq<TrainCollision>, c: TrainCollision, a: u32, b: u32)
    requires
        pair_reported(out, a, b),
    ensures
        pair_reported(out.push(c), a, b),
{
    let k = choose|k: int| 0 <= k < out.len() && #[trigger] same_pair(out[k], a, b);
    assert(out.push(c)[k] == out[k]);
}

fn train_footprint_of(vehicles: &Vec<Vehicle>, i: usize) -> (r: Vec<TileCoord>)
    requires
        i < vehicles@.len(),
    ensures
        r@ == train_footprint(vehicles@, vehicles@[i as int]),
{
    let h = &vehicles[i];
    let ids = consist_unit_ids(vehicles, h.id);
    let mut tiles = consist_occupied_tiles(vehicles, h.id);
    if ids.len() <= 1 {
        let ghost base = tiles@;
        let len = h.cached_total_length as u32;
        let span_tiles = if (len + 255) / 256 < 1 { 1 } else { (len + 255) / 256 };
        let n = (span_tiles - 1) as usize;
        let take = if n < h.rail_tile_history.len() { n } else { h.rail_tile_history.len() };
        let ghost hist = h.rail_tile_history@;
        assert(history_behind(*h) == hist.take(take as int));
        let mut k: usize = 0;
        while k < take
            invariant
                k <= take,
                take <= hist.len(),
                hist == h.rail_tile_history@,
                tiles@ == add_new_tiles(base, hist.take(k as int)),
            decreases take - k,
        {
            let t = h.rail_tile_history[k];
            assert(hist.take(k as int + 1).drop_last() =~= hist.take(k as int));
            if !contains_tile(&tiles, t) {
                tiles.push(t);
            }
            k = k + 1;
        }
    }
    tiles
}

/// Crash tiles of every vehicle, by position.
fn all_crash_tiles(depot_tiles: &Vec<TileCoord>, vehicles: &Vec<Vehicle>) -> (r: Vec<Vec<TileCoord>>)
    ensures
        r@.len() == vehicles@.len(),
        forall|i: int| 0 <= i < r@.len() ==> (#[trigger] r@[i])@ == crash_tiles(vehicles@, depot_tiles@, i),
{
    let mut r: Vec<Vec<TileCoord>> = Vec::new();
    let mut i: usize = 0;
    while i < vehicles.len()
        invariant
            i <= vehicles@.len(),
            r@.len() == i,
            forall|m: int| 0 <= m < i ==> (#[trigger] r@[m])@ == crash_tiles(vehicles@, depot_tiles@, m),
        decreases vehicles@.len() - i,
    {
        let v = &vehicles[i];
        if v.kind == VehicleKind::Train && v.prev_unit.is_none() && !contains_tile(depot_tiles, v.pos) {
            r.push(train_footprint_of(vehicles, i));
        } else {
            r.push(Vec::new());
        }
        i = i + 1;
    }
    r
}

/// Collisions between trains of the same company: each pair of trains that
/// share a tile outside depots is reported once, earlier vehicle first,
/// with a tile they share.
pub fn detect_train_collisions(depot_tiles: &Vec<TileCoord>, vehicles: &Vec<Vehicle>) -> (out: Vec<TrainCollision>)
    ensures
        forall|k: int| 0 <= k < out@.len() ==> collision_witnessed(vehicles@, depot_tiles@, #[trigger] out@[k]),
        forall|k1: int, k2: int|
            0 <= k1 < k2 < out@.len() ==> !same_pair(#[trigger] out@[k1], #[trigger] out@[k2].a, out@[k2].b),
        forall|i: int, j: int, at: TileCoord|
            #[trigger] trains_meet(vehicles@, depot_tiles@, i, j, at) ==> pair_reported(out@, vehicles@[i].id, vehicles@[j].id),
{
    let ghost vs = vehicles@;
    let ghost depots = depot_tiles@;
    let tiles = all_crash_tiles(depot_tiles, vehicles);
    let mut out: Vec<TrainCollision> = Vec::new();
    let mut j: usize = 0;
    while j < vehicles.len()
        invariant
            j <= vs.len(),
            vs == vehicles@,
            depots == depot_tiles@,
            tiles@.len() == vs.len(),
            forall|m: int| 0 <= m < tiles@.len() ==> (#[trigger] tiles@[m])@ == crash_tiles(vs, depots, m),
            forall|k: int| 0 <= k < out@.len() ==> collision_witnessed(vs, depots, #[trigger] out@[k]),
            forall|k1: int, k2: int|
                0 <= k1 < k2 < out@.len() ==> !same_pair(#[trigger] out@[k1], #[trigger] out@[k2].a, out@[k2].b),
            forall|i: int, j2: int, at: TileCoord|
                j2 < j && #[trigger] trains_meet(vs, depots, i, j2, at) ==> pair_reported(out@, vs[i].id, vs[j2].id),
        decreases vs.len() - j,
    {
        let tj = &tiles[j];
        let mut t: usize = 0;
        while t < tj.len()
            invariant
                j < vs.len(),
                t <= tj@.len(),
                vs == vehicles@,
                depots == depot_tiles@,
                tiles@.len() == vs.len(),
                forall|m: int| 0 <= m < tiles@.len() ==> (#[trigger] tiles@[m])@ == crash_tiles(vs, depots, m),
                tj@ == crash_tiles(vs, depots, j as int),
                forall|k: int| 0 <= k < out@.len() ==> collision_witnessed(vs, depots, #[trigger] out@[k]),
                forall|k1: int, k2: int|
                    0 <= k1 < k2 < out@.len() ==> !same_pair(#[trigger] out@[k1], #[trigger] out@[k2].a, out@[k2].b),
                forall|i: int, j2: int, at: TileCoord|
                    j2 < j && #[trigger] trains_meet(vs, depots, i, j2, at) ==> pair_reported(out@, vs[i].id, vs[j2].id),
                forall|i: int, t2: int|
                    0 <= t2 < t && #[trigger] trains_meet(vs, depots, i, j as int, tj@[t2]) ==> pair_reported(out@, vs[i].id, vs[j as int].id),
            decreases tj@.len() - t,
        {
            let at = tj[t];
            if !contains_tile(depot_tiles, at) {
                let mut i: usize = 0;
                while i < j
                    invariant
                        j < vs.len(),
                        i <= j,
                        t < tj@.len(),
                        at == tj@[t as int],
                        !depots.contains(at),
                        vs == vehicles@,
                        depots == depot_tiles@,
                        tiles@.len() == vs.len(),
                        forall|m: int| 0 <= m < tiles@.len() ==> (#[trigger] tiles@[m])@ == crash_tiles(vs, depots, m),
                        tj@ == crash_tiles(vs, depots, j as int),
                        forall|k: int| 0 <= k < out@.len() ==> collision_witnessed(vs, depots, #[trigger] out@[k]),
                        forall|k1: int, k2: int|
                            0 <= k1 < k2 < out@.len() ==> !same_pair(#[trigger] out@[k1], #[trigger] out@[k2].a, out@[k2].b),
                        forall|i2: int, j2: int, at2: TileCoord|
                            j2 < j && #[trigger] trains_meet(vs, depots, i2, j2, at2) ==> pair_reported(out@, vs[i2].id, vs[j2].id),
                        forall|i2: int, t2: int|
                            0 <= t2 < t && #[trigger] trains_meet(vs, depots, i2, j as int, tj@[t2]) ==> pair_reported(out@, vs[i2].id, vs[j as int].id),
                        forall|i2: int| 0 <= i2 < i && #[trigger] trains_meet(vs, depots, i2, j as int, at) ==> pair_reported(out@, vs[i2].id, vs[j as int].id),
                    decreases j - i,
                {
                    if vehicles[i].owner == vehicles[j].owner && contains_tile(&tiles[i], at) {
                        let a = vehicles[i].id;
                        let b = vehicles[j].id;
                        if !already_reported(&out, a, b) {
                            let c = TrainCollision { a, b, at };
                            proof {
                                assert(tiles@[i as int]@.len() > 0);
                                assert(collision_head(vs, depots, i as int));
                                assert(tj@.contains(at));
                                assert(trains_meet(vs, depots, i as int, j as int, at));
                            }
                            let ghost old_out = out@;
                            out.push(c);
                            proof {
                                assert(trains_meet(vs, depots, i as int, j as int, c.at));
                                assert(vs[i as int].id == c.a && vs[j as int].id == c.b);
                                assert(collision_witnessed(vs, depots, c));
                                assert(same_pair(out@[old_out.len() as int], a, b));
                                assert forall|i2: int, j2: int, at2: TileCoord|
                                    j2 < j && #[trigger] trains_meet(vs, depots, i2, j2, at2) implies pair_reported(out@, vs[i2].id, vs[j2].id) by {
                                    lemma_reported_push(old_out, c, vs[i2].id, vs[j2].id);
                                }
                                assert forall|i2: int, t2: int|
                                    0 <= t2 < t && #[trigger] trains_meet(vs, depots, i2, j as int, tj@[t2]) implies pair_reported(out@, vs[i2].id, vs[j as int].id) by {
                                    lemma_reported_push(old_out, c, vs[i2].id, vs[j as int].id);
                                }
                                assert forall|i2: int| 0 <= i2 <= i && #[trigger] trains_meet(vs, depots, i2, j as int, at) implies pair_reported(out@, vs[i2].id, vs[j as int].id) by {
                                    if i2 < i {
                                        lemma_reported_push(old_out, c, vs[i2].id, vs[j as int].id);
                                    }
                                }
                            }
                        }
                    }
                    i = i + 1;
                }
            }
            t = t + 1;
        }
        proof {
            assert forall|i: int, j2: int, at2: TileCoord|
                j2 < j + 1 && #[trigger] trains_meet(vs, depots, i, j2, at2) implies pair_reported(out@, vs[i].id, vs[j2].id) by {
                if j2 == j {
                    let t2 = choose|t2: int| 0 <= t2 < tj@.len() && tj@[t2] == at2;
                    assert(trains_meet(vs, depots, i, j as int, tj@[t2]));
                }
            }
        }
        j = j + 1;
    }
    out
}

/// Vehicle `id` belongs to the consist of one of the colliding trains.
pub open spec fn doomed(vs: Seq<Vehicle>, cs: Seq<TrainCollision>, id: u32) -> bool {
    exists|k: int|
        0 <= k < cs.len() && (spec_consist_unit_ids(vs, (#[trigger] cs[k]).a).contains(id)
            || spec_consist_unit_ids(vs, cs[k].b).contains(id))
}

/// The first `k` vehicles of `vs` that are not doomed, in order.
pub open spec fn survivors_upto(vs: Seq<Vehicle>, cs: Seq<TrainCollision>, k: int) -> Seq<Vehicle>
    decreases k,
{
    if k <= 0 {
        seq![]
    } else {
        let p = survivors_upto(vs, cs, k - 1);
        if doomed(vs, cs, vs[k - 1].id) { p } else { p.push(vs[k - 1]) }
    }
}

pub open spec fn survivors(vs: Seq<Vehicle>, cs: Seq<TrainCollision>) -> Seq<Vehicle> {
    survivors_upto(vs, cs, vs.len() as int)
}

fn ids_contain(ids: &Vec<u32>, id: u32) -> (r: bool)
    ensures
        r == ids@.contains(id),
{
    let mut k: usize = 0;
    while k < ids.len()
        invariant
            k <= ids@.len(),
            forall|j: int| 0 <= j < k ==> ids@[j] != id,
        decreases ids@.len() - k,
    {
        if ids[k] == id {
            assert(ids@[k as int] == id);
            return true;
        }
        k = k + 1;
    }
    false
}

/// Ids of the units of the consists of one side of every collision.
fn victim_lists(vehicles: &Vec<Vehicle>, cs: &Vec<TrainCollision>, first: bool) -> (r: Vec<Vec<u32>>)
    ensures
        r@.len() == cs@.len(),
        forall|k: int| 0 <= k < cs@.len() ==> (#[trigger] r@[k])@ == spec_consist_unit_ids(
            vehicles@,
            if first { cs@[k].a } else { cs@[k].b },
        ),
{
    let mut r: Vec<Vec<u32>> = Vec::new();
    let mut k: usize = 0;
    while k < cs.len()
        invariant
            k <= cs@.len(),
            r@.len() == k,
            forall|m: int| 0 <= m < k ==> (#[trigger] r@[m])@ == spec_consist_unit_ids(
                vehicles@,
                if first { cs@[m].a } else { cs@[m].b },
            ),
        decreases cs@.len() - k,
    {
        let c = cs[k];
        r.push(consist_unit_ids(vehicles, if first { c.a } else { c.b }));
        k = k + 1;
    }
    r
}

fn is_doomed(
    la: &Vec<Vec<u32>>,
    lb: &Vec<Vec<u32>>,
    id: u32,
    Ghost(vs): Ghost<Seq<Vehicle>>,
    Ghost(cs): Ghost<Seq<TrainCollision>>,
) -> (r: bool)
    requires
        la@.len() == cs.len(),
        lb@.len() == cs.len(),
        forall|k: int| 0 <= k < cs.len() ==> (#[trigger] la@[k])@ == spec_consist_unit_ids(vs, cs[k].a),
        forall|k: int| 0 <= k < cs.len() ==> (#[trigger] lb@[k])@ == spec_consist_unit_ids(vs, cs[k].b),
    ensures
        r == doomed(vs, cs, id),
{
    let mut k: usize = 0;
    while k < la.len()
        invariant
            k <= cs.len(),
            la@.len() == cs.len(),
            lb@.len() == cs.len(),
            forall|m: int| 0 <= m < cs.len() ==> (#[trigger] la@[m])@ == spec_consist_unit_ids(vs, cs[m].a),
            forall|m: int| 0 <= m < cs.len() ==> (#[trigger] lb@[m])@ == spec_consist_unit_ids(vs, cs[m].b),
            forall|m: int| 0 <= m < k ==> !(spec_consist_unit_ids(vs, (#[trigger] cs[m]).a).contains(id)
                || spec_consist_unit_ids(vs, cs[m].b).contains(id)),
        decreases cs.len() - k,
    {
        assert(la@[k as int]@ == spec_consist_unit_ids(vs, cs[k as int].a));
        assert(lb@[k as int]@ == spec_consist_unit_ids(vs, cs[k as int].b));
        if ids_contain(&la[k], id) || ids_contain(&lb[k], id) {
            assert(spec_consist_unit_ids(vs, cs[k as int].a).contains(id) || spec_consist_unit_ids(vs, cs[k as int].b).contains(id));
            return true;
        }
        k = k + 1;
    }
    false
}

/// Destroys the trains that collide: every unit of both consists of each
/// collision leaves the fleet. Returns the collisions, for the crash event
/// and news that the caller raises.
pub fn resolve_train_collisions(depot_tiles: &Vec<TileCoord>, vehicles: &mut Vec<Vehicle>) -> (r: Vec<TrainCollision>)
    ensures
        forall|k: int| 0 <= k < r@.len() ==> collision_witnessed(old(vehicles)@, depot_tiles@, #[trigger] r@[k]),
        forall|k1: int, k2: int|
            0 <= k1 < k2 < r@.len() ==> !same_pair(#[trigger] r@[k1], #[trigger] r@[k2].a, r@[k2].b),
        forall|i: int, j: int, at: TileCoord|
            #[trigger] trains_meet(old(vehicles)@, depot_tiles@, i, j, at) ==> pair_reported(r@, old(vehicles)@[i].id, old(vehicles)@[j].id),
        final(vehicles)@ == survivors(old(vehicles)@, r@),
{
    let collisions = detect_train_collisions(depot_tiles, vehicles);
    if collisions.len() == 0 {
        proof {
            lemma_no_collision_keeps_all(vehicles@, collisions@, vehicles@.len() as int);
            assert(vehicles@.take(vehicles@.len() as int) =~= vehicles@);
        }
        return collisions;
    }
    let la = victim_lists(vehicles, &collisions, true);
    let lb = victim_lists(vehicles, &collisions, false);
    let ghost vs = vehicles@;
    let ghost cs = collisions@;
    let mut i: usize = 0;
    let ghost mut scanned: int = 0;
    while i < vehicles.len()
        invariant
            0 <= scanned <= vs.len(),
            la@.len() == cs.len(),
            lb@.len() == cs.len(),
            forall|k: int| 0 <= k < cs.len() ==> (#[trigger] la@[k])@ == spec_consist_unit_ids(vs, cs[k].a),
            forall|k: int| 0 <= k < cs.len() ==> (#[trigger] lb@[k])@ == spec_consist_unit_ids(vs, cs[k].b),
            i == survivors_upto(vs, cs, scanned).len(),
            vehicles@ == survivors_upto(vs, cs, scanned) + vs.subrange(scanned, vs.len() as int),
        decreases vs.len() - scanned,
    {
        let ghost before = vehicles@;
        assert(before[i as int] == vs[scanned]);
        let id = vehicles[i].id;
        if is_doomed(&la, &lb, id, Ghost(vs), Ghost(cs)) {
            vehicles.remove(i);
            proof {
                assert(vehicles@ =~= survivors_upto(vs, cs, scanned + 1) + vs.subrange(scanned + 1, vs.len() as int));
            }
        } else {
            i = i + 1;
            proof {
                assert(vehicles@ =~= survivors_upto(vs, cs, scanned + 1) + vs.subrange(scanned + 1, vs.len() as int));
            }
        }
        proof {
            scanned = scanned + 1;
        }
    }
    proof {
        assert(scanned == vs.len());
        assert(vehicles@ =~= survivors_upto(vs, cs, scanned));
    }
    collisions
}

/// With no collision nothing is doomed, and every vehicle survives.
proof fn lemma_no_collision_keeps_all(vs: Seq<Vehicle>, cs: Seq<TrainCollision>, k: int)
    requires
        cs.len() == 0,
        0 <= k <= vs.len(),
    ensures
        survivors_upto(vs, cs, k) == vs.take(k),
    decreases k,
{
    if k > 0 {
        lemma_no_collision_keeps_all(vs, cs, k - 1);
        assert(vs.take(k) =~= vs.take(k - 1).push(vs[k - 1]));
    }
}

/// Resolving collisions removes exactly the crashed consists: no unit of a
/// colliding train is left, every other vehicle stays, and every survivor
/// was in the fleet before.
pub proof fn lemma_survivors_are_exactly_the_spared(vs: Seq<Vehicle>, cs: Seq<TrainCollision>, k: int)
    requires
        0 <= k <= vs.len(),
    ensures
        forall|m: int| 0 <= m < survivors_upto(vs, cs, k).len() ==> !doomed(vs, cs, (#[trigger] survivors_upto(vs, cs, k)[m]).id),
        forall|i: int| 0 <= i < k && !doomed(vs, cs, (#[trigger] vs[i]).id) ==> survivors_upto(vs, cs, k).contains(vs[i]),
        forall|m: int| 0 <= m < survivors_upto(vs, cs, k).len() ==> vs.contains(#[trigger] survivors_upto(vs, cs, k)[m]),
        survivors_upto(vs, cs, k).len() <= k,
    decreases k,
{
    if k > 0 {
        lemma_survivors_are_exactly_the_spared(vs, cs, k - 1);
        let p = survivors_upto(vs, cs, k - 1);
        let q = survivors_upto(vs, cs, k);
        assert forall|m: int| 0 <= m < q.len() implies vs.contains(#[trigger] q[m]) by {
            if m < p.len() {
                assert(q[m] == p[m]);
                assert(vs.contains(p[m]));
            } else {
                assert(vs[k - 1] == q[m]);
            }
        }
        assert forall|i: int| 0 <= i < k && !doomed(vs, cs, (#[trigger] vs[i]).id) implies q.contains(vs[i]) by {
            if i < k - 1 {
                assert(p.contains(vs[i]));
                let w = choose|w: int| 0 <= w < p.len() && #[trigger] p[w] == vs[i];
                assert(q[w] == vs[i]);
            } else {
                assert(q[q.len() - 1] == vs[i]);
            }
        }
    }
}

} // verus!
