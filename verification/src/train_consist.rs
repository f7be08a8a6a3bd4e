//! Train consists: a head unit and the chain of units behind it, linked by
//! `next_unit` / `prev_unit` ids. Lengths are in eighths of a tile per unit
//! (`VEHICLE_LENGTH`), 256 fractions to a tile.

use vstd::prelude::*;
use crate::common::{CargoType, TileCoord};
use crate::engine::spec_engine_for_vehicle;
use crate::vehicle::{spec_vehicle_engine_id, Vehicle, VEHICLE_CAPACITY};

verus! {

/// Length of one train unit in tile fractions (`VEHICLE_LENGTH`).
pub const VEHICLE_LENGTH: u8 = 8;
/// Tile fractions per tile.
pub const TILE_FRACTIONS: u16 = 256;
/// Longest chain walked before giving up (guards against broken links).
pub const CHAIN_WALK_LIMIT: u32 = 257;

/// Cargo class bits reported in NewGRF variable `47`.
pub open spec fn spec_cargo_class_bits(cargo: Option<CargoType>) -> u16 {
    match cargo {
        Some(CargoType::Passengers) => 0x0001,
        Some(CargoType::Mail) => 0x0002,
        Some(CargoType::Goods) | Some(CargoType::Valuables) | Some(CargoType::Candy) | Some(CargoType::Food) => 0x0020,
        Some(CargoType::Oil) | Some(CargoType::Water) | Some(CargoType::Rubber) | Some(CargoType::Cola)
        | Some(CargoType::Plastic) => 0x0040,
        Some(_) => 0x0010,
        None => 0,
    }
}

pub fn cargo_class_bits(cargo: Option<CargoType>) -> (r: u16)
    ensures
        r == spec_cargo_class_bits(cargo),
{
    match cargo {
        Some(CargoType::Passengers) => 0x0001,
        Some(CargoType::Mail) => 0x0002,
        Some(CargoType::Goods) | Some(CargoType::Valuables) | Some(CargoType::Candy) | Some(CargoType::Food) => 0x0020,
        Some(CargoType::Oil) | Some(CargoType::Water) | Some(CargoType::Rubber) | Some(CargoType::Cola)
        | Some(CargoType::Plastic) => 0x0040,
        Some(_) => 0x0010,
        None => 0,
    }
}

/// Weight of one cargo unit in sixteenths of a tonne (defaults without a cargo table).
pub open spec fn spec_cargo_unit_weight_16ths(cargo: Option<CargoType>) -> u8 {
    match cargo {
        Some(CargoType::Passengers) => 1,
        Some(CargoType::Mail) | Some(CargoType::Valuables) | Some(CargoType::Batteries) | Some(CargoType::Toys)
        | Some(CargoType::FizzyDrinks) => 4,
        Some(CargoType::Goods) | Some(CargoType::Livestock) | Some(CargoType::Candy) | Some(CargoType::Bubbles)
        | Some(CargoType::Gold) | Some(CargoType::Diamonds) => 8,
        Some(_) => 16,
        None => 0,
    }
}

pub fn cargo_unit_weight_16ths(cargo: Option<CargoType>) -> (r: u8)
    ensures
        r == spec_cargo_unit_weight_16ths(cargo),
{
    match cargo {
        Some(CargoType::Passengers) => 1,
        Some(CargoType::Mail) | Some(CargoType::Valuables) | Some(CargoType::Batteries) | Some(CargoType::Toys)
        | Some(CargoType::FizzyDrinks) => 4,
        Some(CargoType::Goods) | Some(CargoType::Livestock) | Some(CargoType::Candy) | Some(CargoType::Bubbles)
        | Some(CargoType::Gold) | Some(CargoType::Diamonds) => 8,
        Some(_) => 16,
        None => 0,
    }
}

/// Weight in whole tonnes of `cargo` units (`CargoSpec::WeightOfNUnits`), saturating.
pub fn cargo_weight_t(cargo: u32, cargo_type: Option<CargoType>) -> (r: u16)
    ensures
        r == if cargo * spec_cargo_unit_weight_16ths(cargo_type) / 16 > u16::MAX {
            u16::MAX as int
        } else {
            cargo * spec_cargo_unit_weight_16ths(cargo_type) / 16
        },
{
    let w = cargo_unit_weight_16ths(cargo_type) as u64;
    assert(cargo as u64 * w <= u32::MAX as u64 * 16) by (nonlinear_arith)
        requires
            w <= 16,
    ;
    let sixteenths: u64 = cargo as u64 * w;
    let t = sixteenths / 16;
    if t > u16::MAX as u64 {
        u16::MAX
    } else {
        t as u16
    }
}

// ---------------------------------------------------------------------------
// Finding units and walking chains
// ---------------------------------------------------------------------------

/// Index of the first of the first `k` vehicles with `id`.
pub open spec fn find_upto(vs: Seq<Vehicle>, id: u32, k: int) -> Option<int>
    decreases k,
{
    if k <= 0 {
        None
    } else {
        match find_upto(vs, id, k - 1) {
            Some(i) => Some(i),
            None => if vs[k - 1].id == id { Some(k - 1) } else { None },
        }
    }
}

/// Index of the first vehicle with `id`.
pub open spec fn find_vehicle(vs: Seq<Vehicle>, id: u32) -> Option<int> {
    find_upto(vs, id, vs.len() as int)
}

pub proof fn lemma_find_upto(vs: Seq<Vehicle>, id: u32, k: int)
    requires
        0 <= k <= vs.len(),
    ensures
        find_upto(vs, id, k) matches Some(i) ==> 0 <= i < k && vs[i].id == id && forall|j: int| 0 <= j < i ==> vs[j].id != id,
        find_upto(vs, id, k) is None ==> forall|j: int| 0 <= j < k ==> vs[j].id != id,
    decreases k,
{
    if k > 0 {
        lemma_find_upto(vs, id, k - 1);
    }
}

/// Position of the first vehicle with `id`.
pub fn find_vehicle_index(vehicles: &Vec<Vehicle>, id: u32) -> (r: Option<usize>)
    ensures
        match r {
            Some(k) => find_vehicle(vehicles@, id) == Some(k as int) && k < vehicles@.len() && vehicles@[k as int].id == id,
            None => find_vehicle(vehicles@, id) is None,
        },
{
    proof {
        lemma_find_upto(vehicles@, id, vehicles@.len() as int);
    }
    let mut k: usize = 0;
    while k < vehicles.len()
        invariant
            k <= vehicles@.len(),
            find_upto(vehicles@, id, k as int) is None,
        decreases vehicles@.len() - k,
    {
        if vehicles[k].id == id {
            proof {
                assert(find_upto(vehicles@, id, (k + 1) as int) == Some(k as int));
                lemma_find_stable(vehicles@, id, (k + 1) as int, vehicles@.len() as int);
            }
            return Some(k);
        }
        k = k + 1;
    }
    None
}

/// A hit among the first `k` vehicles stays the first hit among more.
pub proof fn lemma_find_stable(vs: Seq<Vehicle>, id: u32, k: int, n: int)
    requires
        0 <= k <= n,
        find_upto(vs, id, k) is Some,
    ensures
        find_upto(vs, id, n) == find_upto(vs, id, k),
    decreases n - k,
{
    if k < n {
        lemma_find_stable(vs, id, k, n - 1);
    }
}

/// The unit behind `id`, if `id` is a known vehicle.
pub open spec fn next_of(vs: Seq<Vehicle>, id: u32) -> Option<u32> {
    match find_vehicle(vs, id) {
        Some(i) => vs[i].next_unit,
        None => None,
    }
}

/// Ids from `cur` following `next_unit`, at most `fuel` of them; an unknown
/// id is listed and ends the walk.
pub open spec fn chain_from(vs: Seq<Vehicle>, cur: Option<u32>, fuel: nat) -> Seq<u32>
    decreases fuel,
{
    if fuel == 0 {
        seq![]
    } else {
        match cur {
            None => seq![],
            Some(id) => seq![id] + chain_from(vs, next_of(vs, id), (fuel - 1) as nat),
        }
    }
}

/// The units of the consist headed by `head_id`, head first.
pub open spec fn spec_consist_unit_ids(vs: Seq<Vehicle>, head_id: u32) -> Seq<u32> {
    chain_from(vs, Some(head_id), CHAIN_WALK_LIMIT as nat)
}

/// Ids of the consist from `head_id` backwards along `next_unit` (at most
/// 257, which stops a walk round a broken, circular chain).
pub fn consist_unit_ids(vehicles: &Vec<Vehicle>, head_id: u32) -> (r: Vec<u32>)
    ensures
        r@ == spec_consist_unit_ids(vehicles@, head_id),
{
    let mut out: Vec<u32> = Vec::new();
    let mut cur: Option<u32> = Some(head_id);
    let mut guard: u32 = 0;
    while guard < CHAIN_WALK_LIMIT
        invariant
            guard <= CHAIN_WALK_LIMIT,
            spec_consist_unit_ids(vehicles@, head_id) == out@ + chain_from(vehicles@, cur, (CHAIN_WALK_LIMIT - guard) as nat),
        decreases CHAIN_WALK_LIMIT - guard,
    {
        let id = match cur {
            None => {
                assert(out@ + seq![] =~= out@);
                return out;
            },
            Some(id) => id,
        };
        guard = guard + 1;
        out.push(id);
        cur = match find_vehicle_index(vehicles, id) {
            Some(i) => vehicles[i].next_unit,
            None => None,
        };
        proof {
            let f = (CHAIN_WALK_LIMIT - guard) as nat;
            assert(out@ + chain_from(vehicles@, cur, f) =~= out@.drop_last() + (seq![id] + chain_from(vehicles@, cur, f)));
        }
    }
    assert(out@ + seq![] =~= out@);
    out
}

/// The head reached from `cur` following `prev_unit`, within `fuel` steps;
/// `None` when a unit is unknown or the walk runs out.
pub open spec fn head_from(vs: Seq<Vehicle>, cur: u32, fuel: nat) -> Option<u32>
    decreases fuel,
{
    if fuel == 0 {
        None
    } else {
        match find_vehicle(vs, cur) {
            None => None,
            Some(i) => match vs[i].prev_unit {
                None => Some(cur),
                Some(p) => head_from(vs, p, (fuel - 1) as nat),
            },
        }
    }
}

pub open spec fn spec_consist_head_id(vs: Seq<Vehicle>, vehicle_id: u32) -> Option<u32> {
    head_from(vs, vehicle_id, CHAIN_WALK_LIMIT as nat)
}

/// Head of the consist containing `vehicle_id`.
pub fn consist_head_id(vehicles: &Vec<Vehicle>, vehicle_id: u32) -> (r: Option<u32>)
    ensures
        r == spec_consist_head_id(vehicles@, vehicle_id),
{
    let mut cur = vehicle_id;
    let mut guard: u32 = 0;
    while guard < CHAIN_WALK_LIMIT
        invariant
            guard <= CHAIN_WALK_LIMIT,
            spec_consist_head_id(vehicles@, vehicle_id) == head_from(vehicles@, cur, (CHAIN_WALK_LIMIT - guard) as nat),
        decreases CHAIN_WALK_LIMIT - guard,
    {
        guard = guard + 1;
        let i = match find_vehicle_index(vehicles, cur) {
            None => return None,
            Some(i) => i,
        };
        match vehicles[i].prev_unit {
            None => return Some(cur),
            Some(p) => {
                cur = p;
            },
        }
    }
    None
}

/// Whether two vehicles are in the same consist (by head; a vehicle with no
/// head found is only in its own).
pub fn same_consist(vehicles: &Vec<Vehicle>, vehicle_id: u32, other_id: u32) -> (r: bool)
    ensures
        r == match (spec_consist_head_id(vehicles@, vehicle_id), spec_consist_head_id(vehicles@, other_id)) {
            (Some(a), Some(b)) => a == b,
            _ => vehicle_id == other_id,
        },
{
    match (consist_head_id(vehicles, vehicle_id), consist_head_id(vehicles, other_id)) {
        (Some(a), Some(b)) => a == b,
        _ => vehicle_id == other_id,
    }
}

/// Capacity cached on the head (0 when it is unknown).
pub fn consist_capacity(vehicles: &Vec<Vehicle>, head_id: u32) -> (r: u32)
    ensures
        r == match find_vehicle(vehicles@, head_id) {
            Some(i) => vehicles@[i].capacity,
            None => 0,
        },
{
    match find_vehicle_index(vehicles, head_id) {
        Some(i) => vehicles[i].capacity,
        None => 0,
    }
}

/// Tiles the consist covers: its cached length in tiles, rounded up, at
/// least one (an unknown head counts as one unit long).
pub open spec fn spec_consist_tile_span(vs: Seq<Vehicle>, head_id: u32) -> int {
    let len: int = match find_vehicle(vs, head_id) {
        Some(i) => vs[i].cached_total_length as int,
        None => VEHICLE_LENGTH as int,
    };
    let tiles = (len + 255) / 256;
    if tiles < 1 { 1 } else { tiles }
}

pub fn consist_tile_span(vehicles: &Vec<Vehicle>, head_id: u32) -> (r: u32)
    ensures
        r == spec_consist_tile_span(vehicles@, head_id),
{
    let len: u32 = match find_vehicle_index(vehicles, head_id) {
        Some(i) => vehicles[i].cached_total_length as u32,
        None => VEHICLE_LENGTH as u32,
    };
    let tiles = (len + 255) / 256;
    if tiles < 1 { 1 } else { tiles }
}

/// Distinct tiles of the units named by the first `k` ids, in the order
/// first seen; ids of unknown vehicles are skipped.
pub open spec fn occupied_upto(vs: Seq<Vehicle>, ids: Seq<u32>, k: int) -> Seq<TileCoord>
    decreases k,
{
    if k <= 0 {
        seq![]
    } else {
        let prev = occupied_upto(vs, ids, k - 1);
        match find_vehicle(vs, ids[k - 1]) {
            Some(i) => if prev.contains(vs[i].pos) { prev } else { prev.push(vs[i].pos) },
            None => prev,
        }
    }
}

/// The vehicle `id` is known and stands on `pos`.
pub open spec fn unit_stands_on(vs: Seq<Vehicle>, id: u32, pos: TileCoord) -> bool {
    match find_vehicle(vs, id) {
        Some(i) => vs[i].pos == pos,
        None => false,
    }
}

/// Tiles on which the units of the consist stand, head first, each once.
pub open spec fn spec_consist_occupied_tiles(vs: Seq<Vehicle>, head_id: u32) -> Seq<TileCoord> {
    let ids = spec_consist_unit_ids(vs, head_id);
    occupied_upto(vs, ids, ids.len() as int)
}

/// No tile is listed twice, and every listed tile holds a unit of the chain.
pub proof fn lemma_occupied_upto(vs: Seq<Vehicle>, ids: Seq<u32>, k: int)
    requires
        0 <= k <= ids.len(),
    ensures
        occupied_upto(vs, ids, k).no_duplicates(),
        forall|t: int| 0 <= t < occupied_upto(vs, ids, k).len() ==> exists|j: int|
            #![trigger ids[j]]
            0 <= j < k && unit_stands_on(vs, ids[j], #[trigger] occupied_upto(vs, ids, k)[t]),
    decreases k,
{
    if k > 0 {
        lemma_occupied_upto(vs, ids, k - 1);
        let prev = occupied_upto(vs, ids, k - 1);
        let cur = occupied_upto(vs, ids, k);
        assert forall|t: int| 0 <= t < cur.len() implies exists|j: int|
            #![trigger ids[j]]
            0 <= j < k && unit_stands_on(vs, ids[j], #[trigger] cur[t]) by {
            if t < prev.len() {
                assert(cur[t] == prev[t]);
                let j = choose|j: int| #![trigger ids[j]] 0 <= j < k - 1 && unit_stands_on(vs, ids[j], prev[t]);
                assert(0 <= j < k && unit_stands_on(vs, ids[j], cur[t]));
            } else {
                assert(unit_stands_on(vs, ids[k - 1], cur[t]));
            }
        }
    }
}

fn tiles_contain(tiles: &Vec<TileCoord>, pos: TileCoord) -> (r: bool)
    ensures
        r == tiles@.contains(pos),
{
    let mut k: usize = 0;
    while k < tiles.len()
        invariant
            k <= tiles@.len(),
            forall|j: int| 0 <= j < k ==> tiles@[j] != pos,
        decreases tiles@.len() - k,
    {
        if tiles[k] == pos {
            assert(tiles@[k as int] == pos);
            return true;
        }
        k = k + 1;
    }
    false
}

/// Tiles occupied by the consist, from each unit's own position (not a
/// projection behind the head), head first and each tile once.
pub fn consist_occupied_tiles(vehicles: &Vec<Vehicle>, head_id: u32) -> (r: Vec<TileCoord>)
    ensures
        r@ == spec_consist_occupied_tiles(vehicles@, head_id),
        r@.no_duplicates(),
{
    let ids = consist_unit_ids(vehicles, head_id);
    let mut tiles: Vec<TileCoord> = Vec::new();
    let mut k: usize = 0;
    while k < ids.len()
        invariant
            k <= ids@.len(),
            ids@ == spec_consist_unit_ids(vehicles@, head_id),
            tiles@ == occupied_upto(vehicles@, ids@, k as int),
        decreases ids@.len() - k,
    {
        match find_vehicle_index(vehicles, ids[k]) {
            Some(i) => {
                let pos = vehicles[i].pos;
                if !tiles_contain(&tiles, pos) {
                    tiles.push(pos);
                }
            },
            None => {},
        }
        k = k + 1;
    }
    proof {
        lemma_occupied_upto(vehicles@, ids@, ids@.len() as int);
    }
    tiles
}

/// What selling `vehicle_id` sells: a head takes its whole chain, a wagon
/// only itself; nothing for an unknown id.
pub fn sell_chain_ids(vehicles: &Vec<Vehicle>, vehicle_id: u32) -> (r: Vec<u32>)
    ensures
        r@ == match find_vehicle(vehicles@, vehicle_id) {
            None => Seq::<u32>::empty(),
            Some(i) => if vehicles@[i].prev_unit is None {
                spec_consist_unit_ids(vehicles@, vehicle_id)
            } else {
                seq![vehicle_id]
            },
        },
{
    match find_vehicle_index(vehicles, vehicle_id) {
        None => Vec::new(),
        Some(i) => {
            if vehicles[i].prev_unit.is_none() {
                consist_unit_ids(vehicles, vehicle_id)
            } else {
                let mut v: Vec<u32> = Vec::new();
                v.push(vehicle_id);
                assert(v@ =~= seq![vehicle_id]);
                v
            }
        },
    }
}

// ---------------------------------------------------------------------------
// Consist caches and coupling
// ---------------------------------------------------------------------------

pub open spec fn sat_u16(v: int) -> int {
    if v > u16::MAX { u16::MAX as int } else { v }
}

pub open spec fn sat_u32(v: int) -> int {
    if v > u32::MAX { u32::MAX as int } else { v }
}

/// Length counted for a unit: its length, at least one.
pub open spec fn unit_len(v: Vehicle) -> int {
    if v.unit_length < 1 { 1 } else { v.unit_length as int }
}

/// Capacity a unit adds: that of its engine.
pub open spec fn unit_capacity(v: Vehicle) -> int {
    spec_engine_for_vehicle(v.kind, spec_vehicle_engine_id(v)).capacity as int
}

/// Saturating sum of the lengths of the known units among the first `k` ids.
pub open spec fn len_sum(vs: Seq<Vehicle>, ids: Seq<u32>, k: int) -> int
    decreases k,
{
    if k <= 0 {
        0
    } else {
        let prev = len_sum(vs, ids, k - 1);
        match find_vehicle(vs, ids[k - 1]) {
            Some(i) => sat_u16(prev + unit_len(vs[i])),
            None => prev,
        }
    }
}

/// Saturating sum of the capacities of the known units among the first `k` ids.
pub open spec fn cap_sum(vs: Seq<Vehicle>, ids: Seq<u32>, k: int) -> int
    decreases k,
{
    if k <= 0 {
        0
    } else {
        let prev = cap_sum(vs, ids, k - 1);
        match find_vehicle(vs, ids[k - 1]) {
            Some(i) => sat_u32(prev + unit_capacity(vs[i])),
            None => prev,
        }
    }
}

proof fn lemma_sums_bounded(vs: Seq<Vehicle>, ids: Seq<u32>, k: int)
    ensures
        0 <= len_sum(vs, ids, k) <= u16::MAX,
        0 <= cap_sum(vs, ids, k) <= u32::MAX,
    decreases k,
{
    if k > 0 {
        lemma_sums_bounded(vs, ids, k - 1);
    }
}

/// Vehicle `j` is the unit found for one of the followers `ids[1..k]`.
pub open spec fn is_follower_slot(vs: Seq<Vehicle>, ids: Seq<u32>, k: int, j: int) -> bool {
    exists|m: int| 1 <= m < k && #[trigger] find_vehicle(vs, ids[m]) == Some(j)
}

/// The units and their links, engines and lengths are untouched.
pub open spec fn topology_kept(before: Vehicle, after: Vehicle) -> bool {
    &&& after.id == before.id
    &&& after.kind == before.kind
    &&& after.engine_id == before.engine_id
    &&& after.next_unit == before.next_unit
    &&& after.prev_unit == before.prev_unit
    &&& after.unit_length == before.unit_length
}

/// Follower `after` stands where head `h` stands and has no route or orders.
pub open spec fn follows_head(h: Vehicle, after: Vehicle) -> bool {
    &&& after.pos == h.pos
    &&& after.direction == h.direction
    &&& after.running == h.running
    &&& after.progress == h.progress
    &&& after.path@.len() == 0
    &&& after.orders@.len() == 0
    &&& after.current_order == 0
}

/// Position, route and orders are as they were.
pub open spec fn motion_kept(before: Vehicle, after: Vehicle) -> bool {
    &&& after.pos == before.pos
    &&& after.direction == before.direction
    &&& after.running == before.running
    &&& after.progress == before.progress
    &&& after.path@ == before.path@
    &&& after.orders@ == before.orders@
    &&& after.current_order == before.current_order
}

/// What `consist_changed` does to a fleet `before` for the consist of `head_id`.
#[verifier::opaque]
pub open spec fn consist_refreshed(before: Seq<Vehicle>, after: Seq<Vehicle>, head_id: u32) -> bool {
    let ids = spec_consist_unit_ids(before, head_id);
    let n = ids.len() as int;
    let total_len = len_sum(before, ids, n);
    let total_cap = if cap_sum(before, ids, n) == 0 { VEHICLE_CAPACITY as int } else { cap_sum(before, ids, n) };
    &&& after.len() == before.len()
    &&& forall|j: int| 0 <= j < before.len() ==> topology_kept(#[trigger] before[j], after[j])
    &&& match find_vehicle(before, head_id) {
        None => forall|j: int| 0 <= j < before.len() ==> {
            &&& #[trigger] after[j].cached_total_length == before[j].cached_total_length
            &&& after[j].capacity == before[j].capacity
            &&& motion_kept(before[j], after[j])
        },
        Some(h) => {
            &&& after[h].cached_total_length == if total_len < VEHICLE_LENGTH { VEHICLE_LENGTH as int } else { total_len }
            &&& after[h].capacity == total_cap
            &&& forall|j: int| 0 <= j < before.len() && j != h ==> {
                &&& #[trigger] after[j].cached_total_length == before[j].cached_total_length
                &&& after[j].capacity == before[j].capacity
            }
            &&& forall|j: int| 0 <= j < before.len() ==> if is_follower_slot(before, ids, n, j) {
                follows_head(before[h], #[trigger] after[j])
            } else {
                motion_kept(before[j], after[j])
            }
        },
    }
}

/// Refreshes the head's cached length (units of at least one, the total at
/// least one unit) and capacity (the engines' capacities, or the default
/// capacity when none has any), and puts every follower where the head is,
/// without route or orders.
pub fn consist_changed(vehicles: &mut Vec<Vehicle>, head_id: u32)
    ensures
        consist_refreshed(old(vehicles)@, final(vehicles)@, head_id),
{
    let ghost v0 = vehicles@;
    let ids = consist_unit_ids(vehicles, head_id);
    let ghost n = ids@.len() as int;
    let mut total_len: u16 = 0;
    let mut total_cap: u32 = 0;
    let mut k: usize = 0;
    while k < ids.len()
        invariant
            k <= ids@.len(),
            vehicles@ == v0,
            total_len == len_sum(v0, ids@, k as int),
            total_cap == cap_sum(v0, ids@, k as int),
        decreases ids@.len() - k,
    {
        match find_vehicle_index(vehicles, ids[k]) {
            Some(i) => {
                let ul: u16 = if vehicles[i].unit_length < 1 { 1 } else { vehicles[i].unit_length as u16 };
                total_len = total_len.saturating_add(ul);
                let eng = vehicles[i].effective_engine();
                total_cap = total_cap.saturating_add(eng.capacity);
            },
            None => {},
        }
        k = k + 1;
    }
    if total_cap == 0 {
        total_cap = VEHICLE_CAPACITY;
    }
    let h = match find_vehicle_index(vehicles, head_id) {
        Some(h) => h,
        None => {
            assert(consist_refreshed(v0, vehicles@, head_id)) by {
                reveal(consist_refreshed);
            }
            return;
        },
    };
    let new_len: u16 = if total_len < VEHICLE_LENGTH as u16 { VEHICLE_LENGTH as u16 } else { total_len };
    vehicles[h].cached_total_length = new_len;
    vehicles[h].capacity = total_cap;
    let hpos = vehicles[h].pos;
    let hdir = vehicles[h].direction;
    let hrun = vehicles[h].running;
    let hprog = vehicles[h].progress;
    let ghost v1 = vehicles@;
    proof {
        assert forall|id: u32| find_vehicle(v1, id) == find_vehicle(v0, id) by {
            lemma_find_same_ids(v0, v1, id, v0.len() as int);
        }
    }
    let mut k: usize = 1;
    while k < ids.len()
        invariant
            1 <= k <= ids@.len() || (k == 1 && ids@.len() == 0),
            n == ids@.len(),
            ids@ == spec_consist_unit_ids(v0, head_id),
            vehicles@.len() == v0.len(),
            h < v0.len(),
            find_vehicle(v0, head_id) == Some(h as int),
            hpos == v0[h as int].pos,
            hdir == v0[h as int].direction,
            hrun == v0[h as int].running,
            hprog == v0[h as int].progress,
            forall|id: u32| find_vehicle(v1, id) == find_vehicle(v0, id),
            forall|j: int| 0 <= j < v0.len() ==> topology_kept(#[trigger] v0[j], vehicles@[j]),
            forall|j: int| 0 <= j < v0.len() ==> {
                &&& #[trigger] vehicles@[j].cached_total_length == v1[j].cached_total_length
                &&& vehicles@[j].capacity == v1[j].capacity
            },
            forall|j: int| 0 <= j < v0.len() ==> if is_follower_slot(v0, ids@, k as int, j) {
                follows_head(v0[h as int], #[trigger] vehicles@[j])
            } else {
                motion_kept(v0[j], vehicles@[j])
            },
        decreases ids@.len() - k,
    {
        proof {
            assert forall|id: u32| find_vehicle(vehicles@, id) == find_vehicle(v0, id) by {
                lemma_find_same_ids(v0, vehicles@, id, v0.len() as int);
            }
        }
        let ghost before = vehicles@;
        match find_vehicle_index(vehicles, ids[k]) {
            Some(j) => {
                vehicles[j].pos = hpos;
                vehicles[j].direction = hdir;
                vehicles[j].running = hrun;
                vehicles[j].progress = hprog;
                vehicles[j].path = Vec::new();
                vehicles[j].orders = Vec::new();
                vehicles[j].current_order = 0;
                proof {
                    assert forall|jj: int| 0 <= jj < v0.len() implies (if is_follower_slot(v0, ids@, k + 1, jj) {
                        follows_head(v0[h as int], #[trigger] vehicles@[jj])
                    } else {
                        motion_kept(v0[jj], vehicles@[jj])
                    }) by {
                        if jj == j {
                            assert(find_vehicle(v0, ids@[k as int]) == Some(jj));
                            assert(is_follower_slot(v0, ids@, k + 1, jj));
                        } else {
                            assert(vehicles@[jj] == before[jj]);
                            if is_follower_slot(v0, ids@, k + 1, jj) {
                                let m = choose|m: int| 1 <= m < k + 1 && #[trigger] find_vehicle(v0, ids@[m]) == Some(jj);
                                assert(m != k);
                                assert(is_follower_slot(v0, ids@, k as int, jj));
                            } else {
                                assert(!is_follower_slot(v0, ids@, k as int, jj));
                            }
                        }
                    }
                }
            },
            None => {
                proof {
                    assert forall|jj: int| 0 <= jj < v0.len() implies (is_follower_slot(v0, ids@, k + 1, jj)
                        == is_follower_slot(v0, ids@, k as int, jj)) by {
                        if is_follower_slot(v0, ids@, k + 1, jj) {
                            let m = choose|m: int| 1 <= m < k + 1 && #[trigger] find_vehicle(v0, ids@[m]) == Some(jj);
                            assert(m != k);
                        }
                    }
                }
            },
        }
        k = k + 1;
    }
    proof {
        assert(v1.len() == v0.len());
        assert(v1[h as int].cached_total_length == new_len);
        assert(v1[h as int].capacity == total_cap);
        assert forall|j: int| 0 <= j < v0.len() && j != h implies {
            &&& #[trigger] vehicles@[j].cached_total_length == v0[j].cached_total_length
            &&& vehicles@[j].capacity == v0[j].capacity
        } by {
            assert(v1[j] == v0[j]);
        }
        assert(ids@.len() >= 1);
        assert(k == ids@.len());
        assert forall|j: int| 0 <= j < v0.len() implies (if is_follower_slot(v0, ids@, n, j) {
            follows_head(v0[h as int], #[trigger] vehicles@[j])
        } else {
            motion_kept(v0[j], vehicles@[j])
        }) by {}
        let ids2 = spec_consist_unit_ids(v0, head_id);
        assert(ids2 == ids@);
        let after = vehicles@;
        let total_len2 = len_sum(v0, ids2, ids2.len() as int);
        assert(total_len2 == total_len);
        let total_cap2 = if cap_sum(v0, ids2, ids2.len() as int) == 0 { VEHICLE_CAPACITY as int } else { cap_sum(v0, ids2, ids2.len() as int) };
        assert(total_cap2 == total_cap);
        assert(after[h as int].cached_total_length == if total_len2 < VEHICLE_LENGTH { VEHICLE_LENGTH as int } else { total_len2 });
        assert(after[h as int].capacity == total_cap2);
        assert(forall|j: int| 0 <= j < v0.len() ==> if is_follower_slot(v0, ids2, ids2.len() as int, j) {
                follows_head(v0[h as int], #[trigger] after[j])
            } else {
                motion_kept(v0[j], after[j])
            });
        assert(consist_refreshed(v0, vehicles@, head_id)) by {
            reveal(consist_refreshed);
        }
    }
}

/// Finding by id only depends on the ids.
pub proof fn lemma_find_same_ids(a: Seq<Vehicle>, b: Seq<Vehicle>, id: u32, k: int)
    requires
        a.len() == b.len(),
        0 <= k <= a.len(),
        forall|j: int| 0 <= j < a.len() ==> #[trigger] a[j].id == b[j].id,
    ensures
        find_upto(a, id, k) == find_upto(b, id, k),
    decreases k,
{
    if k > 0 {
        lemma_find_same_ids(a, b, id, k - 1);
    }
}

/// Index of the vehicle that `id` names, if any, as an option of index.
pub open spec fn index_of_opt(vs: Seq<Vehicle>, id: Option<u32>) -> Option<int> {
    match id {
        Some(x) => find_vehicle(vs, x),
        None => None,
    }
}

/// Fields that coupling leaves alone.
pub open spec fn coupling_kept(before: Vehicle, after: Vehicle) -> bool {
    &&& after.id == before.id
    &&& after.kind == before.kind
    &&& after.engine_id == before.engine_id
    &&& after.unit_length == before.unit_length
    &&& after.cached_total_length == before.cached_total_length
    &&& after.capacity == before.capacity
    &&& after.pos == before.pos
    &&& after.direction == before.direction
    &&& after.running == before.running
    &&& after.progress == before.progress
}

/// `mid` is `before` with `wagon` hooked behind `tail`: the unit behind the
/// wagon loses its link back, the wagon points back at the tail, has nothing
/// behind it and drops its route and orders, and the tail points at it.
pub open spec fn wagon_hooked(before: Seq<Vehicle>, mid: Seq<Vehicle>, wagon: u32, tail: u32) -> bool {
    let nj = index_of_opt(before, next_of(before, wagon));
    let wi = find_vehicle(before, wagon);
    let ti = find_vehicle(before, tail);
    &&& mid.len() == before.len()
    &&& forall|j: int| 0 <= j < before.len() ==> {
        &&& coupling_kept(before[j], #[trigger] mid[j])
        &&& mid[j].prev_unit == if wi == Some(j) { Some(tail) } else if nj == Some(j) { None } else { before[j].prev_unit }
        &&& mid[j].next_unit == if ti == Some(j) { Some(wagon) } else if wi == Some(j) { None } else { before[j].next_unit }
        &&& if wi == Some(j) {
            mid[j].orders@.len() == 0 && mid[j].path@.len() == 0 && mid[j].current_order == 0
        } else {
            mid[j].orders@ == before[j].orders@ && mid[j].path@ == before[j].path@ && mid[j].current_order == before[j].current_order
        }
    }
}

/// Why `attach_wagon` refuses: the same unit, a wagon that is the middle of
/// another chain, or a wagon already in the consist.
pub open spec fn attach_refused(vs: Seq<Vehicle>, head_id: u32, wagon_id: u32) -> bool {
    ||| head_id == wagon_id
    ||| (spec_consist_head_id(vs, wagon_id) != Some(wagon_id) && match find_vehicle(vs, wagon_id) {
        Some(i) => vs[i].prev_unit is Some,
        None => false,
    })
    ||| spec_consist_unit_ids(vs, head_id).contains(wagon_id)
}

/// The tail of the consist of `head_id` when `wagon_id` may be attached.
fn attach_tail(vehicles: &Vec<Vehicle>, head_id: u32, wagon_id: u32) -> (r: Option<u32>)
    ensures
        r is None <==> attach_refused(vehicles@, head_id, wagon_id),
        r matches Some(t) ==> t == spec_consist_unit_ids(vehicles@, head_id).last(),
{
    if head_id == wagon_id {
        return None;
    }
    if consist_head_id(vehicles, wagon_id) != Some(wagon_id) {
        match find_vehicle_index(vehicles, wagon_id) {
            Some(i) => {
                if vehicles[i].prev_unit.is_some() {
                    return None;
                }
            },
            None => {},
        }
    }
    let ids = consist_unit_ids(vehicles, head_id);
    proof {
        reveal_with_fuel(chain_from, 2);
    }
    assert(ids@.len() >= 1);
    let mut k: usize = 0;
    while k < ids.len()
        invariant
            k <= ids@.len(),
            ids@ == spec_consist_unit_ids(vehicles@, head_id),
            forall|m: int| 0 <= m < k ==> ids@[m] != wagon_id,
        decreases ids@.len() - k,
    {
        if ids[k] == wagon_id {
            assert(ids@[k as int] == wagon_id);
            assert(ids@.contains(wagon_id));
            return None;
        }
        k = k + 1;
    }
    Some(ids[ids.len() - 1])
}

fn set_prev_unit(vehicles: &mut Vec<Vehicle>, j: usize, p: Option<u32>)
    requires
        j < old(vehicles)@.len(),
    ensures
        final(vehicles)@.len() == old(vehicles)@.len(),
        forall|k: int| 0 <= k < old(vehicles)@.len() && k != j ==> #[trigger] final(vehicles)@[k] == old(vehicles)@[k],
        unit_fields_kept(old(vehicles)@[j as int], final(vehicles)@[j as int]),
        final(vehicles)@[j as int].prev_unit == p,
        final(vehicles)@[j as int].next_unit == old(vehicles)@[j as int].next_unit,
        final(vehicles)@[j as int].cached_total_length == old(vehicles)@[j as int].cached_total_length,
{
    vehicles[j].prev_unit = p;
}

fn set_next_unit(vehicles: &mut Vec<Vehicle>, j: usize, n: Option<u32>)
    requires
        j < old(vehicles)@.len(),
    ensures
        final(vehicles)@.len() == old(vehicles)@.len(),
        forall|k: int| 0 <= k < old(vehicles)@.len() && k != j ==> #[trigger] final(vehicles)@[k] == old(vehicles)@[k],
        unit_fields_kept(old(vehicles)@[j as int], final(vehicles)@[j as int]),
        final(vehicles)@[j as int].next_unit == n,
        final(vehicles)@[j as int].prev_unit == old(vehicles)@[j as int].prev_unit,
        final(vehicles)@[j as int].cached_total_length == old(vehicles)@[j as int].cached_total_length,
{
    vehicles[j].next_unit = n;
}

/// The wagon's own part of hooking: nothing behind, `tail` in front, no
/// route or orders.
fn hook_wagon_unit(vehicles: &mut Vec<Vehicle>, w: usize, tail_id: u32)
    requires
        w < old(vehicles)@.len(),
    ensures
        final(vehicles)@.len() == old(vehicles)@.len(),
        forall|j: int| 0 <= j < old(vehicles)@.len() && j != w ==> #[trigger] final(vehicles)@[j] == old(vehicles)@[j],
        coupling_kept(old(vehicles)@[w as int], final(vehicles)@[w as int]),
        final(vehicles)@[w as int].next_unit is None,
        final(vehicles)@[w as int].prev_unit == Some(tail_id),
        final(vehicles)@[w as int].orders@.len() == 0,
        final(vehicles)@[w as int].path@.len() == 0,
        final(vehicles)@[w as int].current_order == 0,
{
    vehicles[w].next_unit = None;
    vehicles[w].prev_unit = Some(tail_id);
    vehicles[w].orders = Vec::new();
    vehicles[w].current_order = 0;
    vehicles[w].path = Vec::new();
}

/// Relinks the fleet so that `wagon_id` hangs behind `tail_id`.
fn hook_wagon(vehicles: &mut Vec<Vehicle>, wagon_id: u32, tail_id: u32)
    ensures
        wagon_hooked(old(vehicles)@, final(vehicles)@, wagon_id, tail_id),
{
    let ghost v0 = vehicles@;
    let nj = match find_vehicle_index(vehicles, wagon_id) {
        Some(i) => match vehicles[i].next_unit {
            Some(n) => find_vehicle_index(vehicles, n),
            None => None,
        },
        None => None,
    };
    let wi = find_vehicle_index(vehicles, wagon_id);
    let ti = find_vehicle_index(vehicles, tail_id);
    assert(nj == match index_of_opt(v0, next_of(v0, wagon_id)) { Some(j) => Some(j as usize), None => None::<usize> });
    match nj {
        Some(j) => set_prev_unit(vehicles, j, None),
        None => {},
    }
    let ghost v1 = vehicles@;
    match wi {
        Some(w) => hook_wagon_unit(vehicles, w, tail_id),
        None => {},
    }
    let ghost v2 = vehicles@;
    match ti {
        Some(t) => set_next_unit(vehicles, t, Some(wagon_id)),
        None => {},
    }
    proof {
        let wis = find_vehicle(v0, wagon_id);
        let tis = find_vehicle(v0, tail_id);
        let njs = index_of_opt(v0, next_of(v0, wagon_id));
        assert forall|j: int| 0 <= j < v0.len() implies {
            &&& coupling_kept(v0[j], #[trigger] vehicles@[j])
            &&& vehicles@[j].prev_unit == if wis == Some(j) { Some(tail_id) } else if njs == Some(j) { None } else { v0[j].prev_unit }
            &&& vehicles@[j].next_unit == if tis == Some(j) { Some(wagon_id) } else if wis == Some(j) { None } else { v0[j].next_unit }
            &&& if wis == Some(j) {
                vehicles@[j].orders@.len() == 0 && vehicles@[j].path@.len() == 0 && vehicles@[j].current_order == 0
            } else {
                vehicles@[j].orders@ == v0[j].orders@ && vehicles@[j].path@ == v0[j].path@ && vehicles@[j].current_order == v0[j].current_order
            }
        } by {
            assert(v1[j].id == v0[j].id);
            assert(v2[j].id == v1[j].id);
        }
    }
}

/// Hooks `wagon_id` (a loose unit or the head of a chain) behind the last
/// unit of the consist of `head_id`, then refreshes that consist.
pub fn attach_wagon(vehicles: &mut Vec<Vehicle>, head_id: u32, wagon_id: u32) -> (r: Result<(), ()>)
    ensures
        r is Err <==> attach_refused(old(vehicles)@, head_id, wagon_id),
        r is Err ==> final(vehicles)@ == old(vehicles)@,
        r is Ok ==> exists|mid: Seq<Vehicle>| {
            &&& wagon_hooked(old(vehicles)@, mid, wagon_id, spec_consist_unit_ids(old(vehicles)@, head_id).last())
            &&& consist_refreshed(mid, final(vehicles)@, head_id)
        },
        r is Ok && attach_extends_cleanly(old(vehicles)@, head_id, wagon_id) ==> spec_consist_unit_ids(
            final(vehicles)@,
            head_id,
        ) == spec_consist_unit_ids(old(vehicles)@, head_id).push(wagon_id),
{
    let ghost v0 = vehicles@;
    let tail_id = match attach_tail(vehicles, head_id, wagon_id) {
        None => return Err(()),
        Some(t) => t,
    };
    hook_wagon(vehicles, wagon_id, tail_id);
    let ghost mid = vehicles@;
    consist_changed(vehicles, head_id);
    assert(consist_refreshed(mid, vehicles@, head_id));
    proof {
        if attach_extends_cleanly(v0, head_id, wagon_id) {
            lemma_attach_extends_chain(v0, vehicles@, head_id, wagon_id);
        }
    }
    Ok(())
}

/// A fleet in which attaching `wagon_id` to the consist of `head_id` just
/// appends it: ids are unique, every unit of the consist is known and its
/// walk ends before the limit, and the wagon is a known unit.
pub open spec fn attach_extends_cleanly(vs: Seq<Vehicle>, head_id: u32, wagon_id: u32) -> bool {
    &&& ids_unique(vs)
    &&& spec_consist_unit_ids(vs, head_id).len() < CHAIN_WALK_LIMIT
    &&& forall|k: int| 0 <= k < spec_consist_unit_ids(vs, head_id).len() ==> (#[trigger] find_vehicle(
        vs,
        spec_consist_unit_ids(vs, head_id)[k],
    )) is Some
    &&& find_vehicle(vs, wagon_id) is Some
}

/// A walk that ended before running out of fuel ended on a unit with
/// nothing known behind it.
proof fn lemma_chain_ends_loose(vs: Seq<Vehicle>, cur: Option<u32>, fuel: nat)
    requires
        chain_from(vs, cur, fuel).len() < fuel,
        chain_from(vs, cur, fuel).len() > 0,
    ensures
        next_of(vs, chain_from(vs, cur, fuel).last()) is None,
    decreases fuel,
{
    let c = chain_from(vs, cur, fuel);
    let id = cur->Some_0;
    let rest = chain_from(vs, next_of(vs, id), (fuel - 1) as nat);
    assert(c == seq![id] + rest);
    if rest.len() == 0 {
        assert(c.last() == id);
        if next_of(vs, id) is Some {
            reveal_with_fuel(chain_from, 2);
        }
    } else {
        lemma_chain_ends_loose(vs, next_of(vs, id), (fuel - 1) as nat);
        assert(c.last() == rest.last());
    }
}

/// The walk depends only on the units' ids and forward links.
proof fn lemma_chain_same_links(a: Seq<Vehicle>, b: Seq<Vehicle>, cur: Option<u32>, fuel: nat)
    requires
        a.len() == b.len(),
        forall|j: int| 0 <= j < a.len() ==> (#[trigger] a[j]).id == b[j].id && a[j].next_unit == b[j].next_unit,
    ensures
        chain_from(a, cur, fuel) == chain_from(b, cur, fuel),
    decreases fuel,
{
    if fuel > 0 {
        match cur {
            Some(id) => {
                lemma_find_same_ids(a, b, id, a.len() as int);
                lemma_find_upto(a, id, a.len() as int);
                match find_vehicle(a, id) {
                    Some(i) => {
                        assert(a[i].next_unit == b[i].next_unit);
                    },
                    None => {},
                }
                assert(next_of(a, id) == next_of(b, id));
                lemma_chain_same_links(a, b, next_of(a, id), (fuel - 1) as nat);
            },
            None => {},
        }
    }
}

/// After hooking the loose `wagon` behind `tail`, a walk that used to end
/// on `tail` goes on to the wagon.
proof fn lemma_hooked_walk(
    before: Seq<Vehicle>,
    mid: Seq<Vehicle>,
    wagon: u32,
    tail: u32,
    cur: Option<u32>,
    fuel: nat,
)
    requires
        ids_unique(before),
        wagon_hooked(before, mid, wagon, tail),
        find_vehicle(before, wagon) is Some,
        find_vehicle(before, tail) is Some,
        next_of(before, tail) is None,
        chain_from(before, cur, fuel).len() < fuel,
        chain_from(before, cur, fuel).len() > 0,
        chain_from(before, cur, fuel).last() == tail,
        !chain_from(before, cur, fuel).contains(wagon),
        forall|k: int| 0 <= k < chain_from(before, cur, fuel).len() ==> (#[trigger] find_vehicle(before, chain_from(before, cur, fuel)[k])) is Some,
    ensures
        chain_from(mid, cur, fuel) == chain_from(before, cur, fuel).push(wagon),
    decreases fuel,
{
    let c = chain_from(before, cur, fuel);
    let id = cur->Some_0;
    let rest = chain_from(before, next_of(before, id), (fuel - 1) as nat);
    assert(c == seq![id] + rest);
    assert(c[0] == id);
    assert(find_vehicle(before, c[0]) is Some);
    assert forall|j: int| 0 <= j < before.len() implies (#[trigger] mid[j]).id == before[j].id by {}
    lemma_find_same_ids(mid, before, id, before.len() as int);
    lemma_find_same_ids(mid, before, wagon, before.len() as int);
    lemma_find_upto(before, id, before.len() as int);
    lemma_find_upto(before, tail, before.len() as int);
    lemma_find_upto(before, wagon, before.len() as int);
    let wi = find_vehicle(before, wagon)->Some_0;
    let ti = find_vehicle(before, tail)->Some_0;
    let xi = find_vehicle(before, id)->Some_0;
    assert(!c.contains(wagon) ==> id != wagon) by {
        assert(c[0] == id);
    }
    assert(xi != wi);
    if id == tail {
        assert(rest.len() == 0);
        assert(c =~= seq![tail]);
        assert(next_of(mid, id) == Some(wagon));
        assert(next_of(mid, wagon) is None);
        reveal_with_fuel(chain_from, 3);
        assert(chain_from(mid, None, (fuel - 2) as nat) =~= Seq::<u32>::empty());
        assert(chain_from(mid, Some(wagon), (fuel - 1) as nat) =~= seq![wagon]);
        assert(chain_from(mid, cur, fuel) =~= seq![id, wagon]);
    } else {
        assert(xi != ti);
        assert(next_of(mid, id) == next_of(before, id));
        if rest.len() == 0 {
            assert(c.last() == id);
        }
        assert(rest.last() == c.last());
        assert forall|k: int| 0 <= k < rest.len() implies (#[trigger] find_vehicle(before, rest[k])) is Some by {
            assert(rest[k] == c[k + 1]);
        }
        assert(!rest.contains(wagon)) by {
            if rest.contains(wagon) {
                let k = choose|k: int| 0 <= k < rest.len() && rest[k] == wagon;
                assert(c[k + 1] == wagon);
            }
        }
        lemma_hooked_walk(before, mid, wagon, tail, next_of(before, id), (fuel - 1) as nat);
        assert(chain_from(mid, cur, fuel) == seq![id] + chain_from(mid, next_of(mid, id), (fuel - 1) as nat));
        assert(seq![id] + rest.push(wagon) =~= c.push(wagon));
    }
}

/// Law: attaching a loose wagon to a consist whose walk ends on a known
/// tail (every unit known, ids unique, within the walk limit) makes the
/// consist the old one followed by the wagon.
pub proof fn lemma_attach_extends_chain(before: Seq<Vehicle>, after: Seq<Vehicle>, head_id: u32, wagon_id: u32)
    requires
        ids_unique(before),
        !attach_refused(before, head_id, wagon_id),
        spec_consist_unit_ids(before, head_id).len() < CHAIN_WALK_LIMIT,
        forall|k: int| 0 <= k < spec_consist_unit_ids(before, head_id).len() ==> (#[trigger] find_vehicle(
            before,
            spec_consist_unit_ids(before, head_id)[k],
        )) is Some,
        find_vehicle(before, wagon_id) is Some,
        exists|mid: Seq<Vehicle>| {
            &&& wagon_hooked(before, mid, wagon_id, spec_consist_unit_ids(before, head_id).last())
            &&& consist_refreshed(mid, after, head_id)
        },
    ensures
        spec_consist_unit_ids(after, head_id) == spec_consist_unit_ids(before, head_id).push(wagon_id),
{
    let old = spec_consist_unit_ids(before, head_id);
    let mid = choose|mid: Seq<Vehicle>| {
        &&& wagon_hooked(before, mid, wagon_id, spec_consist_unit_ids(before, head_id).last())
        &&& consist_refreshed(mid, after, head_id)
    };
    reveal_with_fuel(chain_from, 2);
    assert(old.len() > 0);
    lemma_chain_ends_loose(before, Some(head_id), CHAIN_WALK_LIMIT as nat);
    assert(find_vehicle(before, old[old.len() - 1]) is Some);
    lemma_hooked_walk(before, mid, wagon_id, old.last(), Some(head_id), CHAIN_WALK_LIMIT as nat);
    lemma_refresh_keeps_links(mid, after, head_id);
    assert forall|j: int| 0 <= j < mid.len() implies (#[trigger] mid[j]).id == after[j].id && mid[j].next_unit == after[j].next_unit by {
        assert(topology_kept(mid[j], after[j]));
    }
    lemma_chain_same_links(mid, after, Some(head_id), CHAIN_WALK_LIMIT as nat);
}

/// Every field the consist functions read, other than the links and the
/// cached length, is unchanged.
pub open spec fn unit_fields_kept(before: Vehicle, after: Vehicle) -> bool {
    &&& after.id == before.id
    &&& after.kind == before.kind
    &&& after.engine_id == before.engine_id
    &&& after.unit_length == before.unit_length
    &&& after.capacity == before.capacity
    &&& after.pos == before.pos
    &&& after.direction == before.direction
    &&& after.running == before.running
    &&& after.progress == before.progress
    &&& after.orders@ == before.orders@
    &&& after.path@ == before.path@
    &&& after.current_order == before.current_order
}

/// `mid` is `before` with unit `ui` taken out of its chain: the unit before
/// it ends its chain, the unit behind it heads a chain of its own, and it
/// stands alone with its own cached length.
#[verifier::opaque]
pub open spec fn unit_unlinked(before: Seq<Vehicle>, mid: Seq<Vehicle>, ui: int) -> bool {
    let p = before[ui].prev_unit;
    let n = before[ui].next_unit;
    let pi = index_of_opt(before, p);
    let ni = index_of_opt(before, n);
    &&& mid.len() == before.len()
    &&& forall|j: int| 0 <= j < before.len() ==> {
        &&& unit_fields_kept(before[j], #[trigger] mid[j])
        &&& mid[j].next_unit == if j == ui || pi == Some(j) { None } else { before[j].next_unit }
        &&& mid[j].prev_unit == if j == ui || ni == Some(j) { None } else { before[j].prev_unit }
        &&& mid[j].cached_total_length == if j == ui { unit_len(before[j]) } else { before[j].cached_total_length as int }
    }
}

/// The links after detaching unit `ui`: it has none, the unit that was
/// before it ends its chain, and the unit that was behind it heads the rest
/// of the old chain; every other link is as it was.
pub open spec fn links_detached(before: Seq<Vehicle>, after: Seq<Vehicle>, ui: int) -> bool {
    let pi = index_of_opt(before, before[ui].prev_unit);
    let ni = index_of_opt(before, before[ui].next_unit);
    &&& after.len() == before.len()
    &&& forall|j: int| 0 <= j < before.len() ==> {
        &&& (#[trigger] after[j]).id == before[j].id
        &&& after[j].next_unit == if j == ui || pi == Some(j) { None } else { before[j].next_unit }
        &&& after[j].prev_unit == if j == ui || ni == Some(j) { None } else { before[j].prev_unit }
    }
}

/// Refreshing a consist leaves every unit's id and links as they were.
pub proof fn lemma_refresh_keeps_links(before: Seq<Vehicle>, after: Seq<Vehicle>, head_id: u32)
    requires
        consist_refreshed(before, after, head_id),
    ensures
        after.len() == before.len(),
        forall|j: int| 0 <= j < before.len() ==> topology_kept(#[trigger] before[j], after[j]),
{
    reveal(consist_refreshed);
}

fn set_cached_total_length(vehicles: &mut Vec<Vehicle>, j: usize, len: u16)
    requires
        j < old(vehicles)@.len(),
    ensures
        final(vehicles)@.len() == old(vehicles)@.len(),
        forall|k: int| 0 <= k < old(vehicles)@.len() && k != j ==> #[trigger] final(vehicles)@[k] == old(vehicles)@[k],
        unit_fields_kept(old(vehicles)@[j as int], final(vehicles)@[j as int]),
        final(vehicles)@[j as int].cached_total_length == len,
        final(vehicles)@[j as int].next_unit == old(vehicles)@[j as int].next_unit,
        final(vehicles)@[j as int].prev_unit == old(vehicles)@[j as int].prev_unit,
{
    vehicles[j].cached_total_length = len;
}

fn unlink_unit(vehicles: &mut Vec<Vehicle>, ui: usize)
    requires
        ui < old(vehicles)@.len(),
    ensures
        unit_unlinked(old(vehicles)@, final(vehicles)@, ui as int),
{
    let ghost v0 = vehicles@;
    let prev = vehicles[ui].prev_unit;
    let next = vehicles[ui].next_unit;
    let pi = match prev {
        Some(p) => find_vehicle_index(vehicles, p),
        None => None,
    };
    let ni = match next {
        Some(n) => find_vehicle_index(vehicles, n),
        None => None,
    };
    match pi {
        Some(j) => set_next_unit(vehicles, j, None),
        None => {},
    }
    let ghost v1 = vehicles@;
    match ni {
        Some(j) => set_prev_unit(vehicles, j, None),
        None => {},
    }
    let ghost v2 = vehicles@;
    let ghost pis = index_of_opt(v0, prev);
    let ghost nis = index_of_opt(v0, next);
    assert forall|j: int| 0 <= j < v0.len() implies {
        &&& unit_fields_kept(v0[j], #[trigger] v2[j])
        &&& v2[j].cached_total_length == v0[j].cached_total_length
        &&& v2[j].next_unit == if pis == Some(j) { None } else { v0[j].next_unit }
        &&& v2[j].prev_unit == if nis == Some(j) { None } else { v0[j].prev_unit }
    } by {
        assert(v1[j].id == v0[j].id);
    }
    let len: u16 = if vehicles[ui].unit_length < 1 { 1 } else { vehicles[ui].unit_length as u16 };
    set_prev_unit(vehicles, ui, None);
    set_next_unit(vehicles, ui, None);
    set_cached_total_length(vehicles, ui, len);
    assert forall|j: int| 0 <= j < v0.len() && j != ui implies #[trigger] vehicles@[j] == v2[j] by {}
    assert(unit_unlinked(v0, vehicles@, ui as int)) by {
        reveal(unit_unlinked);
        assert forall|j: int| 0 <= j < v0.len() implies {
            &&& unit_fields_kept(v0[j], #[trigger] vehicles@[j])
            &&& vehicles@[j].next_unit == if j == ui || pis == Some(j) { None } else { v0[j].next_unit }
            &&& vehicles@[j].prev_unit == if j == ui || nis == Some(j) { None } else { v0[j].prev_unit }
            &&& vehicles@[j].cached_total_length == if j == ui { unit_len(v0[j]) } else { v0[j].cached_total_length as int }
        } by {
            if j != ui {
                assert(vehicles@[j] == v2[j]);
            }
        }
    }
}

/// `after` is `before` with the head link of unit `id` (if known) cleared.
pub open spec fn prev_cleared(before: Seq<Vehicle>, after: Seq<Vehicle>, id: u32) -> bool {
    match find_vehicle(before, id) {
        Some(i) => {
            &&& after.len() == before.len()
            &&& forall|k: int| 0 <= k < before.len() && k != i ==> #[trigger] after[k] == before[k]
            &&& unit_fields_kept(before[i], after[i])
            &&& after[i].prev_unit is None
            &&& after[i].next_unit == before[i].next_unit
            &&& after[i].cached_total_length == before[i].cached_total_length
        },
        None => after == before,
    }
}

/// The steps of `detach_unit` on a fleet holding `unit_id` at `ui`, through
/// the fleets `m1`, `m2`, `mc`, `m3`: take the unit out, refresh the consist
/// it left (when it was not its head), make the units behind it a consist of
/// their own and refresh it, and refresh the unit itself.
pub open spec fn detach_steps(
    before: Seq<Vehicle>,
    m1: Seq<Vehicle>,
    m2: Seq<Vehicle>,
    mc: Seq<Vehicle>,
    m3: Seq<Vehicle>,
    after: Seq<Vehicle>,
    unit_id: u32,
    ui: int,
) -> bool {
    let old_head = match spec_consist_head_id(before, unit_id) {
        Some(h) => h,
        None => unit_id,
    };
    &&& unit_unlinked(before, m1, ui)
    &&& if old_head != unit_id { consist_refreshed(m1, m2, old_head) } else { m2 == m1 }
    &&& match before[ui].next_unit {
        Some(nh) => prev_cleared(m2, mc, nh) && consist_refreshed(mc, m3, nh),
        None => m3 == m2,
    }
    &&& consist_refreshed(m3, after, unit_id)
}

/// Every forward link is matched by the backward link and back.
pub open spec fn links_agree(vs: Seq<Vehicle>) -> bool {
    forall|a: int, b: int|
        0 <= a < vs.len() && 0 <= b < vs.len() ==> ((#[trigger] vs[a]).next_unit == Some(vs[b].id) <==> (
        #[trigger] vs[b]).prev_unit == Some(vs[a].id))
}

/// No two units share an id.
pub open spec fn ids_unique(vs: Seq<Vehicle>) -> bool {
    forall|a: int, b: int| 0 <= a < vs.len() && 0 <= b < vs.len() && a != b ==> (#[trigger] vs[a]).id != (#[trigger] vs[b]).id
}

proof fn lemma_find_unique(vs: Seq<Vehicle>, b: int)
    requires
        ids_unique(vs),
        0 <= b < vs.len(),
    ensures
        find_vehicle(vs, vs[b].id) == Some(b),
{
    lemma_find_upto(vs, vs[b].id, vs.len() as int);
}

/// Detaching a unit from a fleet whose links agree (and whose ids are
/// unique) leaves links that agree: the chain is split in two, not left
/// half-linked.
pub proof fn lemma_detach_keeps_links_agreeing(before: Seq<Vehicle>, after: Seq<Vehicle>, ui: int)
    requires
        0 <= ui < before.len(),
        ids_unique(before),
        links_agree(before),
        links_detached(before, after, ui),
    ensures
        links_agree(after),
{
    let pi = index_of_opt(before, before[ui].prev_unit);
    let ni = index_of_opt(before, before[ui].next_unit);
    lemma_find_unique(before, ui);
    match before[ui].prev_unit {
        Some(p) => lemma_find_upto(before, p, before.len() as int),
        None => {},
    }
    match before[ui].next_unit {
        Some(n) => lemma_find_upto(before, n, before.len() as int),
        None => {},
    }
    assert forall|a: int, b: int|
        0 <= a < after.len() && 0 <= b < after.len() implies ((#[trigger] after[a]).next_unit == Some(after[b].id) <==> (
        #[trigger] after[b]).prev_unit == Some(after[a].id)) by {
        assert(after[a].id == before[a].id && after[b].id == before[b].id);
        lemma_find_unique(before, a);
        lemma_find_unique(before, b);
        assert(before[a].next_unit == Some(before[b].id) <==> before[b].prev_unit == Some(before[a].id));
        assert(before[a].next_unit == Some(before[ui].id) <==> before[ui].prev_unit == Some(before[a].id));
        assert(before[ui].next_unit == Some(before[b].id) <==> before[b].prev_unit == Some(before[ui].id));
    }
}

proof fn lemma_detach_links(
    before: Seq<Vehicle>,
    m1: Seq<Vehicle>,
    m2: Seq<Vehicle>,
    mc: Seq<Vehicle>,
    m3: Seq<Vehicle>,
    after: Seq<Vehicle>,
    unit_id: u32,
    ui: int,
)
    requires
        0 <= ui < before.len(),
        detach_steps(before, m1, m2, mc, m3, after, unit_id, ui),
    ensures
        links_detached(before, after, ui),
{
    reveal(unit_unlinked);
    let old_head = match spec_consist_head_id(before, unit_id) {
        Some(h) => h,
        None => unit_id,
    };
    if old_head != unit_id {
        lemma_refresh_keeps_links(m1, m2, old_head);
    }
    match before[ui].next_unit {
        Some(nh) => {
            lemma_refresh_keeps_links(mc, m3, nh);
            match find_vehicle(m2, nh) {
                Some(k) => {
                    assert forall|j: int| 0 <= j < before.len() implies m2[j].id == (#[trigger] before[j]).id by {
                        assert(m1[j].id == before[j].id);
                    }
                    lemma_find_same_ids(m2, before, nh, before.len() as int);
                    assert(index_of_opt(before, before[ui].next_unit) == Some(k));
                    assert forall|j: int| 0 <= j < before.len() implies #[trigger] mc[j].next_unit == m2[j].next_unit
                        && mc[j].prev_unit == (if j == k { None } else { m2[j].prev_unit }) && mc[j].id == m2[j].id by {
                        if j != k {
                            assert(mc[j] == m2[j]);
                        }
                    }
                },
                None => {},
            }
        },
        None => {},
    }
    lemma_refresh_keeps_links(m3, after, unit_id);
    assert forall|j: int| 0 <= j < before.len() implies {
        &&& (#[trigger] after[j]).id == before[j].id
        &&& after[j].next_unit == if j == ui || index_of_opt(before, before[ui].prev_unit) == Some(j) { None } else { before[j].next_unit }
        &&& after[j].prev_unit == if j == ui || index_of_opt(before, before[ui].next_unit) == Some(j) { None } else { before[j].prev_unit }
    } by {
        assert(m1[j].id == before[j].id);
        assert(topology_kept(m3[j], after[j]));
        if old_head != unit_id {
            assert(topology_kept(m1[j], m2[j]));
        }
        match before[ui].next_unit {
            Some(nh) => {
                assert(topology_kept(mc[j], m3[j]));
                assert(mc[j].next_unit == m2[j].next_unit && mc[j].id == m2[j].id);
                match find_vehicle(m2, nh) {
                    Some(k) => {
                        assert(mc[j].prev_unit == (if j == k { None } else { m2[j].prev_unit }));
                    },
                    None => {
                        assert forall|i: int| 0 <= i < before.len() implies m2[i].id == (#[trigger] before[i]).id by {
                            assert(m1[i].id == before[i].id);
                        }
                        lemma_find_same_ids(m2, before, nh, before.len() as int);
                        assert(mc[j] == m2[j]);
                    },
                }
            },
            None => {},
        }
    }
}

pub open spec fn unit_detached(before: Seq<Vehicle>, after: Seq<Vehicle>, unit_id: u32, ui: int) -> bool {
    exists|m1: Seq<Vehicle>, m2: Seq<Vehicle>, mc: Seq<Vehicle>, m3: Seq<Vehicle>|
        #[trigger] detach_steps(before, m1, m2, mc, m3, after, unit_id, ui)
}

/// Uncouples `unit_id`: it becomes a loose unit, the units behind it form a
/// consist of their own headed by the unit that followed it, and every
/// consist touched is refreshed. Fails for an unknown unit and for a cab of
/// a dual-headed pair, which is not split.
pub fn detach_unit(vehicles: &mut Vec<Vehicle>, unit_id: u32) -> (r: Result<(), ()>)
    ensures
        match find_vehicle(old(vehicles)@, unit_id) {
            None => r is Err && final(vehicles)@ == old(vehicles)@,
            Some(ui) => if old(vehicles)@[ui].other_multiheaded_part is Some {
                r is Err && final(vehicles)@ == old(vehicles)@
            } else {
                &&& r is Ok
                &&& unit_detached(old(vehicles)@, final(vehicles)@, unit_id, ui)
                &&& links_detached(old(vehicles)@, final(vehicles)@, ui)
                &&& ids_unique(old(vehicles)@) && links_agree(old(vehicles)@) ==> links_agree(final(vehicles)@)
            },
        },
{
    let ui = match find_vehicle_index(vehicles, unit_id) {
        None => return Err(()),
        Some(i) => i,
    };
    if vehicles[ui].other_multiheaded_part.is_some() {
        return Err(());
    }
    let ghost v0 = vehicles@;
    let next = vehicles[ui].next_unit;
    let old_head = match consist_head_id(vehicles, unit_id) {
        Some(h) => h,
        None => unit_id,
    };
    unlink_unit(vehicles, ui);
    let ghost m1 = vehicles@;
    if old_head != unit_id {
        consist_changed(vehicles, old_head);
    }
    let ghost m2 = vehicles@;
    let ghost mut mc = m2;
    match next {
        Some(new_head) => {
            match find_vehicle_index(vehicles, new_head) {
                Some(ni) => set_prev_unit(vehicles, ni, None),
                None => {},
            }
            proof {
                mc = vehicles@;
            }
            assert(prev_cleared(m2, mc, new_head));
            consist_changed(vehicles, new_head);
            assert(consist_refreshed(mc, vehicles@, new_head));
        },
        None => {},
    }
    let ghost m3 = vehicles@;
    consist_changed(vehicles, unit_id);
    proof {
        assert(detach_steps(v0, m1, m2, mc, m3, vehicles@, unit_id, ui as int));
        lemma_detach_links(v0, m1, m2, mc, m3, vehicles@, unit_id, ui as int);
        if ids_unique(v0) && links_agree(v0) {
            lemma_detach_keeps_links_agreeing(v0, vehicles@, ui as int);
        }
    }
    Ok(())
}

} // verus!
