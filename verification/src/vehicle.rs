//! The vehicle record: identity, orders, timetable clock, reliability,
//! servicing and breakdowns.

use vstd::prelude::*;
use crate::common::{
    abs_diff_i32, abs_int, direction_from_tile_step, reverse_direction, spec_direction_from_tile_step, CargoType,
    CompanyId, TileCoord, VehicleKind, DIR_E, DIR_N, DIR_NE, DIR_NW, DIR_S, DIR_SE, DIR_SW, DIR_W,
};
use crate::engine::{
    default_engine_id, engine_for_vehicle, spec_default_engine_id, spec_engine_for_vehicle,
    spec_engine_is_wagon, EngineDef,
};
use crate::order::{
    effective_comparator, spec_compare, spec_destination, spec_travel_ticks, spec_wait_ticks,
    spec_station_order, OrderConditionComparator, OrderConditionKind, OrderLoadType, OrderNonStop,
    OrderUnloadType, VehicleOrder,
};
use crate::random::{random_step, Randomizer};
use crate::timetable::{round_timetable_ticks, spec_round_timetable_ticks};
use crate::train_movement::{accel_slowdown, is_45_degree_turn, spec_dir_difference};

verus! {

/// Why a timetable wait is in progress.
#[derive(Debug, Clone, Copy, PartialEq, Eq, Structural)]
pub enum TimetableWaitKind {
    Idle,
    AfterArrival,
    AfterUnload,
    AfterLoad,
    TravelEarly,
}

impl Default for TimetableWaitKind {
    fn default() -> (r: TimetableWaitKind)
        ensures
            r == TimetableWaitKind::Idle,
    {
        TimetableWaitKind::Idle
    }
}

/// Flight phase of an aircraft.
#[derive(Debug, Clone, Copy, PartialEq, Eq, Structural)]
pub enum AircraftPhase {
    InHangar,
    Taxi,
    Takeoff,
    Flying,
    Landing,
}

impl Default for AircraftPhase {
    fn default() -> (r: AircraftPhase)
        ensures
            r == AircraftPhase::InHangar,
    {
        AircraftPhase::InHangar
    }
}

/// Raw fields of the current order that are not part of the player's stored
/// order: the loading state, temporary flags and the native destination.
#[derive(Debug, Clone, Copy, PartialEq, Eq, Structural)]
pub struct VehicleOrderRuntime {
    pub order_type: u8,
    pub flags: u8,
    pub dest: u16,
    pub refit_cargo: u8,
    pub wait_time: u16,
    pub travel_time: u16,
    pub max_speed: u16,
}

/// One entry of a road vehicle's path cache: the chosen trackdir and the
/// linear index of the tile.
#[derive(Debug, Clone, Copy, PartialEq, Eq, Structural)]
pub struct RoadPathEntry {
    pub trackdir: u8,
    pub tile: u32,
}

/// Events that re-randomise a vehicle's random bits, in their bit order.
#[derive(Debug, Clone, Copy, PartialEq, Eq, Structural)]
pub enum VehicleRandomTrigger {
    NewCargo,
    Depot,
    Empty,
    AnyNewCargo,
    Callback32,
}

pub open spec fn random_trigger_bit(t: VehicleRandomTrigger) -> u8 {
    match t {
        VehicleRandomTrigger::NewCargo => 0,
        VehicleRandomTrigger::Depot => 1,
        VehicleRandomTrigger::Empty => 2,
        VehicleRandomTrigger::AnyNewCargo => 3,
        VehicleRandomTrigger::Callback32 => 4,
    }
}

impl VehicleRandomTrigger {
    /// The trigger's bit in the waiting-triggers mask.
    pub fn mask(self) -> (r: u8)
        ensures
            r == 1u8 << random_trigger_bit(self),
    {
        let r: u8 = match self {
            VehicleRandomTrigger::NewCargo => 1,
            VehicleRandomTrigger::Depot => 2,
            VehicleRandomTrigger::Empty => 4,
            VehicleRandomTrigger::AnyNewCargo => 8,
            VehicleRandomTrigger::Callback32 => 16,
        };
        proof {
            assert(1u8 << 0u8 == 1u8) by (bit_vector);
            assert(1u8 << 1u8 == 2u8) by (bit_vector);
            assert(1u8 << 2u8 == 4u8) by (bit_vector);
            assert(1u8 << 3u8 == 8u8) by (bit_vector);
            assert(1u8 << 4u8 == 16u8) by (bit_vector);
        }
        r
    }
}

/// Phase of a road vehicle inside a depot: parked, or driving in or out
/// along the entry frames.
#[derive(Debug, Clone, Copy, PartialEq, Eq, Structural)]
pub enum RoadDepotPhase {
    Outside,
    InDepot,
    Entering { direction: u8, progress: u8 },
    Exiting { direction: u8, progress: u8 },
}

impl Default for RoadDepotPhase {
    fn default() -> (r: RoadDepotPhase)
        ensures
            r == RoadDepotPhase::Outside,
    {
        RoadDepotPhase::Outside
    }
}

/// Default cargo capacity of a new vehicle.
pub const VEHICLE_CAPACITY: u32 = 20;
/// Length of one rail unit in tile fractions (`VEHICLE_LENGTH`).
pub const VEHICLE_LENGTH: u8 = 8;
/// Simulation ticks per day.
pub const TICKS_PER_DAY: u64 = 74;
/// Simulation ticks per (365-day) year.
pub const TICKS_PER_YEAR: u64 = 27_010;
/// Reliability below which a depot visit is advisable.
pub const SERVICING_RELIABILITY_THRESHOLD: u16 = 5_000;
/// Default service interval of trains and road vehicles (days).
pub const DEFAULT_SERVICE_INTERVAL_DAYS: u16 = 150;
pub const DEFAULT_SERVICE_INTERVAL_DAYS_TRAINS: u16 = 150;
pub const DEFAULT_SERVICE_INTERVAL_DAYS_ROAD_VEHICLES: u16 = 150;
pub const DEFAULT_SERVICE_INTERVAL_DAYS_AIRCRAFT: u16 = 100;
pub const DEFAULT_SERVICE_INTERVAL_DAYS_SHIPS: u16 = 360;
/// Longest breakdown in ticks (`breakdown_delay` up to 255).
pub const BREAKDOWN_DURATION_TICKS: u32 = 255;
/// Minimum speed at which breakdown risk accumulates.
pub const MIN_SPEED_FOR_BREAKDOWN: u16 = 5;
/// Calendar days per vehicle year (leap-year length).
pub const DAYS_PER_VEHICLE_YEAR: u32 = 366;
/// Largest economy age representable by the economy date.
pub const MAX_ECONOMY_AGE_DAYS: u32 = 1_826_212_865;

/// Initial service interval by vehicle kind.
pub open spec fn spec_default_service_interval(kind: VehicleKind) -> u16 {
    match kind {
        VehicleKind::Aircraft => DEFAULT_SERVICE_INTERVAL_DAYS_AIRCRAFT,
        VehicleKind::Ship => DEFAULT_SERVICE_INTERVAL_DAYS_SHIPS,
        VehicleKind::Bus | VehicleKind::Truck | VehicleKind::Tram =>
            DEFAULT_SERVICE_INTERVAL_DAYS_ROAD_VEHICLES,
        VehicleKind::Train => DEFAULT_SERVICE_INTERVAL_DAYS_TRAINS,
    }
}

pub fn default_service_interval_days_for_kind(kind: VehicleKind) -> (r: u16)
    ensures
        r == spec_default_service_interval(kind),
{
    match kind {
        VehicleKind::Aircraft => DEFAULT_SERVICE_INTERVAL_DAYS_AIRCRAFT,
        VehicleKind::Ship => DEFAULT_SERVICE_INTERVAL_DAYS_SHIPS,
        VehicleKind::Bus | VehicleKind::Truck | VehicleKind::Tram =>
            DEFAULT_SERVICE_INTERVAL_DAYS_ROAD_VEHICLES,
        VehicleKind::Train => DEFAULT_SERVICE_INTERVAL_DAYS_TRAINS,
    }
}

/// `_breakdown_chance[rel >> 10]`.
pub const BREAKDOWN_CHANCE_TABLE: [u8; 64] = [
    3, 3, 3, 3, 3, 3, 3, 3, 4, 4, 5, 5, 6, 6, 7, 7, 8, 8, 9, 9, 10, 10, 11, 11, 12, 13, 13, 13, 13,
    14, 15, 16, 17, 19, 21, 25, 28, 31, 34, 37, 40, 44, 48, 52, 56, 60, 64, 68, 72, 80, 90, 100,
    110, 120, 130, 140, 150, 170, 190, 210, 230, 250, 250, 250,
];

/// Effective-reliability bonus of ships.
pub const SHIP_RELIABILITY_BONUS: u32 = 0x6666;
/// Effective-reliability bonus with reduced breakdowns.
pub const REDUCED_BREAKDOWN_RELIABILITY_BONUS: u32 = 0x6666;

/// Reliability (0..=10 000) scaled to the 16-bit range.
pub open spec fn spec_scaled_reliability(rel: u16) -> int {
    rel * 65535 / 10000
}

/// Reliability used for the breakdown table: scaled, plus the ship and
/// reduced-breakdown bonuses, capped at 65 535.
pub open spec fn spec_effective_reliability(rel: u16, kind: VehicleKind, reduced: bool) -> int {
    let base = spec_scaled_reliability(rel) + (if kind == VehicleKind::Ship {
        0x6666int
    } else {
        0
    }) + (if reduced {
        0x6666int
    } else {
        0
    });
    if base > 65535 {
        65535
    } else {
        base
    }
}

pub open spec fn spec_breakdown_table_index(rel: u16, kind: VehicleKind, reduced: bool) -> int {
    let i = spec_effective_reliability(rel, kind, reduced) / 1024;
    if i > 63 {
        63
    } else {
        i
    }
}

/// Row of the breakdown-chance table for a reliability.
pub fn breakdown_table_index(reliability: u16, kind: VehicleKind, reduced_breakdowns: bool) -> (r:
    usize)
    ensures
        r as int == spec_breakdown_table_index(reliability, kind, reduced_breakdowns),
        r < 64,
{
    let mut rel: u32 = (reliability as u32) * 65535 / 10000;
    if kind == VehicleKind::Ship {
        rel = rel + SHIP_RELIABILITY_BONUS;
    }
    if reduced_breakdowns {
        rel = rel + REDUCED_BREAKDOWN_RELIABILITY_BONUS;
    }
    if rel > 65535 {
        rel = 65535;
    }
    let i = rel / 1024;
    if i > 63 {
        63
    } else {
        i as usize
    }
}

/// Daily reliability decay: `spd_dec` scaled to the 0..=10 000 range, saturating at 0.
pub open spec fn spec_decay_reliability(rel: u16, spd_dec: u16) -> u16 {
    let dec = spd_dec * 10000 / 65535;
    if rel < dec {
        0
    } else {
        (rel - dec) as u16
    }
}

fn decay_reliability(reliability: u16, spd_dec: u16) -> (r: u16)
    ensures
        r == spec_decay_reliability(reliability, spd_dec),
{
    let dec: u32 = (spd_dec as u32) * 10000 / 65535;
    if (reliability as u32) < dec {
        0
    } else {
        (reliability as u32 - dec) as u16
    }
}

/// `Chance16I(a, b, r)` over the value `r` clamped to 16 bits.
pub open spec fn spec_chance16i(a: u32, b: u32, r: u32) -> bool {
    let low: int = if r > 0xFFFF {
        0xFFFF
    } else {
        r as int
    };
    b != 0 && (low * b + b / 2) / 65536 < a
}

fn chance16i(a: u32, b: u32, r: u32) -> (res: bool)
    requires
        b <= 0xFFFF,
    ensures
        res == spec_chance16i(a, b, r),
{
    if b == 0 {
        return false;
    }
    let low: u64 = if r > 0xFFFF {
        0xFFFF
    } else {
        r as u64
    };
    proof {
        assert(low * b <= 0xFFFF * 0xFFFF) by (nonlinear_arith)
            requires
                low <= 0xFFFF,
                b <= 0xFFFF,
        ;
    }
    ((low * (b as u64) + (b as u64) / 2) / 65536) < a as u64
}

/// `(value >> offset) & mask(count)` for the small field widths used here.
pub open spec fn spec_extract_bits(value: u32, offset: u32, count: u32) -> int {
    (value as int / pow2_int(offset as nat)) % pow2_int(count as nat)
}

pub open spec fn pow2_int(n: nat) -> int
    decreases n,
{
    if n == 0 {
        1
    } else {
        2 * pow2_int((n - 1) as nat)
    }
}

fn extract_bits(value: u32, offset: u32, count: u32) -> (r: u8)
    requires
        offset == 16 && count == 6 || offset == 24 && count == 7,
    ensures
        r as int == spec_extract_bits(value, offset, count),
        count == 6 ==> r < 64,
        count == 7 ==> r < 128,
{
    proof {
        reveal_with_fuel(pow2_int, 25);
    }
    if offset == 16 {
        ((value / 65536) % 64) as u8
    } else {
        ((value / 16777216) % 128) as u8
    }
}

/// A vehicle unit: moves along a path between orders; rail units are
/// chained through `prev_unit` / `next_unit`.
#[derive(Debug, Clone)]
pub struct Vehicle {
    pub id: u32,
    pub kind: VehicleKind,
    /// Visible unit number.
    pub unit_number: u16,
    pub owner: CompanyId,
    pub pos: TileCoord,
    /// Start of the current trip; swapped with `dest` on each arrival.
    pub origin: TileCoord,
    pub dest: TileCoord,
    pub cargo: u32,
    pub cargo_type: Option<CargoType>,
    pub capacity: u32,
    pub running: bool,
    /// Sub-tile progress (0..=255).
    pub progress: u8,
    /// Current speed (0 = stopped).
    pub cur_speed: u16,
    pub subspeed: u8,
    /// Heading on the compass rose.
    pub direction: u8,
    /// Heading of the previous track piece, for curve rendering.
    pub curve_prev_direction: u8,
    /// Pixel along the rail piece of the current tile (0..=15).
    pub rail_pixel: u8,
    /// Tiles the consist head left, most recent first.
    pub rail_tile_history: Vec<TileCoord>,
    /// Height in pixels (`None` = not yet synchronised with the map).
    pub z_pos: Option<i16>,
    /// Ticks spent waiting for a path or a signal.
    pub wait_counter: u32,
    /// Departure turn animation on the current tile (0 = idle).
    pub depart_turn: u8,
    pub engine_id: Option<u16>,
    /// Custom name; the UI falls back to model and id.
    pub name: Option<String>,
    /// Path from the pathfinder (next tile first).
    pub path: Vec<TileCoord>,
    /// Circular list of orders.
    pub orders: Vec<VehicleOrder>,
    /// Index of the real current order.
    pub current_order: usize,
    /// Index of the implicit current order.
    pub cur_implicit_order_index: usize,
    pub last_station_visited: Option<TileCoord>,
    /// Last pathfinding attempt to the current order failed.
    pub no_network_route_to_order: bool,
    /// Arrived at a station order and waits for next tick's loading window.
    pub awaiting_load_window: bool,
    pub cargo_loading: bool,
    pub cargo_unloading: bool,
    /// Train marked stuck on a path without reservation.
    pub pbs_stuck: bool,
    pub timetable_active: bool,
    pub timetable_wait_remaining: u32,
    /// Why the timetable wait in progress was started.
    pub timetable_wait_kind: TimetableWaitKind,
    /// Tick at which the current leg began (0 = unknown).
    pub timetable_leg_start_tick: u64,
    /// Start of the staggered timetable cycle.
    pub timetable_start: u32,
    /// The timetable's first arrival happened.
    pub timetable_started: bool,
    /// Accumulated timetable delay in ticks (positive = late).
    pub timetable_lateness: i32,
    /// Measure cycles and fill in timetable times.
    pub timetable_autofill: bool,
    /// Ticks spent on the current order.
    pub current_order_time: u32,
    /// Current simulation tick (transient).
    pub sim_tick: u64,
    /// Tick of purchase.
    pub build_tick: u64,
    /// Economy age in days.
    pub economy_age_days: u32,
    /// Reliability (0..=10 000, percent times 100).
    pub reliability: u16,
    pub reliability_spd_dec: u16,
    pub needs_servicing: bool,
    /// Service interval in days (or percent when the company uses percentages).
    pub service_interval_days: u16,
    /// Calendar day of the last depot service.
    pub last_service_day: u64,
    pub last_service_newgrf_day: i32,
    /// Depot services performed (wrapping counter).
    pub service_generation: u32,
    /// Breakdown setting in force at the last service (1 = reduced).
    pub service_breakdown_level: u8,
    pub max_age_days: u32,
    pub breakdown_chance: u8,
    pub breakdown_ctr: u8,
    pub breakdown_delay: u8,
    pub breakdowns_since_last_service: u8,
    pub newgrf_day_counter: u8,
    pub newgrf_tick_counter: u8,
    pub running_ticks: u8,
    /// The vehicle's NewGRF random bits (`random_bits`), read by random
    /// Action2 groups and the consist scopes.
    pub newgrf_random_bits: u16,
    /// Random triggers waiting for the active Action2 group to consume them.
    pub newgrf_waiting_random_triggers: u8,
    pub next_unit: Option<u32>,
    pub prev_unit: Option<u32>,
    /// The other cab of a dual-headed engine pair.
    pub other_multiheaded_part: Option<u32>,
    /// Road unit created as an articulated part.
    pub newgrf_articulated: bool,
    /// Consist top speed; `u16::MAX` = not computed.
    pub cached_max_speed: u16,

    /// Length of this unit in tile fractions.
    pub unit_length: u8,
    /// Total consist length in tile fractions (head only).
    pub cached_total_length: u16,
    /// Book value.
    pub value: i64,
    /// Refit requested by the depot order being executed.
    pub pending_depot_order_refit: Option<CargoType>,
}

/// Maximum reliability of an engine, in hundredths of a percent.
pub open spec fn spec_initial_reliability(engine_id: u16, kind: VehicleKind) -> u16 {
    (spec_engine_for_vehicle(kind, engine_id).reliability_pct * 100) as u16
}

pub fn initial_reliability_for_engine(engine_id: u16, kind: VehicleKind) -> (r: u16)
    ensures
        r == spec_initial_reliability(engine_id, kind),
{
    let e = engine_for_vehicle(kind, engine_id);
    e.reliability_pct as u16 * 100
}

/// Engine of a vehicle: its own, else the kind's default.
pub open spec fn spec_vehicle_engine_id(v: Vehicle) -> u16 {
    match v.engine_id {
        Some(id) => id,
        None => spec_default_engine_id(v.kind),
    }
}

/// Sum of the timetable cycle lengths of an order list.
pub open spec fn cycle_sum(orders: Seq<VehicleOrder>) -> int
    decreases orders.len(),
{
    if orders.len() == 0 {
        0
    } else {
        cycle_sum(orders.drop_last()) + spec_wait_ticks(orders.last()) + spec_travel_ticks(
            orders.last(),
        )
    }
}

/// Lateness after a timetabled leg: the difference between the timetabled
/// and the taken time is added, saturating; delay beyond a whole timetable
/// cycle wraps modulo the cycle.
pub open spec fn spec_lateness_after(lateness: i32, timetabled: u32, taken: u32, cycle: int) -> int {
    let tt: int = if timetabled > i32::MAX {
        i32::MAX as int
    } else {
        timetabled as int
    };
    let tk: int = if taken > i32::MAX {
        i32::MAX as int
    } else {
        taken as int
    };
    let raw = lateness - (tt - tk);
    let l = if raw > i32::MAX {
        i32::MAX as int
    } else if raw < i32::MIN {
        i32::MIN as int
    } else {
        raw
    };
    if l > tt && cycle > 0 && l > cycle {
        l % cycle
    } else {
        l
    }
}

/// Days by which the age on `calendar_day` exceeds the design life (0 if not).
pub open spec fn spec_days_past_max(v: Vehicle, calendar_day: u64) -> int {
    let build_day = v.build_tick / TICKS_PER_DAY;
    let age: int = if calendar_day >= build_day {
        calendar_day - build_day
    } else {
        0
    };
    if age >= v.max_age_days {
        age - v.max_age_days
    } else {
        0
    }
}

/// `v` after a depot service: reliability back to the engine's maximum,
/// breakdown state cleared (a reduced-breakdowns service also clears the
/// breakdown chance, otherwise it is quartered), and the service day and
/// counter recorded.
#[verifier::opaque]
pub open spec fn serviced(v: Vehicle) -> Vehicle {
    let day = v.sim_tick / TICKS_PER_DAY;
    Vehicle {
        reliability: spec_initial_reliability(spec_vehicle_engine_id(v), v.kind),
        needs_servicing: false,
        breakdown_ctr: 0,
        breakdown_delay: 0,
        breakdown_chance: if v.service_breakdown_level == 1 {
            0
        } else {
            v.breakdown_chance / 4
        },
        breakdowns_since_last_service: 0,
        last_service_day: day,
        last_service_newgrf_day: if day > i32::MAX {
            i32::MAX
        } else {
            day as i32
        },
        service_generation: ((v.service_generation + 1) % 0x1_0000_0000) as u32,
        ..v
    }
}

/// `f` is `o` after a timetable update on arrival (`travelling`) or
/// departure: the order stopwatch is reset; an inactive timetable, a missing
/// or conditional order changes nothing else; the first travelled order
/// starts the timetable (a delayed start becomes lateness); in autofill mode
/// the taken time is written into the order; otherwise the lateness moves
/// by the difference between timetabled and taken time.
pub open spec fn timetable_updated(o: Vehicle, f: Vehicle, travelling: bool) -> bool {
    &&& f == (Vehicle {
                orders: f.orders,
                timetable_lateness: f.timetable_lateness,
                timetable_start: f.timetable_start,
                timetable_started: f.timetable_started,
                timetable_autofill: f.timetable_autofill,
                current_order_time: 0,
                ..o
            })
    &&& ({
                let idx = o.current_order as int;
                let ord = o.orders@[idx];
                let just_started = travelling && o.current_order == 0 && !o.timetable_started;
                let skip = !o.timetable_active || idx >= o.orders@.len() || ord is Conditional;
                let timetabled = if travelling {
                    spec_travel_ticks(ord)
                } else {
                    spec_wait_ticks(ord)
                };
                let rounded = spec_round_timetable_ticks(
                    if o.current_order_time == 0 {
                        1
                    } else {
                        o.current_order_time
                    },
                );
                if skip {
                    f.orders@ == o.orders@ && f.timetable_lateness == o.timetable_lateness
                        && f.timetable_started == o.timetable_started && f.timetable_start
                        == o.timetable_start && f.timetable_autofill == o.timetable_autofill
                } else if just_started {
                    &&& f.orders@ == o.orders@
                    &&& f.timetable_started
                    &&& f.timetable_autofill == o.timetable_autofill
                    &&& o.timetable_start != 0 ==> f.timetable_start == 0 && f.timetable_lateness
                        as int == (if o.sim_tick >= o.timetable_start {
                        if o.sim_tick - o.timetable_start > i32::MAX {
                            i32::MAX as int
                        } else {
                            o.sim_tick - o.timetable_start
                        }
                    } else {
                        0
                    })
                    &&& o.timetable_start == 0 ==> f.timetable_start == 0 && f.timetable_lateness
                        == o.timetable_lateness
                } else if !o.timetable_started {
                    f.orders@ == o.orders@ && f.timetable_lateness == o.timetable_lateness
                        && f.timetable_autofill == o.timetable_autofill && !f.timetable_started
                        && f.timetable_start == o.timetable_start
                } else if o.timetable_autofill {
                    &&& f.orders@ == o.orders@.update(
                        idx,
                        if travelling {
                            ord.spec_with_travel(rounded)
                        } else {
                            ord.spec_with_wait(rounded)
                        },
                    )
                    &&& f.timetable_lateness == o.timetable_lateness
                    &&& f.timetable_autofill == !(travelling && o.current_order == 0)
                    &&& f.timetable_started
                    &&& f.timetable_start == o.timetable_start
                } else {
                    &&& f.orders@ == o.orders@
                    &&& f.timetable_autofill == o.timetable_autofill
                    &&& f.timetable_started
                    &&& f.timetable_start == o.timetable_start
                    &&& f.timetable_lateness as int == if timetabled == 0 && (travelling
                        || o.timetable_lateness >= 0) {
                        o.timetable_lateness as int
                    } else {
                        spec_lateness_after(
                            o.timetable_lateness,
                            timetabled,
                            o.current_order_time,
                            cycle_sum(o.orders@),
                        )
                    }
                }
            })
}


/// Random bits a new vehicle starts with: the high half of its id times
/// the golden-ratio constant, wrapping.
pub open spec fn spec_seed_newgrf_random_bits(id: u32) -> u16 {
    (id.wrapping_mul(0x9E37_79B9u32) >> 16u32) as u16
}

fn seed_newgrf_random_bits(id: u32) -> (r: u16)
    ensures
        r == spec_seed_newgrf_random_bits(id),
{
    (id.wrapping_mul(0x9E37_79B9u32) >> 16u32) as u16
}

impl Vehicle {
    /// A new unit of `kind` at `pos` heading for `dest`, with its kind's default engine.
    pub fn new(id: u32, kind: VehicleKind, pos: TileCoord, dest: TileCoord) -> (r: Vehicle)
        ensures
            r.id == id,
            r.kind == kind,
            r.pos == pos,
            r.origin == pos,
            r.dest == dest,
            r.unit_number as int == if id + 1 > u16::MAX { u16::MAX as int } else { id + 1 },
            r.owner.0 == 0,
            r.cargo == 0,
            r.cargo_type == (match kind {
                VehicleKind::Bus | VehicleKind::Tram | VehicleKind::Aircraft => Some(
                    CargoType::Passengers,
                ),
                _ => None,
            }),
            r.capacity == VEHICLE_CAPACITY,
            r.running,
            r.engine_id == Some(spec_default_engine_id(kind)),
            r.reliability == spec_initial_reliability(spec_default_engine_id(kind), kind),
            r.reliability_spd_dec == spec_engine_for_vehicle(kind, spec_default_engine_id(kind)).reliability_spd_dec,
            r.max_age_days == spec_engine_for_vehicle(kind, spec_default_engine_id(kind)).lifelength_years * DAYS_PER_VEHICLE_YEAR,
            r.service_interval_days == DEFAULT_SERVICE_INTERVAL_DAYS,
            r.orders@.len() == 0,
            r.current_order == 0,
            r.cur_implicit_order_index == 0,
            r.direction == DIR_NE,
            r.curve_prev_direction == DIR_NE,
            r.rail_pixel == 0,
            r.rail_tile_history@.len() == 0,
            r.z_pos is None && r.wait_counter == 0,
            r.cur_speed == 0,
            r.progress == 0,
            r.sim_tick == 0,
            r.build_tick == 0,
            r.last_service_day == 0,
            r.breakdown_chance == 0 && r.breakdown_ctr == 0 && r.breakdown_delay == 0,
            r.breakdowns_since_last_service == 0,
            r.prev_unit is None && r.next_unit is None,
            !r.newgrf_articulated,
            r.cached_max_speed == u16::MAX,
            r.unit_length == VEHICLE_LENGTH,
            r.cached_total_length == VEHICLE_LENGTH,
            !r.timetable_active && !r.timetable_started && !r.timetable_autofill,
            r.timetable_lateness == 0 && r.timetable_start == 0 && r.current_order_time == 0,
            r.economy_age_days == 0 && r.value == 0,
            r.timetable_wait_remaining == 0 && r.timetable_wait_kind == TimetableWaitKind::Idle,
            r.timetable_leg_start_tick == 0,
            r.path@.len() == 0,
            !r.awaiting_load_window && !r.cargo_loading && !r.cargo_unloading,
            !r.needs_servicing,
            r.depart_turn == 0,
            r.pending_depot_order_refit is None,
            r.subspeed == 0,
            r.name is None,
            r.last_station_visited is None,
            !r.no_network_route_to_order,
            !r.pbs_stuck,
            r.last_service_newgrf_day == 0,
            r.service_generation == 0,
            r.service_breakdown_level == 0,
            r.newgrf_day_counter == 0 && r.newgrf_tick_counter == 0 && r.running_ticks == 0,
            r.newgrf_random_bits == spec_seed_newgrf_random_bits(id),
            r.newgrf_waiting_random_triggers == 0,
            r.other_multiheaded_part is None,
    {
        let cargo_type = match kind {
            VehicleKind::Bus | VehicleKind::Tram | VehicleKind::Aircraft => Some(
                CargoType::Passengers,
            ),
            VehicleKind::Truck | VehicleKind::Train | VehicleKind::Ship => None,
        };
        let engine_id = default_engine_id(kind);
        let engine = engine_for_vehicle(kind, engine_id);
        let reliability = initial_reliability_for_engine(engine_id, kind);
        let unit_number: u16 = if id >= u16::MAX as u32 {
            u16::MAX
        } else {
            (id + 1) as u16
        };
        Vehicle {
            id,
            kind,
            unit_number,
            owner: CompanyId(0),
            pos,
            origin: pos,
            dest,
            cargo: 0,
            cargo_type,
            capacity: VEHICLE_CAPACITY,
            running: true,
            progress: 0,
            cur_speed: 0,
            subspeed: 0,
            direction: DIR_NE,
            curve_prev_direction: DIR_NE,
            rail_pixel: 0,
            rail_tile_history: Vec::new(),
            z_pos: None,
            wait_counter: 0,
            depart_turn: 0,
            engine_id: Some(engine_id),
            name: None,
            path: Vec::new(),
            orders: Vec::new(),
            current_order: 0,
            cur_implicit_order_index: 0,
            last_station_visited: None,
            no_network_route_to_order: false,
            awaiting_load_window: false,
            cargo_loading: false,
            cargo_unloading: false,
            pbs_stuck: false,
            timetable_active: false,
            timetable_wait_remaining: 0,
            timetable_wait_kind: TimetableWaitKind::Idle,
            timetable_leg_start_tick: 0,
            timetable_start: 0,
            timetable_started: false,
            timetable_lateness: 0,
            timetable_autofill: false,
            current_order_time: 0,
            sim_tick: 0,
            build_tick: 0,
            economy_age_days: 0,
            reliability,
            reliability_spd_dec: engine.reliability_spd_dec,
            needs_servicing: false,
            service_interval_days: DEFAULT_SERVICE_INTERVAL_DAYS,
            last_service_day: 0,
            last_service_newgrf_day: 0,
            service_generation: 0,
            service_breakdown_level: 0,
            max_age_days: engine.lifelength_years as u32 * DAYS_PER_VEHICLE_YEAR,
            breakdown_chance: 0,
            breakdown_ctr: 0,
            breakdown_delay: 0,
            breakdowns_since_last_service: 0,
            newgrf_day_counter: 0,
            newgrf_tick_counter: 0,
            running_ticks: 0,
            newgrf_random_bits: seed_newgrf_random_bits(id),
            newgrf_waiting_random_triggers: 0,
            next_unit: None,
            prev_unit: None,
            other_multiheaded_part: None,
            newgrf_articulated: false,
            cached_max_speed: u16::MAX,
            unit_length: VEHICLE_LENGTH,
            cached_total_length: VEHICLE_LENGTH as u16,
            value: 0,
            pending_depot_order_refit: None,
        }
    }

    /// Head of its consist (or a vehicle without a chain). Articulated road
    /// parts with a predecessor are not heads.
    pub fn is_consist_head(&self) -> (r: bool)
        ensures
            r == match self.kind {
                VehicleKind::Train => self.prev_unit is None,
                VehicleKind::Bus | VehicleKind::Truck | VehicleKind::Tram => !self.newgrf_articulated
                    || self.prev_unit is None,
                VehicleKind::Ship | VehicleKind::Aircraft => true,
            },
    {
        match self.kind {
            VehicleKind::Train => self.prev_unit.is_none(),
            VehicleKind::Bus | VehicleKind::Truck | VehicleKind::Tram => !self.newgrf_articulated
                || self.prev_unit.is_none(),
            VehicleKind::Ship | VehicleKind::Aircraft => true,
        }
    }

    /// A coupled rail unit (not the head).
    pub fn is_wagon_unit(&self) -> (r: bool)
        ensures
            r == (self.kind == VehicleKind::Train && self.prev_unit is Some),
    {
        self.kind == VehicleKind::Train && self.prev_unit.is_some()
    }

    /// A road unit created as an articulated part.
    pub fn is_articulated_unit(&self) -> (r: bool)
        ensures
            r == (self.newgrf_articulated && self.prev_unit is Some && (self.kind
                == VehicleKind::Bus || self.kind == VehicleKind::Truck || self.kind
                == VehicleKind::Tram)),
    {
        self.newgrf_articulated && self.prev_unit.is_some() && (self.kind == VehicleKind::Bus
            || self.kind == VehicleKind::Truck || self.kind == VehicleKind::Tram)
    }

    /// The unit's engine statistics.
    pub fn effective_engine(&self) -> (r: EngineDef)
        ensures
            r == spec_engine_for_vehicle(self.kind, spec_vehicle_engine_id(*self)),
    {
        let id = match self.engine_id {
            Some(id) => id,
            None => default_engine_id(self.kind),
        };
        engine_for_vehicle(self.kind, id)
    }

    pub fn effective_speed(&self) -> (r: u16)
        ensures
            r == self.cur_speed,
    {
        self.cur_speed
    }

    /// Manhattan distance from the position to the destination.
    pub fn manhattan_to_dest(&self) -> (r: u32)
        requires
            abs_int(self.pos.x - self.dest.x) + abs_int(self.pos.y - self.dest.y) <= u32::MAX,
        ensures
            r == abs_int(self.pos.x - self.dest.x) + abs_int(self.pos.y - self.dest.y),
    {
        abs_diff_i32(self.pos.x, self.dest.x) + abs_diff_i32(self.pos.y, self.dest.y)
    }

    /// Replaces the order list and restarts it. Road vehicles head for the
    /// first order; without orders the vehicle stays where it is.
    pub fn set_vehicle_orders(&mut self, orders: Vec<VehicleOrder>)
        ensures
            final(self).orders@ == orders@,
            final(self).current_order == 0,
            final(self).cur_implicit_order_index == 0,
            final(self).path@.len() == 0,
            final(self).progress == 0,
            final(self).depart_turn == 0,
            !final(self).awaiting_load_window,
            !final(self).no_network_route_to_order,
            final(self).pos == old(self).pos,
            final(self).kind == old(self).kind,
            orders@.len() == 0 ==> final(self).dest == old(self).pos && final(self).origin
                == old(self).origin,
            orders@.len() > 0 ==> final(self).origin == old(self).pos,
            orders@.len() > 0 ==> final(self).dest == (if old(self).kind == VehicleKind::Train
                || old(self).kind == VehicleKind::Ship || old(self).kind == VehicleKind::Aircraft {
                old(self).dest
            } else {
                spec_destination(orders@[0])
            }),
    {
        self.orders = orders;
        self.current_order = 0;
        self.cur_implicit_order_index = 0;
        self.path = Vec::new();
        self.progress = 0;
        self.depart_turn = 0;
        self.awaiting_load_window = false;
        self.no_network_route_to_order = false;
        if self.orders.len() == 0 {
            self.dest = self.pos;
            return;
        }
        let first = self.orders[0];
        self.origin = self.pos;
        if !(self.kind == VehicleKind::Train || self.kind == VehicleKind::Ship || self.kind
            == VehicleKind::Aircraft) {
            self.dest = first.destination();
        }
    }

    /// Sets plain tile orders.
    pub fn set_orders(&mut self, orders: Vec<TileCoord>)
        ensures
            final(self).orders@.len() == orders@.len(),
            forall|i: int|
                0 <= i < orders@.len() ==> final(self).orders@[i] == VehicleOrder::Tile(
                    #[trigger] orders@[i],
                ),
            final(self).current_order == 0,
    {
        let mut v: Vec<VehicleOrder> = Vec::new();
        let mut i: usize = 0;
        while i < orders.len()
            invariant
                i <= orders@.len(),
                v@.len() == i,
                forall|j: int| 0 <= j < i ==> v@[j] == VehicleOrder::Tile(#[trigger] orders@[j]),
            decreases orders@.len() - i,
        {
            v.push(VehicleOrder::tile(orders[i]));
            i = i + 1;
        }
        self.set_vehicle_orders(v);
    }

    /// Sets default station orders.
    pub fn set_station_orders(&mut self, stations: Vec<TileCoord>)
        ensures
            final(self).orders@.len() == stations@.len(),
            forall|i: int|
                0 <= i < stations@.len() ==> #[trigger] final(self).orders@[i] == crate::order::spec_station_order(
                    stations@[i],
                    crate::order::OrderLoadType::LoadIfPossible,
                    crate::order::OrderUnloadType::UnloadIfPossible,
                    crate::order::OrderNonStop::NonStopDestination,
                    false,
                ),
            final(self).current_order == 0,
    {
        let mut v: Vec<VehicleOrder> = Vec::new();
        let mut i: usize = 0;
        while i < stations.len()
            invariant
                i <= stations@.len(),
                v@.len() == i,
                forall|j: int|
                    0 <= j < i ==> #[trigger] v@[j] == crate::order::spec_station_order(
                        stations@[j],
                        crate::order::OrderLoadType::LoadIfPossible,
                        crate::order::OrderUnloadType::UnloadIfPossible,
                        crate::order::OrderNonStop::NonStopDestination,
                        false,
                    ),
            decreases stations@.len() - i,
        {
            v.push(VehicleOrder::station(stations[i]));
            i = i + 1;
        }
        self.set_vehicle_orders(v);
    }

    /// Turns the vehicle around (depots, tests).
    pub fn reverse_heading(&mut self)
        requires
            old(self).direction + 4 <= u8::MAX,
        ensures
            final(self).direction == (old(self).direction + 4) % 8,
            final(self).progress == 0,
            final(self).depart_turn == 0,
            final(self).pos == old(self).pos,
    {
        self.direction = reverse_direction(self.direction);
        self.progress = 0;
        self.depart_turn = 0;
    }

    /// Index of the real current order.
    pub fn cur_real_order_index(&self) -> (r: usize)
        ensures
            r == self.current_order,
    {
        self.current_order
    }

    /// Resets order indices that point outside the order list to 0.
    pub fn sanitize_current_order(&mut self)
        ensures
            *final(self) == (Vehicle {
                current_order: final(self).current_order,
                cur_implicit_order_index: final(self).cur_implicit_order_index,
                ..*old(self)
            }),
            final(self).orders@ == old(self).orders@,
            final(self).current_order == (if old(self).current_order < old(self).orders@.len() {
                old(self).current_order
            } else {
                0
            }),
            final(self).cur_implicit_order_index == (if old(self).cur_implicit_order_index
                < old(self).orders@.len() {
                old(self).cur_implicit_order_index
            } else {
                0
            }),
    {
        if self.orders.len() == 0 || self.current_order >= self.orders.len() {
            self.current_order = 0;
        }
        if self.orders.len() == 0 || self.cur_implicit_order_index >= self.orders.len() {
            self.cur_implicit_order_index = 0;
        }
    }

    /// The current order, or `None` when the index is out of range.
    pub fn current_order_ref(&self) -> (r: Option<&VehicleOrder>)
        ensures
            self.current_order < self.orders@.len() ==> r == Some(
                &self.orders@[self.current_order as int],
            ),
            self.current_order >= self.orders@.len() ==> r is None,
    {
        if self.current_order < self.orders.len() {
            Some(&self.orders[self.current_order])
        } else {
            None
        }
    }

    /// The current order for editing (`None` when the index is out of range).
    pub fn current_order_mut(&mut self) -> (r: Option<&mut VehicleOrder>)
        ensures
            r is Some <==> old(self).current_order < old(self).orders@.len(),
            r is None ==> *final(self) == *old(self),
            r matches Some(o) ==> {
                &&& *o == old(self).orders@[old(self).current_order as int]
                &&& *final(self) == (Vehicle { orders: final(self).orders, ..*old(self) })
                &&& final(self).orders@ == old(self).orders@.update(old(self).current_order as int, *final(o))
            },
    {
        if self.current_order < self.orders.len() {
            Some(&mut self.orders[self.current_order])
        } else {
            None
        }
    }

    /// Gradual loading or unloading in progress.
    pub fn cargo_transfer_active(&self) -> (r: bool)
        ensures
            r == (self.cargo_loading || self.cargo_unloading),
    {
        self.cargo_loading || self.cargo_unloading
    }

    /// Age in days since purchase.
    pub fn vehicle_age_days(&self, current_tick: u64) -> (r: u64)
        ensures
            r == (if current_tick >= self.build_tick {
                (current_tick - self.build_tick) as int
            } else {
                0
            }) / TICKS_PER_DAY as int,
    {
        let age_ticks = current_tick.saturating_sub(self.build_tick);
        age_ticks / TICKS_PER_DAY
    }

    /// Age in 365-day years since purchase.
    pub fn vehicle_age_years(&self, current_tick: u64) -> (r: u32)
        ensures
            (if current_tick >= self.build_tick {
                (current_tick - self.build_tick) as int
            } else {
                0
            }) / TICKS_PER_YEAR as int <= u32::MAX ==> r == (if current_tick >= self.build_tick {
                (current_tick - self.build_tick) as int
            } else {
                0
            }) / TICKS_PER_YEAR as int,
            (if current_tick >= self.build_tick {
                (current_tick - self.build_tick) as int
            } else {
                0
            }) / TICKS_PER_YEAR as int > u32::MAX ==> r == u32::MAX,
    {
        let age_ticks = current_tick.saturating_sub(self.build_tick);
        let years = age_ticks / TICKS_PER_YEAR;
        if years > u32::MAX as u64 {
            u32::MAX
        } else {
            years as u32
        }
    }

    /// Due for autorenew: heads only (rail: locomotives only), once the age
    /// exceeds the design life by `engine_renew_months * 30` days.
    pub fn needs_autorenewing(&self, current_tick: u64, engine_renew_months: i16) -> (r: bool)
        ensures
            r == ({
                let age = (if current_tick >= self.build_tick {
                    (current_tick - self.build_tick) as int
                } else {
                    0
                }) / TICKS_PER_DAY as int;
                let past = if age >= self.max_age_days {
                    age - self.max_age_days
                } else {
                    0
                };
                &&& self.prev_unit is None
                &&& !(self.kind == VehicleKind::Train && self.engine_id is Some
                    && !(spec_engine_for_vehicle(self.kind, self.engine_id->0).kind
                    == VehicleKind::Train && !spec_engine_is_wagon(
                    spec_engine_for_vehicle(self.kind, self.engine_id->0),
                )))
                &&& past >= engine_renew_months * 30
            }),
    {
        if self.prev_unit.is_some() {
            return false;
        }
        if self.kind == VehicleKind::Train {
            match self.engine_id {
                Some(id) => {
                    if !engine_for_vehicle(self.kind, id).is_train_engine() {
                        return false;
                    }
                },
                None => {},
            }
        }
        let age_days = self.vehicle_age_days(current_tick);
        let threshold: i64 = engine_renew_months as i64 * 30;
        let past: u64 = age_days.saturating_sub(self.max_age_days as u64);
        proof {
            assert(age_days <= u64::MAX / 74);
        }
        (past as i64) >= threshold
    }

    /// Restores reliability and clears breakdown state after a depot service.
    #[verifier::spinoff_prover]
    #[verifier::rlimit(50)]
    pub fn service_at_depot(&mut self)
        ensures
            *final(self) == serviced(*old(self)),
            final(self).path == old(self).path,
    {
        let engine_id = match self.engine_id {
            Some(id) => id,
            None => default_engine_id(self.kind),
        };
        let reliability = initial_reliability_for_engine(engine_id, self.kind);
        let chance = if self.service_breakdown_level == 1 {
            0
        } else {
            self.breakdown_chance / 4
        };
        let service_day = self.sim_tick / TICKS_PER_DAY;
        let newgrf_day = if service_day > i32::MAX as u64 {
            i32::MAX
        } else {
            service_day as i32
        };
        let generation = self.service_generation.wrapping_add(1);
        let ghost expected = serviced(*self);
        proof {
            reveal(serviced);
        }
        self.reliability = reliability;
        self.needs_servicing = false;
        self.breakdown_ctr = 0;
        self.breakdown_delay = 0;
        self.breakdown_chance = chance;
        self.breakdowns_since_last_service = 0;
        self.last_service_day = service_day;
        self.last_service_newgrf_day = newgrf_day;
        self.service_generation = generation;
        assert(*self == expected);
    }

    /// Service due by the day interval (days since the last service).
    pub open spec fn spec_interval_due_days(&self) -> bool {
        let day = self.sim_tick / TICKS_PER_DAY;
        let interval: int = if self.service_interval_days == 0 {
            1
        } else {
            self.service_interval_days as int
        };
        (if day >= self.last_service_day {
            day - self.last_service_day
        } else {
            0
        }) >= interval
    }

    /// Service due by percentage: reliability fell below
    /// `engine_max * (100 - pct) / 100`, with the interval read as a percentage (max 100).
    pub open spec fn spec_interval_due_percent(&self) -> bool {
        let engine_rel = spec_initial_reliability(spec_vehicle_engine_id(*self), self.kind);
        let pct: int = if self.service_interval_days > 100 {
            100
        } else {
            self.service_interval_days as int
        };
        self.reliability < engine_rel * (100 - pct) / 100
    }

    fn interval_requires_service(&self, servint_ispercent: bool) -> (r: bool)
        ensures
            r == (if servint_ispercent {
                self.spec_interval_due_percent()
            } else {
                self.spec_interval_due_days()
            }),
    {
        if servint_ispercent {
            let engine_id = match self.engine_id {
                Some(id) => id,
                None => default_engine_id(self.kind),
            };
            let engine_rel = initial_reliability_for_engine(engine_id, self.kind);
            let pct: u32 = if self.service_interval_days > 100 {
                100
            } else {
                self.service_interval_days as u32
            };
            proof {
                assert(engine_rel as u32 * (100 - pct) <= 65535 * 100) by (nonlinear_arith)
                    requires
                        engine_rel <= 65535,
                        pct <= 100,
                ;
            }
            let threshold: u32 = (engine_rel as u32) * (100 - pct) / 100;
            (self.reliability as u32) < threshold
        } else {
            let day = self.sim_tick / TICKS_PER_DAY;
            let interval: u64 = if self.service_interval_days == 0 {
                1
            } else {
                self.service_interval_days as u64
            };
            day.saturating_sub(self.last_service_day) >= interval
        }
    }

    /// Service due by the day interval (`NeedsServicing`).
    pub fn requires_service(&self) -> (r: bool)
        ensures
            r == self.spec_interval_due_days(),
    {
        self.interval_requires_service(false)
    }

    /// Service due, reading the interval as a percentage when the company does.
    pub fn requires_service_for_company(&self, servint_ispercent: bool) -> (r: bool)
        ensures
            r == (if servint_ispercent {
                self.spec_interval_due_percent()
            } else {
                self.spec_interval_due_days()
            }),
    {
        self.interval_requires_service(servint_ispercent)
    }

    /// Full `NeedsServicing` with the game settings: a stopped vehicle never
    /// needs service; otherwise the interval must be due (as a percentage when
    /// the owner's company counts it so), and with breakdowns off and
    /// "no servicing if no breakdowns" set, only a pending autoreplace sends
    /// it to a depot. The company flag, the two settings and whether an
    /// autoreplace is pending are read from the game by the caller.
    pub fn requires_service_with(
        &self,
        servint_ispercent: bool,
        no_servicing_if_no_breakdowns: bool,
        vehicle_breakdowns: u8,
        pending_autoreplace: bool,
    ) -> (r: bool)
        ensures
            r == (self.running && (if servint_ispercent {
                self.spec_interval_due_percent()
            } else {
                self.spec_interval_due_days()
            }) && (!no_servicing_if_no_breakdowns || vehicle_breakdowns != 0 || pending_autoreplace)),
    {
        if !self.running {
            return false;
        }
        if !self.interval_requires_service(servint_ispercent) {
            return false;
        }
        if !no_servicing_if_no_breakdowns || vehicle_breakdowns != 0 {
            return true;
        }
        pending_autoreplace
    }

    /// Stopped by an active breakdown (`breakdown_ctr == 1`); aircraft never stop.
    pub fn is_broken_down(&self) -> (r: bool)
        ensures
            r == (self.breakdown_ctr == 1 && self.kind != VehicleKind::Aircraft),
    {
        self.breakdown_ctr == 1 && self.kind != VehicleKind::Aircraft
    }

    pub open spec fn spec_primary_for_aging(&self) -> bool {
        &&& self.prev_unit is None
        &&& self.kind == VehicleKind::Train ==> match self.engine_id {
            None => true,
            Some(id) => !spec_engine_is_wagon(spec_engine_for_vehicle(self.kind, id)),
        }
    }

    fn is_primary_for_aging(&self) -> (r: bool)
        ensures
            r == self.spec_primary_for_aging(),
    {
        if self.prev_unit.is_some() {
            return false;
        }
        if self.kind == VehicleKind::Train {
            return match self.engine_id {
                None => true,
                Some(id) => engine_for_vehicle(self.kind, id).is_train_engine(),
            };
        }
        true
    }

    /// `AgeVehicle`: doubles `reliability_spd_dec` (saturating) on the day the
    /// age passes the design life by exactly 0, 1, 2, 3 or 4 vehicle years.
    pub fn age_vehicle_calendar_day(&mut self, calendar_day: u64)
        ensures
            ({
                let past = spec_days_past_max(*old(self), calendar_day);
                let doubles = old(self).spec_primary_for_aging() && past % (DAYS_PER_VEHICLE_YEAR as int) == 0
                    && past / (DAYS_PER_VEHICLE_YEAR as int) <= 4;
                final(self).reliability_spd_dec == (if doubles {
                    if old(self).reliability_spd_dec * 2 > u16::MAX {
                        u16::MAX
                    } else {
                        (old(self).reliability_spd_dec * 2) as u16
                    }
                } else {
                    old(self).reliability_spd_dec
                })
            }),
            final(self).reliability == old(self).reliability,
    {
        if !self.is_primary_for_aging() {
            return;
        }
        let build_day = self.build_tick / TICKS_PER_DAY;
        let age_days = calendar_day.saturating_sub(build_day);
        let past_max = age_days.saturating_sub(self.max_age_days as u64);
        let mut i: u64 = 0;
        while i <= 4
            invariant
                i <= 5,
                self.reliability_spd_dec == old(self).reliability_spd_dec,
                self.reliability == old(self).reliability,
                past_max as int == spec_days_past_max(*old(self), calendar_day),
                old(self).spec_primary_for_aging(),
                !(past_max % 366 == 0 && past_max / 366 < i),
            decreases 5 - i,
        {
            if past_max == i * (DAYS_PER_VEHICLE_YEAR as u64) {
                self.reliability_spd_dec = if self.reliability_spd_dec > u16::MAX / 2 {
                    u16::MAX
                } else {
                    self.reliability_spd_dec * 2
                };
                proof {
                    assert(past_max % 366 == 0 && past_max / 366 == i) by (nonlinear_arith)
                        requires
                            past_max == i * 366,
                    ;
                }
                return;
            }
            proof {
                if past_max % 366 == 0 && past_max / 366 == i {
                    assert(past_max == i * 366) by (nonlinear_arith)
                        requires
                            past_max % 366 == 0,
                            i == past_max / 366,
                    ;
                }
            }
            i = i + 1;
        }
    }

    /// Takes part in the daily economy handler: all rail, ship and aircraft
    /// units; only heads of road vehicles.
    pub open spec fn spec_participates_in_economy_day(&self) -> bool {
        match self.kind {
            VehicleKind::Train | VehicleKind::Ship | VehicleKind::Aircraft => true,
            _ => self.prev_unit is None,
        }
    }

    fn participates_in_economy_day(&self) -> (r: bool)
        ensures
            r == self.spec_participates_in_economy_day(),
    {
        match self.kind {
            VehicleKind::Train | VehicleKind::Ship | VehicleKind::Aircraft => true,
            VehicleKind::Bus | VehicleKind::Truck | VehicleKind::Tram => self.prev_unit.is_none(),
        }
    }

    /// Counts one economy day of age, capped at the largest economy date.
    pub fn age_vehicle_economy_day(&mut self)
        ensures
            final(self).economy_age_days == (if !old(self).spec_participates_in_economy_day() {
                old(self).economy_age_days
            } else if old(self).economy_age_days >= MAX_ECONOMY_AGE_DAYS {
                MAX_ECONOMY_AGE_DAYS
            } else {
                (old(self).economy_age_days + 1) as u32
            }),
    {
        if !self.participates_in_economy_day() {
            return;
        }
        if self.economy_age_days > MAX_ECONOMY_AGE_DAYS {
            self.economy_age_days = MAX_ECONOMY_AGE_DAYS;
        }
        if self.economy_age_days < MAX_ECONOMY_AGE_DAYS {
            self.economy_age_days = self.economy_age_days + 1;
        }
    }

    /// Advances the day counter of units that run the economy handler;
    /// returns whether the counter reached a multiple of 8.
    pub fn advance_newgrf_day_counter(&mut self) -> (r: bool)
        ensures
            !old(self).spec_participates_in_economy_day() ==> !r && final(self).newgrf_day_counter
                == old(self).newgrf_day_counter,
            old(self).spec_participates_in_economy_day() ==> final(self).newgrf_day_counter == (
            old(self).newgrf_day_counter + 1) % 256 && r == (final(self).newgrf_day_counter % 8
                == 0),
    {
        if !self.participates_in_economy_day() {
            return false;
        }
        self.newgrf_day_counter = self.newgrf_day_counter.wrapping_add(1);
        self.newgrf_day_counter % 8 == 0
    }

    /// `DecreaseVehicleValue`: loses 1/256 of the value (arithmetic shift).
    pub fn decrease_vehicle_value(&mut self)
        ensures
            final(self).value == old(self).value - (old(self).value >> 8),
    {
        proof {
            let v = self.value;
            assert(v >> 8 == v / 256) by (bit_vector);
        }
        self.value = self.value - (self.value >> 8);
    }

    /// Daily reliability decay and breakdown-risk accumulation with normal breakdowns.
    pub fn check_vehicle_breakdown(&mut self, rng: &mut Randomizer)
        ensures
            final(self).reliability == spec_decay_reliability(
                old(self).reliability,
                old(self).reliability_spd_dec,
            ),
            spec_breakdown_outcome(*old(self), *final(self), old(rng).state, final(rng).state, 2),
    {
        self.check_vehicle_breakdown_with_setting(rng, 2, false);
    }

    /// Daily breakdown check under a breakdown setting (0 none, 1 reduced,
    /// 2 normal): reliability decays, the service flag is refreshed, and a
    /// running unit at speed may accumulate chance and start a breakdown.
    pub fn check_vehicle_breakdown_with_setting(
        &mut self,
        rng: &mut Randomizer,
        breakdown_level: u8,
        no_servicing_if_no_breakdowns: bool,
    )
        ensures
            breakdown_level == 0 && no_servicing_if_no_breakdowns ==> final(self).reliability
                == old(self).reliability && final(self).breakdown_chance
                == old(self).breakdown_chance && final(self).breakdown_ctr
                == old(self).breakdown_ctr && final(rng).state == old(rng).state,
            !(breakdown_level == 0 && no_servicing_if_no_breakdowns) ==> {
                &&& final(self).reliability == spec_decay_reliability(
                    old(self).reliability,
                    old(self).reliability_spd_dec,
                )
                &&& spec_breakdown_outcome(
                    *old(self),
                    *final(self),
                    old(rng).state,
                    final(rng).state,
                    breakdown_level,
                )
            },
    {
        if breakdown_level == 0 && no_servicing_if_no_breakdowns {
            return;
        }
        self.reliability = decay_reliability(self.reliability, self.reliability_spd_dec);
        self.needs_servicing = self.requires_service();
        if breakdown_level == 0 || !self.running || self.awaiting_load_window
            || self.cargo_transfer_active() {
            return;
        }
        if self.breakdown_ctr != 0 {
            return;
        }
        if self.cur_speed < MIN_SPEED_FOR_BREAKDOWN {
            return;
        }
        let r = rng.next();
        let mut chance: u16 = self.breakdown_chance as u16 + 1;
        if chance16i(1, 25, r) {
            chance = chance + 25;
        }
        self.breakdown_chance = if chance > 255 {
            255
        } else {
            chance as u8
        };
        let idx = breakdown_table_index(self.reliability, self.kind, breakdown_level == 1);
        let threshold = BREAKDOWN_CHANCE_TABLE[idx];
        if (threshold as u16) > chance {
            return;
        }
        self.breakdown_ctr = extract_bits(r, 16, 6) + 0x3F;
        self.breakdown_delay = extract_bits(r, 24, 7) + 0x80;
        self.breakdown_chance = 0;
    }

    /// Breakdown phases during movement; returns whether the vehicle stays
    /// stopped this tick. Counter 2 starts the breakdown, 1 is the active
    /// breakdown, larger values count down while loading is idle.
    pub fn handle_breakdown(&mut self, tick: u64) -> (r: bool)
        ensures
            old(self).breakdown_ctr == 0 ==> !r && final(self).breakdown_ctr == 0,
            old(self).breakdown_ctr == 2 ==> {
                &&& final(self).breakdowns_since_last_service as int == if old(self).breakdowns_since_last_service
                    == u8::MAX {
                    u8::MAX as int
                } else {
                    old(self).breakdowns_since_last_service + 1
                }
                &&& old(self).kind == VehicleKind::Aircraft ==> !r && final(self).breakdown_ctr
                    == 1 && final(self).cur_speed == old(self).cur_speed
                &&& old(self).kind != VehicleKind::Aircraft ==> r && final(self).cur_speed == 0
                    && spec_active_breakdown_step(*old(self), *final(self), 1)
            },
            old(self).breakdown_ctr == 1 ==> {
                &&& old(self).kind == VehicleKind::Aircraft ==> !r && final(self).breakdown_ctr
                    == 1 && final(self).breakdown_delay == old(self).breakdown_delay
                &&& old(self).kind != VehicleKind::Aircraft ==> r && spec_active_breakdown_step(
                    *old(self),
                    *final(self),
                    1,
                )
            },
            old(self).breakdown_ctr > 2 ==> !r && final(self).breakdown_ctr == (if old(self).cargo_loading
                || old(self).cargo_unloading {
                old(self).breakdown_ctr
            } else {
                (old(self).breakdown_ctr - 1) as u8
            }),
    {
        if self.breakdown_ctr == 0 {
            false
        } else if self.breakdown_ctr == 2 {
            self.breakdown_ctr = 1;
            self.breakdowns_since_last_service = self.breakdowns_since_last_service.saturating_add(
                1,
            );
            if self.kind == VehicleKind::Aircraft {
                return false;
            }
            self.cur_speed = 0;
            self.advance_active_breakdown();
            true
        } else if self.breakdown_ctr == 1 {
            if self.kind == VehicleKind::Aircraft {
                return false;
            }
            self.advance_active_breakdown();
            true
        } else {
            if !self.cargo_loading && !self.cargo_unloading {
                self.breakdown_ctr = self.breakdown_ctr - 1;
            }
            false
        }
    }

    /// Applies the native cadence (every 4th tick for rail, every 2nd
    /// otherwise) to an active breakdown.
    fn advance_active_breakdown(&mut self)
        ensures
            spec_active_breakdown_step(*old(self), *final(self), old(self).breakdown_ctr),
            final(self).cur_speed == old(self).cur_speed,
            final(self).breakdowns_since_last_service == old(self).breakdowns_since_last_service,
    {
        let cadence: u8 = if self.kind == VehicleKind::Train {
            4
        } else {
            2
        };
        if self.newgrf_tick_counter % cadence == 0 && self.breakdown_delay > 0 {
            self.breakdown_delay = self.breakdown_delay - 1;
            if self.breakdown_delay == 0 {
                self.breakdown_ctr = 0;
            }
        }
    }

    /// Advances the timetable stopwatch of the current order.
    pub fn tick_timetable_clock(&mut self)
        ensures
            final(self).current_order_time == (if old(self).timetable_active {
                if old(self).current_order_time == u32::MAX {
                    u32::MAX
                } else {
                    (old(self).current_order_time + 1) as u32
                }
            } else {
                old(self).current_order_time
            }),
    {
        if self.timetable_active {
            self.current_order_time = self.current_order_time.saturating_add(1);
        }
    }

    /// `UpdateVehicleTimetable` on arrival (`travelling`) or departure:
    /// starts the timetable on the first travelled order, fills in times in
    /// autofill mode, and otherwise updates the lateness.
    #[verifier::spinoff_prover]
    #[verifier::rlimit(100)]
    pub fn update_vehicle_timetable(&mut self, travelling: bool)
        ensures
            timetable_updated(*old(self), *final(self), travelling),
    {
        let time_taken = self.current_order_time;
        self.current_order_time = 0;
        if !self.timetable_active {
            return;
        }
        if self.current_order >= self.orders.len() {
            return;
        }
        let order = self.orders[self.current_order];
        if order.is_conditional() {
            return;
        }
        let just_started = travelling && self.current_order == 0 && !self.timetable_started;
        if just_started {
            self.start_timetable();
            return;
        }
        if !self.timetable_started {
            return;
        }
        if self.timetable_autofill {
            self.autofill_current_order(order, time_taken, travelling);
            return;
        }
        let timetabled = if travelling {
            order.travel_ticks()
        } else {
            order.wait_ticks()
        };
        if timetabled == 0 && (travelling || self.timetable_lateness >= 0) {
            return;
        }
        self.apply_lateness(timetabled, time_taken);
    }

    /// Starts the timetable; a delayed start becomes the initial lateness.
    fn start_timetable(&mut self)
        ensures
            *final(self) == (Vehicle {
                timetable_started: true,
                timetable_start: 0,
                timetable_lateness: if old(self).timetable_start != 0 {
                    (if old(self).sim_tick >= old(self).timetable_start {
                        if old(self).sim_tick - old(self).timetable_start > i32::MAX {
                            i32::MAX as int
                        } else {
                            old(self).sim_tick - old(self).timetable_start
                        }
                    } else {
                        0
                    }) as i32
                } else {
                    old(self).timetable_lateness
                },
                ..*old(self)
            }),
    {
        if self.timetable_start != 0 {
            let d = self.sim_tick.saturating_sub(self.timetable_start as u64);
            self.timetable_lateness = if d > i32::MAX as u64 {
                i32::MAX
            } else {
                d as i32
            };
            self.timetable_start = 0;
        }
        self.timetable_started = true;
    }

    /// Writes the time taken, rounded, into the current order; the first
    /// travelled order of a cycle ends autofill.
    fn autofill_current_order(&mut self, order: VehicleOrder, time_taken: u32, travelling: bool)
        requires
            old(self).current_order < old(self).orders@.len(),
            old(self).orders@[old(self).current_order as int] == order,
        ensures
            ({
                let rounded = spec_round_timetable_ticks(if time_taken == 0 { 1 } else { time_taken });
                &&& *final(self) == (Vehicle {
                    orders: final(self).orders,
                    timetable_autofill: if travelling && old(self).current_order == 0 {
                        false
                    } else {
                        old(self).timetable_autofill
                    },
                    ..*old(self)
                })
                &&& final(self).orders@ == old(self).orders@.update(
                    old(self).current_order as int,
                    if travelling {
                        order.spec_with_travel(rounded)
                    } else {
                        order.spec_with_wait(rounded)
                    },
                )
            }),
    {
        let rounded = round_timetable_ticks(
            if time_taken == 0 {
                1
            } else {
                time_taken
            },
        );
        let idx = self.current_order;
        if travelling {
            let updated = order.with_travel_ticks(rounded);
            self.orders.set(idx, updated);
        } else {
            match order.with_wait_ticks(rounded) {
                Some(updated) => {
                    self.orders.set(idx, updated);
                },
                None => {
                    proof {
                        assert(self.orders@.update(idx as int, order.spec_with_wait(rounded))
                            =~= self.orders@);
                    }
                },
            }
        }
        if travelling && self.current_order == 0 {
            self.timetable_autofill = false;
        }
    }

    /// Moves the lateness by the difference between the timetabled and the
    /// taken time, saturating and wrapping modulo the timetable cycle.
    fn apply_lateness(&mut self, timetabled: u32, time_taken: u32)
        ensures
            *final(self) == (Vehicle {
                timetable_lateness: spec_lateness_after(
                    old(self).timetable_lateness,
                    timetabled,
                    time_taken,
                    cycle_sum(old(self).orders@),
                ) as i32,
                ..*old(self)
            }),
    {
        let cycle = orders_cycle_sum(&self.orders);
        proof {
            lemma_cycle_sum_nonneg(self.orders@);
        }
        self.timetable_lateness = lateness_after(self.timetable_lateness, timetabled, time_taken, cycle);
    }
}

fn lateness_after(lateness: i32, timetabled: u32, time_taken: u32, cycle: u32) -> (r: i32)
    ensures
        r as int == spec_lateness_after(lateness, timetabled, time_taken, cycle as int),
{
    let tt: i32 = if timetabled > i32::MAX as u32 {
        i32::MAX
    } else {
        timetabled as i32
    };
    let tk: i32 = if time_taken > i32::MAX as u32 {
        i32::MAX
    } else {
        time_taken as i32
    };
    let delta = tt - tk;
    let raw: i64 = lateness as i64 - delta as i64;
    let l: i32 = if raw > i32::MAX as i64 {
        i32::MAX
    } else if raw < i32::MIN as i64 {
        i32::MIN
    } else {
        raw as i32
    };
    if l > tt && cycle > 0 && cycle <= i32::MAX as u32 && l > cycle as i32 {
        l % (cycle as i32)
    } else {
        l
    }
}

/// Value of a conditional-order variable for a vehicle.
pub open spec fn spec_condition_value(condition: OrderConditionKind, v: Vehicle) -> int {
    let age = (if v.sim_tick >= v.build_tick {
        (v.sim_tick - v.build_tick) as int
    } else {
        0
    }) / TICKS_PER_DAY as int;
    match condition {
        OrderConditionKind::CargoLoadAbove | OrderConditionKind::CargoLoadBelow
        | OrderConditionKind::LoadPercentage => if v.capacity == 0 {
            0
        } else if (v.cargo as int) * 100 / (v.capacity as int) > 100 {
            100
        } else {
            (v.cargo as int) * 100 / (v.capacity as int)
        },
        OrderConditionKind::Reliability | OrderConditionKind::MaxReliability => if (v.reliability as int)
            / 100 > 100 {
            100
        } else {
            (v.reliability as int) / 100
        },
        OrderConditionKind::MaxSpeed => if v.cached_max_speed == u16::MAX {
            0
        } else {
            v.cached_max_speed as int
        },
        OrderConditionKind::Age => if age > u16::MAX {
            u16::MAX as int
        } else {
            age
        },
        OrderConditionKind::RequiresService => if v.needs_servicing {
            1
        } else {
            0
        },
        OrderConditionKind::Unconditionally => 1,
        OrderConditionKind::RemainingLifetime => {
            let left = if v.max_age_days >= age {
                v.max_age_days - age
            } else {
                0
            };
            if left > u16::MAX {
                u16::MAX as int
            } else {
                left
            }
        },
        OrderConditionKind::DrivingBackwards => 0,
    }
}

/// Whether a conditional order's condition holds for a vehicle.
pub open spec fn spec_condition_holds(
    condition: OrderConditionKind,
    comparator: OrderConditionComparator,
    value: u16,
    v: Vehicle,
) -> bool {
    let lhs = spec_condition_value(condition, v);
    let op = effective_comparator(condition, comparator);
    let v1: int = if value > 1 {
        1
    } else {
        value as int
    };
    match condition {
        OrderConditionKind::Unconditionally => true,
        OrderConditionKind::RequiresService | OrderConditionKind::DrivingBackwards => match op {
            OrderConditionComparator::IsFalse => lhs == 0,
            OrderConditionComparator::Equal => lhs == v1,
            OrderConditionComparator::NotEqual => lhs != v1,
            _ => lhs != 0,
        },
        _ => spec_compare(op, lhs as u16, value),
    }
}

impl VehicleOrder {
    /// Value of the conditional variable `condition` for `vehicle`.
    pub fn condition_value(condition: OrderConditionKind, vehicle: &Vehicle) -> (r: u16)
        ensures
            r as int == spec_condition_value(condition, *vehicle),
    {
        match condition {
            OrderConditionKind::CargoLoadAbove | OrderConditionKind::CargoLoadBelow
            | OrderConditionKind::LoadPercentage => {
                if vehicle.capacity == 0 {
                    0
                } else {
                    let pct: u64 = (vehicle.cargo as u64) * 100 / (vehicle.capacity as u64);
                    if pct > 100 {
                        100
                    } else {
                        pct as u16
                    }
                }
            },
            OrderConditionKind::Reliability | OrderConditionKind::MaxReliability => {
                let p = vehicle.reliability / 100;
                if p > 100 {
                    100
                } else {
                    p
                }
            },
            OrderConditionKind::MaxSpeed => {
                if vehicle.cached_max_speed == u16::MAX {
                    0
                } else {
                    vehicle.cached_max_speed
                }
            },
            OrderConditionKind::Age => {
                let days = vehicle.vehicle_age_days(vehicle.sim_tick);
                if days > u16::MAX as u64 {
                    u16::MAX
                } else {
                    days as u16
                }
            },
            OrderConditionKind::RequiresService => {
                if vehicle.needs_servicing {
                    1
                } else {
                    0
                }
            },
            OrderConditionKind::Unconditionally => 1,
            OrderConditionKind::RemainingLifetime => {
                let age = vehicle.vehicle_age_days(vehicle.sim_tick);
                let left = (vehicle.max_age_days as u64).saturating_sub(age);
                if left > u16::MAX as u64 {
                    u16::MAX
                } else {
                    left as u16
                }
            },
            OrderConditionKind::DrivingBackwards => 0,
        }
    }

    /// Order index a vehicle continues with at this order: the jump target
    /// when a conditional's condition holds, else the next order (wrapping;
    /// 0 without orders). Non-conditional orders keep the current index.
    pub fn evaluate_conditional(self, vehicle: &Vehicle) -> (r: usize)
        requires
            vehicle.current_order < usize::MAX,
        ensures
            !(self is Conditional) ==> r == vehicle.current_order,
            self matches VehicleOrder::Conditional { condition, comparator, value, jump_to } ==> r
                == (if spec_condition_holds(condition, comparator, value, *vehicle) {
                jump_to as int
            } else if vehicle.orders@.len() == 0 {
                0
            } else {
                (vehicle.current_order + 1) % (vehicle.orders@.len() as int)
            }),
    {
        match self {
            VehicleOrder::Conditional { condition, comparator, value, jump_to } => {
                let lhs = Self::condition_value(condition, vehicle);
                let comparator = match condition.legacy_comparator() {
                    Some(c) => c,
                    None => comparator,
                };
                let v1: u16 = if value > 1 {
                    1
                } else {
                    value
                };
                let ok = match condition {
                    OrderConditionKind::Unconditionally => true,
                    OrderConditionKind::RequiresService | OrderConditionKind::DrivingBackwards => {
                        match comparator {
                            OrderConditionComparator::IsFalse => lhs == 0,
                            OrderConditionComparator::Equal => lhs == v1,
                            OrderConditionComparator::NotEqual => lhs != v1,
                            _ => lhs != 0,
                        }
                    },
                    _ => comparator.compare(lhs, value),
                };
                if ok {
                    jump_to
                } else if vehicle.orders.len() == 0 {
                    0
                } else {
                    (vehicle.current_order + 1) % vehicle.orders.len()
                }
            },
            _ => vehicle.current_order,
        }
    }
}

/// One tick of an active breakdown at counter `ctr_in`: on the cadence tick
/// with a delay left, the delay drops by one and the breakdown ends at zero.
pub open spec fn spec_active_breakdown_step(o: Vehicle, f: Vehicle, ctr_in: u8) -> bool {
    let cadence: int = if o.kind == VehicleKind::Train {
        4
    } else {
        2
    };
    if (o.newgrf_tick_counter as int) % cadence == 0 && o.breakdown_delay > 0 {
        &&& f.breakdown_delay == o.breakdown_delay - 1
        &&& f.breakdown_ctr == (if o.breakdown_delay == 1 {
            0
        } else {
            ctr_in
        })
    } else {
        f.breakdown_delay == o.breakdown_delay && f.breakdown_ctr == ctr_in
    }
}

/// Breakdown part of the daily check (after reliability decay): nothing
/// more happens when breakdowns are off, the unit is stopped, loading, in a
/// breakdown or slow; otherwise one random draw raises the chance and a
/// breakdown starts when the table threshold is reached.
pub open spec fn spec_breakdown_outcome(
    o: Vehicle,
    f: Vehicle,
    rng0: (u32, u32),
    rng1: (u32, u32),
    level: u8,
) -> bool {
    let idle = level == 0 || !o.running || o.awaiting_load_window || o.cargo_loading
        || o.cargo_unloading || o.breakdown_ctr != 0 || o.cur_speed < MIN_SPEED_FOR_BREAKDOWN;
    if idle {
        f.breakdown_chance == o.breakdown_chance && f.breakdown_ctr == o.breakdown_ctr
            && f.breakdown_delay == o.breakdown_delay && rng1 == rng0
    } else {
        let r = random_step(rng0).1;
        let chance: int = o.breakdown_chance + 1 + (if spec_chance16i(1, 25, r) {
            25int
        } else {
            0
        });
        let rel = spec_decay_reliability(o.reliability, o.reliability_spd_dec);
        let threshold = BREAKDOWN_CHANCE_TABLE@[spec_breakdown_table_index(rel, o.kind, level == 1)];
        &&& rng1 == random_step(rng0)
        &&& if threshold > chance {
            f.breakdown_chance == (if chance > 255 {
                255
            } else {
                chance
            }) && f.breakdown_ctr == o.breakdown_ctr && f.breakdown_delay == o.breakdown_delay
        } else {
            &&& f.breakdown_chance == 0
            &&& f.breakdown_ctr == spec_extract_bits(r, 16, 6) + 0x3F
            &&& f.breakdown_delay == spec_extract_bits(r, 24, 7) + 0x80
        }
    }
}

/// The timetable cycle of the orders, capped at `i32::MAX` (a longer cycle
/// never wraps a lateness).
fn orders_cycle_sum(orders: &Vec<VehicleOrder>) -> (r: u32)
    ensures
        r == if cycle_sum(orders@) > i32::MAX { i32::MAX as int } else { cycle_sum(orders@) },
{
    let mut s: u64 = 0;
    let mut i: usize = 0;
    while i < orders.len()
        invariant
            i <= orders@.len(),
            s <= i32::MAX,
            s as int == cycle_sum(orders@.subrange(0, i as int)),
        decreases orders@.len() - i,
    {
        proof {
            assert(orders@.subrange(0, i + 1).drop_last() =~= orders@.subrange(0, i as int));
        }
        let o = orders[i];
        let next: u64 = s + o.wait_ticks() as u64 + o.travel_ticks() as u64;
        if next > i32::MAX as u64 {
            proof {
                lemma_cycle_sum_prefix_le(orders@, i as int + 1);
            }
            return i32::MAX as u32;
        }
        s = next;
        i = i + 1;
    }
    assert(orders@.subrange(0, orders@.len() as int) =~= orders@);
    s as u32
}

proof fn lemma_cycle_sum_prefix_le(orders: Seq<VehicleOrder>, k: int)
    requires
        0 <= k <= orders.len(),
    ensures
        cycle_sum(orders.subrange(0, k)) <= cycle_sum(orders),
        cycle_sum(orders.subrange(0, k)) >= 0,
    decreases orders.len() - k,
{
    if k < orders.len() {
        lemma_cycle_sum_prefix_le(orders, k + 1);
        assert(orders.subrange(0, k + 1).drop_last() =~= orders.subrange(0, k));
    } else {
        assert(orders.subrange(0, k) =~= orders);
    }
    lemma_cycle_sum_nonneg(orders.subrange(0, k));
}

proof fn lemma_cycle_sum_nonneg(orders: Seq<VehicleOrder>)
    ensures
        cycle_sum(orders) >= 0,
    decreases orders.len(),
{
    if orders.len() > 0 {
        lemma_cycle_sum_nonneg(orders.drop_last());
    }
}

/// Law: a serviced vehicle is no longer due by the day interval on the day of service.
pub proof fn lemma_service_resets_day_interval(v: Vehicle, f: Vehicle)
    requires
        f.last_service_day == v.sim_tick / TICKS_PER_DAY,
        f.sim_tick == v.sim_tick,
        f.service_interval_days == v.service_interval_days,
    ensures
        !f.spec_interval_due_days(),
{
}

/// A station order (scheduled or implicit) for `s`.
pub open spec fn is_station_order_at(o: VehicleOrder, s: TileCoord) -> bool {
    match o {
        VehicleOrder::Station { station, .. } => station == s,
        _ => false,
    }
}

/// A scheduled (not implicit) station order for `s`.
pub open spec fn is_scheduled_station_at(o: VehicleOrder, s: TileCoord) -> bool {
    match o {
        VehicleOrder::Station { station, implicit, .. } => station == s && !implicit,
        _ => false,
    }
}

pub open spec fn sanitized_index(i: usize, n: int) -> int {
    if i < n { i as int } else { 0 }
}

/// How a visit to `station` treats the order list: 0 = nothing to do (not
/// a land vehicle with orders), 1 = scheduled stop (align the implicit
/// index), 2 = already listed at or just before the implicit index, 3 =
/// insert an implicit order.
pub open spec fn implicit_visit_case(before: Vehicle, station: TileCoord) -> int {
    let orders = before.orders@;
    let n = orders.len() as int;
    let cur = sanitized_index(before.current_order, n);
    let imp = sanitized_index(before.cur_implicit_order_index, n);
    let land = before.kind == VehicleKind::Train || before.kind == VehicleKind::Truck
        || before.kind == VehicleKind::Bus || before.kind == VehicleKind::Tram;
    let prev = if imp > 0 { imp - 1 } else if n > 1 { n - 1 } else { imp };
    if n == 0 || !land {
        0
    } else if is_scheduled_station_at(orders[cur], station) {
        1
    } else if is_station_order_at(orders[imp], station) || is_station_order_at(orders[prev], station) {
        2
    } else {
        3
    }
}

/// The order list after a visit to `station`.
pub open spec fn implicit_visit_orders(before: Vehicle, station: TileCoord) -> Seq<VehicleOrder> {
    let n = before.orders@.len() as int;
    let imp = sanitized_index(before.cur_implicit_order_index, n);
    if implicit_visit_case(before, station) == 3 {
        before.orders@.insert(imp, spec_station_order(station, OrderLoadType::LoadIfPossible, OrderUnloadType::UnloadIfPossible, OrderNonStop::NonStopDestination, true))
    } else {
        before.orders@
    }
}

/// The current order index after a visit to `station`.
pub open spec fn implicit_visit_current(before: Vehicle, station: TileCoord) -> usize {
    let n = before.orders@.len() as int;
    let cur = sanitized_index(before.current_order, n);
    let imp = sanitized_index(before.cur_implicit_order_index, n);
    let case = implicit_visit_case(before, station);
    if case == 0 {
        before.current_order
    } else if case == 3 && cur >= imp {
        (cur + 1) as usize
    } else {
        cur as usize
    }
}

/// The implicit order index after a visit to `station`.
pub open spec fn implicit_visit_implicit_index(before: Vehicle, station: TileCoord) -> usize {
    let n = before.orders@.len() as int;
    let cur = sanitized_index(before.current_order, n);
    let imp = sanitized_index(before.cur_implicit_order_index, n);
    let case = implicit_visit_case(before, station);
    if case == 0 {
        before.cur_implicit_order_index
    } else if case == 1 {
        cur as usize
    } else {
        imp as usize
    }
}

fn orders_with_implicit(orders: &Vec<VehicleOrder>, at: usize, station: TileCoord) -> (r: Vec<VehicleOrder>)
    requires
        at <= orders@.len(),
    ensures
        r@ == orders@.insert(at as int, spec_station_order(station, OrderLoadType::LoadIfPossible, OrderUnloadType::UnloadIfPossible, OrderNonStop::NonStopDestination, true)),
{
    let mut out = orders.clone();
    assert(out@ =~= orders@);
    out.insert(at, VehicleOrder::implicit(station));
    out
}

fn implicit_visit_case_exec(v: &Vehicle, station: TileCoord) -> (r: u8)
    ensures
        r == implicit_visit_case(*v, station),
{
    let n = v.orders.len();
    let land = match v.kind {
        VehicleKind::Train | VehicleKind::Truck | VehicleKind::Bus | VehicleKind::Tram => true,
        _ => false,
    };
    if n == 0 || !land {
        return 0;
    }
    let cur = if v.current_order < n { v.current_order } else { 0 };
    let imp = if v.cur_implicit_order_index < n { v.cur_implicit_order_index } else { 0 };
    if station_order_at(&v.orders[cur], station, true) {
        return 1;
    }
    let prev_idx = if imp > 0 {
        imp - 1
    } else if n > 1 {
        n - 1
    } else {
        imp
    };
    if station_order_at(&v.orders[imp], station, false) || station_order_at(&v.orders[prev_idx], station, false) {
        2
    } else {
        3
    }
}

fn station_order_at(o: &VehicleOrder, station: TileCoord, scheduled_only: bool) -> (r: bool)
    ensures
        r == if scheduled_only { is_scheduled_station_at(*o, station) } else { is_station_order_at(*o, station) },
{
    match o {
        VehicleOrder::Station { station: s, implicit, .. } => *s == station && (!scheduled_only || !*implicit),
        _ => false,
    }
}

impl Vehicle {
    /// Records a visit to `station`; a land vehicle with orders that was not
    /// scheduled there gets an implicit order for it at its implicit index,
    /// unless that order or the one before already names the station.
    #[verifier::spinoff_prover]
    #[verifier::rlimit(50)]
    pub fn maybe_insert_implicit_order(&mut self, station: TileCoord)
        ensures
            *final(self) == (Vehicle {
                orders: final(self).orders,
                current_order: final(self).current_order,
                cur_implicit_order_index: final(self).cur_implicit_order_index,
                last_station_visited: Some(station),
                ..*old(self)
            }),
            final(self).orders@ == implicit_visit_orders(*old(self), station),
            final(self).current_order == implicit_visit_current(*old(self), station),
            final(self).cur_implicit_order_index == implicit_visit_implicit_index(*old(self), station),
    {
        let n = self.orders.len();
        let cur = if self.current_order < n { self.current_order } else { 0 };
        let imp = if self.cur_implicit_order_index < n { self.cur_implicit_order_index } else { 0 };
        let case = implicit_visit_case_exec(self, station);
        let new_cur = if case == 0 {
            self.current_order
        } else if case == 3 && cur >= imp {
            cur + 1
        } else {
            cur
        };
        let new_imp = if case == 0 {
            self.cur_implicit_order_index
        } else if case == 1 {
            cur
        } else {
            imp
        };
        let new_orders = if case == 3 {
            orders_with_implicit(&self.orders, imp, station)
        } else {
            let c = self.orders.clone();
            assert(c@ =~= self.orders@);
            c
        };
        self.orders = new_orders;
        self.current_order = new_cur;
        self.cur_implicit_order_index = new_imp;
        self.last_station_visited = Some(station);
    }
}

/// Heading shown halfway through a turn from `entry` to `exit`: the cardinal
/// direction between the two diagonals, or `entry` when they do not form a turn.
pub open spec fn spec_turn_cardinal_direction(entry: u8, exit: u8) -> u8 {
    if (entry == DIR_NE && exit == DIR_SE) || (entry == DIR_SE && exit == DIR_NE) {
        DIR_E
    } else if (entry == DIR_SE && exit == DIR_SW) || (entry == DIR_SW && exit == DIR_SE) {
        DIR_S
    } else if (entry == DIR_SW && (exit == DIR_NW || exit == DIR_NE)) || ((entry == DIR_NW || entry == DIR_NE) && exit == DIR_SW) {
        DIR_W
    } else if (entry == DIR_NW && (exit == DIR_NE || exit == DIR_SE)) || ((entry == DIR_NE || entry == DIR_SE) && exit == DIR_NW) {
        DIR_N
    } else {
        entry
    }
}

fn turn_cardinal_direction(entry: u8, exit: u8) -> (r: u8)
    ensures
        r == spec_turn_cardinal_direction(entry, exit),
{
    if (entry == DIR_NE && exit == DIR_SE) || (entry == DIR_SE && exit == DIR_NE) {
        DIR_E
    } else if (entry == DIR_SE && exit == DIR_SW) || (entry == DIR_SW && exit == DIR_SE) {
        DIR_S
    } else if (entry == DIR_SW && (exit == DIR_NW || exit == DIR_NE)) || ((entry == DIR_NW || entry == DIR_NE) && exit == DIR_SW) {
        DIR_W
    } else if (entry == DIR_NW && (exit == DIR_NE || exit == DIR_SE)) || ((entry == DIR_NE || entry == DIR_SE) && exit == DIR_NW) {
        DIR_N
    } else {
        entry
    }
}

/// Offsets to the destination fit in `i32` (needed to step towards it).
pub open spec fn dest_offset_fits(v: Vehicle) -> bool {
    i32::MIN <= v.dest.x - v.pos.x <= i32::MAX && i32::MIN <= v.dest.y - v.pos.y <= i32::MAX
}

/// Rail history tiles a train remembers for placing its wagons.
pub const RAIL_HISTORY_CAP: usize = 32;

/// Speed left after turning from the current heading to `new_dir`.
pub open spec fn speed_after_turn(v: Vehicle, new_dir: u8, rail_type: usize, train_turn_slowdown: bool) -> u16 {
    if new_dir == v.direction {
        v.cur_speed
    } else {
        match v.kind {
            VehicleKind::Train => if train_turn_slowdown {
                let short_turn = spec_dir_difference(v.direction, new_dir) == 1 || spec_dir_difference(
                    v.direction,
                    new_dir,
                ) == 7;
                let turn: int = if short_turn { if rail_type >= 2 { 0 } else { 64 } } else { 128 };
                let penalty = turn * v.cur_speed / 256;
                if penalty > v.cur_speed { 0 } else { (v.cur_speed - penalty) as u16 }
            } else {
                v.cur_speed
            },
            _ => (v.cur_speed - v.cur_speed / 4) as u16,
        }
    }
}

/// `v` after turning round on the spot when its next tile lies behind it.
pub open spec fn turned_round_on_the_spot(v: Vehicle, rail_type: usize, train_turn_slowdown: bool) -> Vehicle {
    match spec_movement_target(v) {
        None => v,
        Some(next) => {
            let outbound = spec_direction_from_tile_step(v.pos, next);
            if outbound != (v.direction + 4) % 8 {
                v
            } else {
                Vehicle {
                    cur_speed: speed_after_turn(v, outbound, rail_type, train_turn_slowdown),
                    direction: outbound,
                    depart_turn: 0,
                    progress: if v.progress == 255 { 0 } else { v.progress },
                    ..v
                }
            }
        },
    }
}

/// The rail history `h` (most recent first) after leaving `left`: only
/// trains keep one; a repeat of the newest tile is not recorded again, and
/// only the newest `RAIL_HISTORY_CAP` tiles are kept.
pub open spec fn rail_history_pushed(kind: VehicleKind, h: Seq<TileCoord>, left: TileCoord) -> Seq<TileCoord> {
    if kind != VehicleKind::Train {
        h
    } else {
        let h1 = if h.len() > 0 && h[0] == left { h } else { seq![left] + h };
        if h1.len() > RAIL_HISTORY_CAP { h1.take(RAIL_HISTORY_CAP as int) } else { h1 }
    }
}

/// The tile the vehicle is heading into: the first tile of its route; with
/// no route, a free road vehicle without orders steps one tile towards its
/// destination (along X first); a rail, water or air vehicle never leaves
/// its network without a route.
pub open spec fn spec_movement_target(v: Vehicle) -> Option<TileCoord> {
    if !v.running {
        None
    } else if v.path@.len() > 0 {
        Some(v.path@[0])
    } else if v.pos == v.dest {
        None
    } else if v.kind == VehicleKind::Train || v.kind == VehicleKind::Ship || v.kind == VehicleKind::Aircraft {
        None
    } else if v.orders@.len() > 0 {
        None
    } else if v.dest.x != v.pos.x {
        Some(TileCoord { x: (v.pos.x + if v.dest.x > v.pos.x { 1int } else { -1int }) as i32, y: v.pos.y })
    } else {
        Some(TileCoord { x: v.pos.x, y: (v.pos.y + if v.dest.y > v.pos.y { 1int } else { -1int }) as i32 })
    }
}

impl Vehicle {
    /// Turns to `new_dir`, losing speed on the turn: a road vehicle, ship
    /// or aircraft a quarter of it; a train, when turn slowdown applies
    /// (original acceleration), the short- or long-turn share of its rail
    /// type (`rail_type`: 0 normal, 1 monorail, 2 maglev; larger values
    /// count as maglev).
    pub fn set_direction_with_curve_penalty(&mut self, new_dir: u8, rail_type: usize, train_turn_slowdown: bool)
        ensures
            *final(self) == (Vehicle {
                cur_speed: speed_after_turn(*old(self), new_dir, rail_type, train_turn_slowdown),
                direction: new_dir,
                ..*old(self)
            }),
    {
        if new_dir != self.direction {
            match self.kind {
                VehicleKind::Train => {
                    if train_turn_slowdown {
                        let idx = if rail_type > 2 { 2 } else { rail_type };
                        let params = accel_slowdown(idx);
                        let turn = if is_45_degree_turn(self.direction, new_dir) {
                            params.small_turn
                        } else {
                            params.large_turn
                        };
                        proof {
                            assert(turn as u32 * self.cur_speed as u32 <= 255 * 65535) by (nonlinear_arith)
                                requires
                                    turn <= 255,
                                    self.cur_speed <= 65535,
                            ;
                        }
                        let penalty: u32 = (turn as u32 * self.cur_speed as u32) / 256;
                        self.cur_speed = if penalty > self.cur_speed as u32 {
                            0
                        } else {
                            (self.cur_speed as u32 - penalty) as u16
                        };
                    }
                },
                _ => {
                    self.cur_speed = self.cur_speed - self.cur_speed / 4;
                },
            }
        }
        self.direction = new_dir;
    }

    /// A train whose next tile lies straight behind it turns round on the
    /// spot: it takes the reverse heading (with the turn's speed loss),
    /// forgets its departure turn, and restarts a finished tile.
    pub fn apply_immediate_train_turnaround(&mut self, rail_type: usize, train_turn_slowdown: bool)
        requires
            dest_offset_fits(*old(self)),
            old(self).direction + 4 <= u8::MAX,
        ensures
            *final(self) == turned_round_on_the_spot(*old(self), rail_type, train_turn_slowdown),
    {
        let next = match self.movement_target() {
            Some(n) => n,
            None => {
                return;
            },
        };
        let outbound = direction_from_tile_step(self.pos, next);
        if outbound != reverse_direction(self.direction) {
            return;
        }
        self.set_direction_with_curve_penalty(outbound, rail_type, train_turn_slowdown);
        self.depart_turn = 0;
        if self.progress == 255 {
            self.progress = 0;
        }
    }

    /// Records `left` as the most recent tile of a train's rail history
    /// (not twice in a row), keeping the 32 most recent.
    pub fn push_rail_tile_history(&mut self, left: TileCoord)
        ensures
            *final(self) == (Vehicle { rail_tile_history: final(self).rail_tile_history, ..*old(self) }),
            final(self).rail_tile_history@ == rail_history_pushed(old(self).kind, old(self).rail_tile_history@, left),
    {
        if self.kind != VehicleKind::Train {
            return;
        }
        let ghost v0 = *self;
        let ghost h = self.rail_tile_history@;
        if !(self.rail_tile_history.len() > 0 && self.rail_tile_history[0] == left) {
            self.rail_tile_history.insert(0, left);
            assert(self.rail_tile_history@ =~= seq![left] + h);
        }
        let ghost h1 = self.rail_tile_history@;
        while self.rail_tile_history.len() > RAIL_HISTORY_CAP
            invariant
                *self == (Vehicle { rail_tile_history: self.rail_tile_history, ..v0 }),
                h1.len() > RAIL_HISTORY_CAP ==> self.rail_tile_history@.len() >= RAIL_HISTORY_CAP,
                h1.len() <= RAIL_HISTORY_CAP ==> self.rail_tile_history@ == h1,
                self.rail_tile_history@ =~= h1.take(self.rail_tile_history@.len() as int),
                h1.len() >= self.rail_tile_history@.len(),
            decreases self.rail_tile_history@.len(),
        {
            self.rail_tile_history.pop();
        }
    }


    pub fn movement_target(&self) -> (r: Option<TileCoord>)
        requires
            dest_offset_fits(*self),
        ensures
            r == spec_movement_target(*self),
    {
        if !self.running {
            return None;
        }
        if self.path.len() > 0 {
            return Some(self.path[0]);
        }
        if self.pos == self.dest {
            return None;
        }
        match self.kind {
            VehicleKind::Train | VehicleKind::Ship | VehicleKind::Aircraft => {
                return None;
            },
            _ => {},
        }
        if self.orders.len() > 0 {
            return None;
        }
        let dx: i32 = self.dest.x - self.pos.x;
        let dy: i32 = self.dest.y - self.pos.y;
        if dx == 0 && dy == 0 {
            return None;
        }
        if dx != 0 {
            Some(TileCoord::new(self.pos.x + if dx > 0 { 1 } else { -1 }, self.pos.y))
        } else {
            Some(TileCoord::new(self.pos.x, self.pos.y + if dy > 0 { 1 } else { -1 }))
        }
    }

    /// Heading of the step under way (the current heading when not moving).
    pub fn movement_direction(&self) -> (r: u8)
        requires
            dest_offset_fits(*self),
        ensures
            r == match spec_movement_target(*self) {
                Some(next) => spec_direction_from_tile_step(self.pos, next),
                None => self.direction,
            },
    {
        match self.movement_target() {
            Some(next) => direction_from_tile_step(self.pos, next),
            None => self.direction,
        }
    }

    /// A road vehicle, ship or aircraft at least half full shows its loaded sprite.
    pub fn uses_loaded_road_sprite(&self) -> (r: bool)
        ensures
            r == (self.cargo >= self.capacity / 2 && self.kind != VehicleKind::Train),
    {
        if self.cargo < self.capacity / 2 {
            return false;
        }
        match self.kind {
            VehicleKind::Bus | VehicleKind::Truck | VehicleKind::Tram | VehicleKind::Ship | VehicleKind::Aircraft => true,
            VehicleKind::Train => false,
        }
    }

    /// Sprite heading: the heading into the next tile, except in the second
    /// half of a tile where the route turns, which shows the cardinal
    /// direction between entry and exit.
    pub fn render_direction(&self) -> (r: u8)
        requires
            dest_offset_fits(*self),
        ensures
            r == match spec_movement_target(*self) {
                None => self.direction,
                Some(next) => {
                    let entry = spec_direction_from_tile_step(self.pos, next);
                    if self.progress < 128 || self.path@.len() < 2 {
                        entry
                    } else {
                        let exit = spec_direction_from_tile_step(next, self.path@[1]);
                        if exit != entry { spec_turn_cardinal_direction(entry, exit) } else { entry }
                    }
                },
            },
    {
        let next = match self.movement_target() {
            None => return self.direction,
            Some(n) => n,
        };
        let entry = direction_from_tile_step(self.pos, next);
        if self.progress < 128 {
            return entry;
        }
        if self.path.len() >= 2 {
            let exit = direction_from_tile_step(next, self.path[1]);
            if exit != entry {
                return turn_cardinal_direction(entry, exit);
            }
        }
        entry
    }
}

/// Breakdown risk builds up day by day: when breakdowns are on and a running
/// unit that is not loading, not broken down and at speed does not start a
/// breakdown in its daily check, its breakdown chance grows by 1 (by 26 on
/// the one-in-25 draw), saturating at 255.
pub proof fn lemma_breakdown_chance_accumulates(
    o: Vehicle,
    f: Vehicle,
    rng0: (u32, u32),
    rng1: (u32, u32),
    level: u8,
)
    requires
        spec_breakdown_outcome(o, f, rng0, rng1, level),
        level != 0,
        o.running,
        !o.awaiting_load_window,
        !o.cargo_loading,
        !o.cargo_unloading,
        o.breakdown_ctr == 0,
        o.cur_speed >= 5,
        f.breakdown_ctr == 0,
    ensures
        f.breakdown_chance == (if o.breakdown_chance + 1 > 255 { 255 } else { o.breakdown_chance + 1 })
            || f.breakdown_chance == (if o.breakdown_chance + 26 > 255 {
            255
        } else {
            o.breakdown_chance + 26
        }),
        o.breakdown_chance < 255 ==> f.breakdown_chance > o.breakdown_chance,
        f.breakdown_delay == o.breakdown_delay,
{
    reveal_with_fuel(pow2_int, 7);
    assert(pow2_int(6) == 64);
    let r = random_step(rng0).1;
    assert(spec_extract_bits(r, 16, 6) >= 0);
}

/// What remains of a vehicle's life, as a conditional order reads it: its
/// maximum age less the whole days (74 ticks each) since it was built, never
/// below zero and capped at 65535. It never grows as the vehicle ages, and it
/// is zero once the vehicle has reached its maximum age.
pub proof fn lemma_remaining_lifetime(v: Vehicle, later: u64)
    requires
        later >= v.sim_tick,
    ensures
        ({
            let age_days: int = if v.sim_tick >= v.build_tick {
                (v.sim_tick - v.build_tick) / 74
            } else {
                0
            };
            let left: int = v.max_age_days - age_days;
            &&& spec_condition_value(OrderConditionKind::RemainingLifetime, v) == if left <= 0 {
                0
            } else if left > 65535 {
                65535
            } else {
                left
            }
            &&& age_days >= v.max_age_days ==> spec_condition_value(OrderConditionKind::RemainingLifetime, v) == 0
        }),
        spec_condition_value(OrderConditionKind::RemainingLifetime, (Vehicle { sim_tick: later, ..v }))
            <= spec_condition_value(OrderConditionKind::RemainingLifetime, v),
{
    if v.sim_tick >= v.build_tick {
        let a: int = (v.sim_tick - v.build_tick) as int;
        let b: int = (later - v.build_tick) as int;
        assert(a / 74 <= b / 74) by (nonlinear_arith)
            requires 0 <= a <= b;
    }
}

/// Reliability protects against breakdowns: a more reliable unit never
/// lands on a lower row of the breakdown table, so its breakdown threshold is
/// never lower (the table never falls from one row to the next); ships and
/// reduced breakdowns only raise it. Daily decay never raises reliability and
/// decays more for a larger speed decrement.
pub proof fn lemma_reliability_guards_against_breakdowns(
    rel1: u16,
    rel2: u16,
    kind: VehicleKind,
    reduced: bool,
    spd_dec1: u16,
    spd_dec2: u16,
)
    requires
        rel1 <= rel2,
        spd_dec1 <= spd_dec2,
    ensures
        0 <= spec_breakdown_table_index(rel1, kind, reduced) <= spec_breakdown_table_index(rel2, kind, reduced) < 64,
        BREAKDOWN_CHANCE_TABLE@[spec_breakdown_table_index(rel1, kind, reduced)]
            <= BREAKDOWN_CHANCE_TABLE@[spec_breakdown_table_index(rel2, kind, reduced)],
        BREAKDOWN_CHANCE_TABLE@[spec_breakdown_table_index(rel1, kind, false)]
            <= BREAKDOWN_CHANCE_TABLE@[spec_breakdown_table_index(rel1, kind, true)],
        BREAKDOWN_CHANCE_TABLE@[spec_breakdown_table_index(rel1, VehicleKind::Train, reduced)]
            <= BREAKDOWN_CHANCE_TABLE@[spec_breakdown_table_index(rel1, VehicleKind::Ship, reduced)],
        spec_decay_reliability(rel1, spd_dec1) <= rel1,
        spec_decay_reliability(rel1, spd_dec2) <= spec_decay_reliability(rel1, spd_dec1),
        spd_dec1 < 7 ==> spec_decay_reliability(rel1, spd_dec1) == rel1,
{
    let t = BREAKDOWN_CHANCE_TABLE@;
    assert(t =~= seq![
        3u8, 3, 3, 3, 3, 3, 3, 3, 4, 4, 5, 5, 6, 6, 7, 7, 8, 8, 9, 9, 10, 10, 11, 11, 12, 13, 13, 13, 13,
        14, 15, 16, 17, 19, 21, 25, 28, 31, 34, 37, 40, 44, 48, 52, 56, 60, 64, 68, 72, 80, 90, 100,
        110, 120, 130, 140, 150, 170, 190, 210, 230, 250, 250, 250,
    ]);
    assert(forall|i: int, j: int| 0 <= i <= j < 64 ==> t[i] <= t[j]) by {
        assert(forall|i: int| 0 <= i < 63 ==> #[trigger] t[i] <= t[i + 1]);
        assert forall|i: int, j: int| 0 <= i <= j < 64 implies t[i] <= t[j] by {
            lemma_sorted_by_steps(t, i, j);
        }
    }
    let a1: int = rel1 as int * 65535;
    let a2: int = rel2 as int * 65535;
    assert(a1 <= a2) by (nonlinear_arith)
        requires rel1 <= rel2, a1 == rel1 as int * 65535, a2 == rel2 as int * 65535;
    assert(a1 / 10000 <= a2 / 10000) by (nonlinear_arith)
        requires 0 <= a1 <= a2;
    let b = spec_effective_reliability(rel1, kind, reduced);
    let c = spec_effective_reliability(rel2, kind, reduced);
    assert(b / 1024 <= c / 1024) by (nonlinear_arith)
        requires 0 <= b <= c;
    let e0 = spec_effective_reliability(rel1, kind, false);
    let e1 = spec_effective_reliability(rel1, kind, true);
    assert(e0 / 1024 <= e1 / 1024) by (nonlinear_arith)
        requires 0 <= e0 <= e1;
    let g0 = spec_effective_reliability(rel1, VehicleKind::Train, reduced);
    let g1 = spec_effective_reliability(rel1, VehicleKind::Ship, reduced);
    assert(g0 / 1024 <= g1 / 1024) by (nonlinear_arith)
        requires 0 <= g0 <= g1;
    let m1: int = spd_dec1 as int * 10000;
    let m2: int = spd_dec2 as int * 10000;
    assert(m1 <= m2) by (nonlinear_arith)
        requires spd_dec1 <= spd_dec2, m1 == spd_dec1 as int * 10000, m2 == spd_dec2 as int * 10000;
    assert(m1 / 65535 <= m2 / 65535) by (nonlinear_arith)
        requires 0 <= m1 <= m2;
    if spd_dec1 < 7 {
        assert(m1 < 65535);
    }
}

proof fn lemma_sorted_by_steps(t: Seq<u8>, i: int, j: int)
    requires
        0 <= i <= j < t.len(),
        forall|k: int| 0 <= k < t.len() - 1 ==> #[trigger] t[k] <= t[k + 1],
    ensures
        t[i] <= t[j],
    decreases j - i,
{
    if i < j {
        lemma_sorted_by_steps(t, i, j - 1);
        assert(t[j - 1] <= t[j]);
    }
}

/// Conditional-order variables read the vehicle as a player sees it: its age
/// in whole days (74 ticks each, capped at 65535) never falls as time passes;
/// its load is a percentage of capacity (0 for no capacity) that never falls
/// as cargo is added and reads 100 once it is full; its reliability is a
/// percentage of the 0..=10000 scale.
pub proof fn lemma_condition_values_read_the_vehicle(v: Vehicle, later: u64, more_cargo: u32)
    requires
        later >= v.sim_tick,
        more_cargo >= v.cargo,
    ensures
        spec_condition_value(OrderConditionKind::Age, v) == (if v.sim_tick >= v.build_tick {
            if (v.sim_tick - v.build_tick) / 74 > 65535 { 65535 } else { (v.sim_tick - v.build_tick) / 74 }
        } else {
            0
        }),
        spec_condition_value(OrderConditionKind::Age, v) <= spec_condition_value(
            OrderConditionKind::Age,
            (Vehicle { sim_tick: later, ..v }),
        ),
        0 <= spec_condition_value(OrderConditionKind::LoadPercentage, v) <= 100,
        v.capacity == 0 ==> spec_condition_value(OrderConditionKind::LoadPercentage, v) == 0,
        v.capacity > 0 && v.cargo >= v.capacity ==> spec_condition_value(OrderConditionKind::LoadPercentage, v)
            == 100,
        spec_condition_value(OrderConditionKind::LoadPercentage, v) <= spec_condition_value(
            OrderConditionKind::LoadPercentage,
            (Vehicle { cargo: more_cargo, ..v }),
        ),
        spec_condition_value(OrderConditionKind::Reliability, v) == (if v.reliability >= 10000 {
            100
        } else {
            v.reliability / 100
        }),
{
    if v.sim_tick >= v.build_tick {
        let a: int = (v.sim_tick - v.build_tick) as int;
        let b: int = (later - v.build_tick) as int;
        assert(a / 74 <= b / 74) by (nonlinear_arith)
            requires 0 <= a <= b;
    }
    if v.capacity > 0 {
        let c: int = v.capacity as int;
        let x: int = v.cargo as int * 100;
        let y: int = more_cargo as int * 100;
        assert(x <= y) by (nonlinear_arith)
            requires v.cargo <= more_cargo, x == v.cargo as int * 100, y == more_cargo as int * 100;
        assert(x / c <= y / c) by (nonlinear_arith)
            requires 0 <= x <= y, c > 0;
        if v.cargo >= v.capacity {
            assert(x >= c * 100) by (nonlinear_arith)
                requires v.cargo >= c, x == v.cargo as int * 100;
            assert(x / c >= 100) by (nonlinear_arith)
                requires x >= c * 100, c > 0;
        }
    }
}

/// Lateness moves by the delay on each leg: a leg taken in exactly its
/// timetabled time leaves the lateness as it was; otherwise the lateness moves
/// by taken minus timetabled time (saturating at the `i32` range), so a slower
/// leg never leaves the vehicle less late. With a timetable cycle, lateness
/// beyond the leg's time wraps, so it never exceeds both the leg and the cycle.
pub proof fn lemma_lateness_moves_by_delay(lateness: i32, timetabled: u32, taken: u32, slower: u32, cycle: int)
    requires
        timetabled <= i32::MAX,
        taken <= slower <= i32::MAX,
    ensures
        spec_lateness_after(lateness, timetabled, timetabled, 0) == lateness,
        i32::MIN <= lateness + taken - timetabled <= i32::MAX ==> spec_lateness_after(lateness, timetabled, taken, 0)
            == lateness + taken - timetabled,
        spec_lateness_after(lateness, timetabled, taken, 0) <= spec_lateness_after(lateness, timetabled, slower, 0),
        cycle > 0 ==> spec_lateness_after(lateness, timetabled, taken, cycle) <= timetabled
            || spec_lateness_after(lateness, timetabled, taken, cycle) <= cycle,
{
}

/// A breakdown that starts in the daily check wipes the accumulated chance:
/// the chance drops to 0, the breakdown counter is set between 63 and 126
/// and the delay between 128 and 255 from one random draw. A unit that is
/// stopped, loading, already broken down or slower than 5, or any unit with
/// breakdowns off, draws nothing and keeps its breakdown state.
pub proof fn lemma_breakdown_start_resets_chance(
    o: Vehicle,
    f: Vehicle,
    rng0: (u32, u32),
    rng1: (u32, u32),
    level: u8,
)
    requires
        spec_breakdown_outcome(o, f, rng0, rng1, level),
    ensures
        level != 0 && o.running && !o.awaiting_load_window && !o.cargo_loading && !o.cargo_unloading
            && o.breakdown_ctr == 0 && o.cur_speed >= 5 && f.breakdown_ctr != 0 ==> {
            &&& f.breakdown_chance == 0
            &&& 63 <= f.breakdown_ctr <= 126
            &&& 128 <= f.breakdown_delay <= 255
            &&& rng1 == random_step(rng0)
        },
        level == 0 || !o.running || o.cargo_loading || o.cargo_unloading || o.breakdown_ctr != 0
            || o.cur_speed < 5 ==> {
            &&& f.breakdown_chance == o.breakdown_chance
            &&& f.breakdown_ctr == o.breakdown_ctr
            &&& f.breakdown_delay == o.breakdown_delay
            &&& rng1 == rng0
        },
{
    reveal_with_fuel(pow2_int, 8);
    assert(pow2_int(6) == 64);
    assert(pow2_int(7) == 128);
}

} // verus!
