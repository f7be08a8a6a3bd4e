//! Vehicle orders: stations, waypoints, depots, plain tiles and conditional jumps.

use vstd::prelude::*;
use crate::common::{CargoType, TileCoord};
use crate::timetable::{cycle_travel_ticks, cycle_wait_ticks, next_travel_preset, next_wait_preset};

verus! {

/// Longest custom vehicle name (`MAX_LENGTH_VEHICLE_NAME_CHARS`).
pub const MAX_VEHICLE_NAME_CHARS: usize = 32;

/// Stopping at intermediate stations on the way (`OrderNonStopFlag`).
#[derive(Debug, Clone, Copy, PartialEq, Eq, Structural)]
pub enum OrderNonStop {
    /// Stop at intermediate stations on the route (`GoVia`).
    StopAtIntermediate,
    /// Stop only at the order's destination (the default).
    NonStopDestination,
}

impl Default for OrderNonStop {
    fn default() -> (r: OrderNonStop)
        ensures
            r == OrderNonStop::NonStopDestination,
    {
        OrderNonStop::NonStopDestination
    }
}

/// Where a train halts on the platform (`OrderStopLocation`).
#[derive(Debug, Clone, Copy, PartialEq, Eq, Structural)]
pub enum OrderStopLocation {
    NearEnd,
    Middle,
    FarEnd,
}

pub open spec fn stop_location_code(s: OrderStopLocation) -> u8 {
    match s {
        OrderStopLocation::NearEnd => 0,
        OrderStopLocation::Middle => 1,
        OrderStopLocation::FarEnd => 2,
    }
}

pub open spec fn spec_stop_location_next(s: OrderStopLocation) -> OrderStopLocation {
    match s {
        OrderStopLocation::NearEnd => OrderStopLocation::Middle,
        OrderStopLocation::Middle => OrderStopLocation::FarEnd,
        OrderStopLocation::FarEnd => OrderStopLocation::NearEnd,
    }
}

impl Default for OrderStopLocation {
    fn default() -> (r: OrderStopLocation)
        ensures
            r == OrderStopLocation::Middle,
    {
        OrderStopLocation::Middle
    }
}

impl OrderStopLocation {
    /// Decodes the two low bits; code 3 (unused) reads as `Middle`.
    pub fn from_u8(v: u8) -> (r: OrderStopLocation)
        ensures
            r == (if v % 4 == 0 {
                OrderStopLocation::NearEnd
            } else if v % 4 == 2 {
                OrderStopLocation::FarEnd
            } else {
                OrderStopLocation::Middle
            }),
    {
        let low = v % 4;
        if low == 0 {
            OrderStopLocation::NearEnd
        } else if low == 2 {
            OrderStopLocation::FarEnd
        } else {
            OrderStopLocation::Middle
        }
    }

    pub fn as_u8(self) -> (r: u8)
        ensures
            r == stop_location_code(self),
    {
        match self {
            OrderStopLocation::NearEnd => 0,
            OrderStopLocation::Middle => 1,
            OrderStopLocation::FarEnd => 2,
        }
    }

    /// Cycles Near -> Middle -> Far -> Near.
    pub fn next(self) -> (r: OrderStopLocation)
        ensures
            r == spec_stop_location_next(self),
    {
        match self {
            OrderStopLocation::NearEnd => OrderStopLocation::Middle,
            OrderStopLocation::Middle => OrderStopLocation::FarEnd,
            OrderStopLocation::FarEnd => OrderStopLocation::NearEnd,
        }
    }
}

/// Loading policy of a station order (`OrderLoadType`).
#[derive(Debug, Clone, Copy, PartialEq, Eq, Structural)]
pub enum OrderLoadType {
    /// Load what is available and leave.
    LoadIfPossible,
    /// Wait until every capacity of the consist is full.
    FullLoad,
    /// Wait until at least one cargo type of the consist is full.
    FullLoadAny,
    /// Do not load here.
    NoLoad,
}

pub open spec fn spec_load_next(l: OrderLoadType) -> OrderLoadType {
    match l {
        OrderLoadType::LoadIfPossible => OrderLoadType::FullLoad,
        OrderLoadType::FullLoad => OrderLoadType::FullLoadAny,
        OrderLoadType::FullLoadAny => OrderLoadType::NoLoad,
        OrderLoadType::NoLoad => OrderLoadType::LoadIfPossible,
    }
}

impl Default for OrderLoadType {
    fn default() -> (r: OrderLoadType)
        ensures
            r == OrderLoadType::LoadIfPossible,
    {
        OrderLoadType::LoadIfPossible
    }
}

impl OrderLoadType {
    /// Cycle order of the order-window button.
    pub fn next(self) -> (r: OrderLoadType)
        ensures
            r == spec_load_next(self),
    {
        match self {
            OrderLoadType::LoadIfPossible => OrderLoadType::FullLoad,
            OrderLoadType::FullLoad => OrderLoadType::FullLoadAny,
            OrderLoadType::FullLoadAny => OrderLoadType::NoLoad,
            OrderLoadType::NoLoad => OrderLoadType::LoadIfPossible,
        }
    }
}

/// Unloading policy of a station order (`OrderUnloadType`).
#[derive(Debug, Clone, Copy, PartialEq, Eq, Structural)]
pub enum OrderUnloadType {
    /// Unload only cargo accepted or routed here.
    UnloadIfPossible,
    /// Force unloading: deliver if accepted, transfer otherwise.
    Unload,
    /// Always transfer, without final delivery payment.
    Transfer,
    /// Keep all cargo on board.
    NoUnload,
}

pub open spec fn spec_unload_next(u: OrderUnloadType) -> OrderUnloadType {
    match u {
        OrderUnloadType::UnloadIfPossible => OrderUnloadType::Unload,
        OrderUnloadType::Unload => OrderUnloadType::Transfer,
        OrderUnloadType::Transfer => OrderUnloadType::NoUnload,
        OrderUnloadType::NoUnload => OrderUnloadType::UnloadIfPossible,
    }
}

impl Default for OrderUnloadType {
    fn default() -> (r: OrderUnloadType)
        ensures
            r == OrderUnloadType::UnloadIfPossible,
    {
        OrderUnloadType::UnloadIfPossible
    }
}

impl OrderUnloadType {
    /// Cycle order of the order-window button.
    pub fn next(self) -> (r: OrderUnloadType)
        ensures
            r == spec_unload_next(self),
    {
        match self {
            OrderUnloadType::UnloadIfPossible => OrderUnloadType::Unload,
            OrderUnloadType::Unload => OrderUnloadType::Transfer,
            OrderUnloadType::Transfer => OrderUnloadType::NoUnload,
            OrderUnloadType::NoUnload => OrderUnloadType::UnloadIfPossible,
        }
    }
}

/// Comparator of a conditional order (`OrderConditionComparator`).
#[derive(Debug, Clone, Copy, PartialEq, Eq, Structural)]
pub enum OrderConditionComparator {
    Equal,
    NotEqual,
    LessThan,
    LessThanOrEqual,
    MoreThan,
    MoreThanOrEqual,
    IsTrue,
    IsFalse,
}

pub open spec fn comparator_code(c: OrderConditionComparator) -> u8 {
    match c {
        OrderConditionComparator::Equal => 0,
        OrderConditionComparator::NotEqual => 1,
        OrderConditionComparator::LessThan => 2,
        OrderConditionComparator::LessThanOrEqual => 3,
        OrderConditionComparator::MoreThan => 4,
        OrderConditionComparator::MoreThanOrEqual => 5,
        OrderConditionComparator::IsTrue => 6,
        OrderConditionComparator::IsFalse => 7,
    }
}

pub open spec fn spec_compare(c: OrderConditionComparator, lhs: u16, rhs: u16) -> bool {
    match c {
        OrderConditionComparator::Equal => lhs == rhs,
        OrderConditionComparator::NotEqual => lhs != rhs,
        OrderConditionComparator::LessThan => lhs < rhs,
        OrderConditionComparator::LessThanOrEqual => lhs <= rhs,
        OrderConditionComparator::MoreThan => lhs > rhs,
        OrderConditionComparator::MoreThanOrEqual => lhs >= rhs,
        OrderConditionComparator::IsTrue => lhs != 0,
        OrderConditionComparator::IsFalse => lhs == 0,
    }
}

impl Default for OrderConditionComparator {
    fn default() -> (r: OrderConditionComparator)
        ensures
            r == OrderConditionComparator::MoreThan,
    {
        OrderConditionComparator::MoreThan
    }
}

impl OrderConditionComparator {
    pub fn as_u8(self) -> (r: u8)
        ensures
            r == comparator_code(self),
    {
        match self {
            OrderConditionComparator::Equal => 0,
            OrderConditionComparator::NotEqual => 1,
            OrderConditionComparator::LessThan => 2,
            OrderConditionComparator::LessThanOrEqual => 3,
            OrderConditionComparator::MoreThan => 4,
            OrderConditionComparator::MoreThanOrEqual => 5,
            OrderConditionComparator::IsTrue => 6,
            OrderConditionComparator::IsFalse => 7,
        }
    }

    /// Decodes a comparator code; codes above 7 read as `IsFalse`.
    pub fn from_u8(v: u8) -> (r: OrderConditionComparator)
        ensures
            v <= 7 ==> comparator_code(r) == v,
            v > 7 ==> r == OrderConditionComparator::IsFalse,
    {
        match v {
            0 => OrderConditionComparator::Equal,
            1 => OrderConditionComparator::NotEqual,
            2 => OrderConditionComparator::LessThan,
            3 => OrderConditionComparator::LessThanOrEqual,
            4 => OrderConditionComparator::MoreThan,
            5 => OrderConditionComparator::MoreThanOrEqual,
            6 => OrderConditionComparator::IsTrue,
            _ => OrderConditionComparator::IsFalse,
        }
    }

    pub fn compare(self, lhs: u16, rhs: u16) -> (r: bool)
        ensures
            r == spec_compare(self, lhs, rhs),
    {
        match self {
            OrderConditionComparator::Equal => lhs == rhs,
            OrderConditionComparator::NotEqual => lhs != rhs,
            OrderConditionComparator::LessThan => lhs < rhs,
            OrderConditionComparator::LessThanOrEqual => lhs <= rhs,
            OrderConditionComparator::MoreThan => lhs > rhs,
            OrderConditionComparator::MoreThanOrEqual => lhs >= rhs,
            OrderConditionComparator::IsTrue => lhs != 0,
            OrderConditionComparator::IsFalse => lhs == 0,
        }
    }
}

/// Variable tested by a conditional order (`OrderConditionVariable`).
#[derive(Debug, Clone, Copy, PartialEq, Eq, Structural)]
pub enum OrderConditionKind {
    /// Historical alias of `LoadPercentage` + `MoreThan`.
    CargoLoadAbove,
    /// Historical alias of `LoadPercentage` + `LessThan`.
    CargoLoadBelow,
    LoadPercentage,
    Reliability,
    MaxSpeed,
    Age,
    RequiresService,
    Unconditionally,
    RemainingLifetime,
    MaxReliability,
    DrivingBackwards,
}

pub open spec fn spec_legacy_comparator(k: OrderConditionKind) -> Option<OrderConditionComparator> {
    match k {
        OrderConditionKind::CargoLoadAbove => Some(OrderConditionComparator::MoreThan),
        OrderConditionKind::CargoLoadBelow => Some(OrderConditionComparator::LessThan),
        _ => None,
    }
}

pub open spec fn condition_code(k: OrderConditionKind) -> u8 {
    match k {
        OrderConditionKind::CargoLoadAbove => 0,
        OrderConditionKind::CargoLoadBelow => 0,
        OrderConditionKind::LoadPercentage => 0,
        OrderConditionKind::Reliability => 1,
        OrderConditionKind::MaxSpeed => 2,
        OrderConditionKind::Age => 3,
        OrderConditionKind::RequiresService => 4,
        OrderConditionKind::Unconditionally => 5,
        OrderConditionKind::RemainingLifetime => 6,
        OrderConditionKind::MaxReliability => 7,
        OrderConditionKind::DrivingBackwards => 8,
    }
}

/// The comparator a conditional actually uses: the alias's own, else the stored one.
pub open spec fn effective_comparator(
    k: OrderConditionKind,
    c: OrderConditionComparator,
) -> OrderConditionComparator {
    match spec_legacy_comparator(k) {
        Some(lc) => lc,
        None => c,
    }
}

impl OrderConditionKind {
    /// Implied comparator of the historical aliases.
    pub fn legacy_comparator(self) -> (r: Option<OrderConditionComparator>)
        ensures
            r == spec_legacy_comparator(self),
    {
        match self {
            OrderConditionKind::CargoLoadAbove => Some(OrderConditionComparator::MoreThan),
            OrderConditionKind::CargoLoadBelow => Some(OrderConditionComparator::LessThan),
            _ => None,
        }
    }

    pub fn as_u8(self) -> (r: u8)
        ensures
            r == condition_code(self),
    {
        match self {
            OrderConditionKind::CargoLoadAbove => 0,
            OrderConditionKind::CargoLoadBelow => 0,
            OrderConditionKind::LoadPercentage => 0,
            OrderConditionKind::Reliability => 1,
            OrderConditionKind::MaxSpeed => 2,
            OrderConditionKind::Age => 3,
            OrderConditionKind::RequiresService => 4,
            OrderConditionKind::Unconditionally => 5,
            OrderConditionKind::RemainingLifetime => 6,
            OrderConditionKind::MaxReliability => 7,
            OrderConditionKind::DrivingBackwards => 8,
        }
    }

    /// Decodes a variable code; unknown codes read as `LoadPercentage`.
    pub fn from_u8(v: u8) -> (r: OrderConditionKind)
        ensures
            condition_code(r) == (if 1 <= v <= 8 { v } else { 0 }),
            r != OrderConditionKind::CargoLoadAbove,
            r != OrderConditionKind::CargoLoadBelow,
    {
        match v {
            1 => OrderConditionKind::Reliability,
            2 => OrderConditionKind::MaxSpeed,
            3 => OrderConditionKind::Age,
            4 => OrderConditionKind::RequiresService,
            5 => OrderConditionKind::Unconditionally,
            6 => OrderConditionKind::RemainingLifetime,
            7 => OrderConditionKind::MaxReliability,
            8 => OrderConditionKind::DrivingBackwards,
            _ => OrderConditionKind::LoadPercentage,
        }
    }
}

/// One entry of a vehicle's order list.
#[derive(Debug, Clone, Copy, PartialEq, Eq, Structural)]
pub enum VehicleOrder {
    Station {
        station: TileCoord,
        load_type: OrderLoadType,
        unload_type: OrderUnloadType,
        /// Do not stop at intermediate stations on the way here.
        non_stop: OrderNonStop,
        /// Where to halt on the platform.
        stop_location: OrderStopLocation,
        /// Minimum wait at the stop with an active timetable (ticks).
        wait_ticks: u32,
        /// Minimum travel time to this order (ticks since the previous one).
        travel_ticks: u32,
        /// Speed ceiling of the leg; 0 = no limit.
        max_speed: u16,
        /// Implicit order inserted when visiting an unscheduled station.
        implicit: bool,
    },
    Waypoint { waypoint: TileCoord, travel_ticks: u32, max_speed: u16 },
    /// Depot visit (`stop`: halt on arrival; `false` = service only if needed).
    Depot {
        depot: TileCoord,
        stop: bool,
        wait_ticks: u32,
        travel_ticks: u32,
        /// Automatic refit on arrival.
        refit_cargo: Option<CargoType>,
        /// Service plus unbunching.
        unbunch: bool,
    },
    Tile(TileCoord),
    /// Jumps to `jump_to` when the condition holds on reaching this order.
    Conditional {
        condition: OrderConditionKind,
        comparator: OrderConditionComparator,
        value: u16,
        jump_to: usize,
    },
}

/// A full-load station order keeps a vehicle with room left waiting.
pub open spec fn spec_waits_for_loading(o: VehicleOrder, cargo: u32, capacity: u32) -> bool {
    &&& o is Station
    &&& (o->load_type == OrderLoadType::FullLoad || o->load_type == OrderLoadType::FullLoadAny)
    &&& capacity != 0
    &&& cargo < capacity
}

pub open spec fn spec_destination(o: VehicleOrder) -> TileCoord {
    match o {
        VehicleOrder::Station { station, .. } => station,
        VehicleOrder::Waypoint { waypoint, .. } => waypoint,
        VehicleOrder::Depot { depot, .. } => depot,
        VehicleOrder::Tile(pos) => pos,
        VehicleOrder::Conditional { .. } => TileCoord { x: 0, y: 0 },
    }
}

pub open spec fn spec_wait_ticks(o: VehicleOrder) -> u32 {
    match o {
        VehicleOrder::Station { wait_ticks, .. } => wait_ticks,
        VehicleOrder::Depot { wait_ticks, .. } => wait_ticks,
        _ => 0,
    }
}

pub open spec fn spec_travel_ticks(o: VehicleOrder) -> u32 {
    match o {
        VehicleOrder::Station { travel_ticks, .. } => travel_ticks,
        VehicleOrder::Waypoint { travel_ticks, .. } => travel_ticks,
        VehicleOrder::Depot { travel_ticks, .. } => travel_ticks,
        _ => 0,
    }
}

pub open spec fn spec_load_type(o: VehicleOrder) -> OrderLoadType {
    match o {
        VehicleOrder::Station { load_type, .. } => load_type,
        _ => OrderLoadType::LoadIfPossible,
    }
}

pub open spec fn spec_unload_type(o: VehicleOrder) -> OrderUnloadType {
    match o {
        VehicleOrder::Station { unload_type, .. } => unload_type,
        _ => OrderUnloadType::UnloadIfPossible,
    }
}

pub open spec fn spec_max_speed_limit(o: VehicleOrder) -> u16 {
    match o {
        VehicleOrder::Station { max_speed, .. } => max_speed,
        VehicleOrder::Waypoint { max_speed, .. } => max_speed,
        _ => 0,
    }
}


pub open spec fn mk_station(
    station: TileCoord,
    load_type: OrderLoadType,
    unload_type: OrderUnloadType,
    non_stop: OrderNonStop,
    stop_location: OrderStopLocation,
    wait_ticks: u32,
    travel_ticks: u32,
    max_speed: u16,
    implicit: bool,
) -> VehicleOrder {
    VehicleOrder::Station {
        station,
        load_type,
        unload_type,
        non_stop,
        stop_location,
        wait_ticks,
        travel_ticks,
        max_speed,
        implicit,
    }
}

pub open spec fn mk_depot(
    depot: TileCoord,
    stop: bool,
    wait_ticks: u32,
    travel_ticks: u32,
    refit_cargo: Option<CargoType>,
    unbunch: bool,
) -> VehicleOrder {
    VehicleOrder::Depot { depot, stop, wait_ticks, travel_ticks, refit_cargo, unbunch }
}

/// A station order with its stop location, load and unload policies replaced.
pub open spec fn station_with_policies(
    o: VehicleOrder,
    load_type: OrderLoadType,
    unload_type: OrderUnloadType,
    stop_location: OrderStopLocation,
) -> VehicleOrder {
    match o {
        VehicleOrder::Station { station, non_stop, wait_ticks, travel_ticks, max_speed, implicit, .. } =>
            mk_station(station, load_type, unload_type, non_stop, stop_location, wait_ticks, travel_ticks, max_speed, implicit),
        _ => o,
    }
}

/// A depot order with its stop flag, refit cargo and unbunch flag replaced.
pub open spec fn depot_with_flags(
    o: VehicleOrder,
    stop: bool,
    refit_cargo: Option<CargoType>,
    unbunch: bool,
) -> VehicleOrder {
    match o {
        VehicleOrder::Depot { depot, wait_ticks, travel_ticks, .. } =>
            mk_depot(depot, stop, wait_ticks, travel_ticks, refit_cargo, unbunch),
        _ => o,
    }
}

/// A station order with the given policies and every other field at its default.
pub open spec fn spec_station_order(
    station: TileCoord,
    load_type: OrderLoadType,
    unload_type: OrderUnloadType,
    non_stop: OrderNonStop,
    implicit: bool,
) -> VehicleOrder {
    VehicleOrder::Station {
        station,
        load_type,
        unload_type,
        non_stop,
        stop_location: OrderStopLocation::Middle,
        wait_ticks: 0,
        travel_ticks: 0,
        max_speed: 0,
        implicit,
    }
}

pub open spec fn spec_depot_order(depot: TileCoord, stop: bool) -> VehicleOrder {
    VehicleOrder::Depot {
        depot,
        stop,
        wait_ticks: 0,
        travel_ticks: 0,
        refit_cargo: None,
        unbunch: false,
    }
}

/// `(cargo, capacity)` summed over the units of one cargo type that have capacity.
pub open spec fn sum_cargo_of(units: Seq<(CargoType, u32, u32)>, t: CargoType) -> int
    decreases units.len(),
{
    if units.len() == 0 {
        0
    } else {
        let u = units.last();
        sum_cargo_of(units.drop_last(), t) + if u.0 == t && u.2 > 0 {
            u.1 as int
        } else {
            0
        }
    }
}

pub open spec fn sum_capacity_of(units: Seq<(CargoType, u32, u32)>, t: CargoType) -> int
    decreases units.len(),
{
    if units.len() == 0 {
        0
    } else {
        let u = units.last();
        sum_capacity_of(units.drop_last(), t) + if u.0 == t && u.2 > 0 {
            u.2 as int
        } else {
            0
        }
    }
}

/// Some cargo type of the consist is completely loaded.
pub open spec fn some_cargo_type_full(units: Seq<(CargoType, u32, u32)>) -> bool {
    exists|t: CargoType|
        sum_capacity_of(units, t) > 0 && sum_cargo_of(units, t) >= #[trigger] sum_capacity_of(
            units,
            t,
        )
}

/// The loading decision over all units `(type, cargo, capacity)` of a consist.
pub open spec fn spec_wait_for_consist_loading(
    o: VehicleOrder,
    units: Seq<(CargoType, u32, u32)>,
) -> bool {
    match spec_load_type(o) {
        OrderLoadType::LoadIfPossible => false,
        OrderLoadType::NoLoad => false,
        OrderLoadType::FullLoad => exists|i: int|
            0 <= i < units.len() && #[trigger] units[i].2 > 0 && units[i].1 < units[i].2,
        OrderLoadType::FullLoadAny => (exists|i: int| 0 <= i < units.len() && #[trigger] units[i].2 > 0)
            && !some_cargo_type_full(units),
    }
}

proof fn lemma_sums_nonneg(units: Seq<(CargoType, u32, u32)>, t: CargoType)
    ensures
        sum_cargo_of(units, t) >= 0,
        sum_capacity_of(units, t) >= 0,
        sum_capacity_of(units, t) <= units.len() * 0xFFFF_FFFF,
        sum_cargo_of(units, t) <= units.len() * 0xFFFF_FFFF,
    decreases units.len(),
{
    if units.len() > 0 {
        lemma_sums_nonneg(units.drop_last(), t);
    }
}

proof fn lemma_positive_capacity_has_unit(units: Seq<(CargoType, u32, u32)>, t: CargoType)
    requires
        sum_capacity_of(units, t) > 0,
    ensures
        exists|i: int| 0 <= i < units.len() && units[i].0 == t && #[trigger] units[i].2 > 0,
    decreases units.len(),
{
    let u = units.last();
    if u.0 == t && u.2 > 0 {
        assert(units[units.len() - 1].2 > 0);
    } else {
        lemma_positive_capacity_has_unit(units.drop_last(), t);
        let i = choose|i: int|
            0 <= i < units.drop_last().len() && units.drop_last()[i].0 == t
                && #[trigger] units.drop_last()[i].2 > 0;
        assert(units[i] == units.drop_last()[i]);
    }
}

impl VehicleOrder {
    pub fn destination(self) -> (r: TileCoord)
        ensures
            r == spec_destination(self),
    {
        match self {
            VehicleOrder::Station { station, .. } => station,
            VehicleOrder::Waypoint { waypoint, .. } => waypoint,
            VehicleOrder::Depot { depot, .. } => depot,
            VehicleOrder::Tile(pos) => pos,
            VehicleOrder::Conditional { .. } => TileCoord::new(0, 0),
        }
    }

    /// Conditional order using the variable's implied comparator (else `MoreThan`).
    pub fn conditional(condition: OrderConditionKind, value: u16, jump_to: usize) -> (r:
        VehicleOrder)
        ensures
            r == (VehicleOrder::Conditional {
                condition,
                comparator: match spec_legacy_comparator(condition) {
                    Some(c) => c,
                    None => OrderConditionComparator::MoreThan,
                },
                value,
                jump_to,
            }),
    {
        let comparator = match condition.legacy_comparator() {
            Some(c) => c,
            None => OrderConditionComparator::MoreThan,
        };
        VehicleOrder::Conditional { condition, comparator, value, jump_to }
    }

    pub fn conditional_with(
        condition: OrderConditionKind,
        comparator: OrderConditionComparator,
        value: u16,
        jump_to: usize,
    ) -> (r: VehicleOrder)
        ensures
            r == (VehicleOrder::Conditional { condition, comparator, value, jump_to }),
    {
        VehicleOrder::Conditional { condition, comparator, value, jump_to }
    }

    pub fn is_conditional(self) -> (r: bool)
        ensures
            r == (self is Conditional),
    {
        match self {
            VehicleOrder::Conditional { .. } => true,
            _ => false,
        }
    }

    pub fn station(station: TileCoord) -> (r: VehicleOrder)
        ensures
            r == spec_station_order(
                station,
                OrderLoadType::LoadIfPossible,
                OrderUnloadType::UnloadIfPossible,
                OrderNonStop::NonStopDestination,
                false,
            ),
    {
        VehicleOrder::Station {
            station,
            load_type: OrderLoadType::LoadIfPossible,
            unload_type: OrderUnloadType::UnloadIfPossible,
            non_stop: OrderNonStop::NonStopDestination,
            stop_location: OrderStopLocation::Middle,
            wait_ticks: 0,
            travel_ticks: 0,
            max_speed: 0,
            implicit: false,
        }
    }

    /// Implicit order inserted when a vehicle visits an unscheduled station.
    pub fn implicit(station: TileCoord) -> (r: VehicleOrder)
        ensures
            r == spec_station_order(
                station,
                OrderLoadType::LoadIfPossible,
                OrderUnloadType::UnloadIfPossible,
                OrderNonStop::NonStopDestination,
                true,
            ),
    {
        VehicleOrder::Station {
            station,
            load_type: OrderLoadType::LoadIfPossible,
            unload_type: OrderUnloadType::UnloadIfPossible,
            non_stop: OrderNonStop::NonStopDestination,
            stop_location: OrderStopLocation::Middle,
            wait_ticks: 0,
            travel_ticks: 0,
            max_speed: 0,
            implicit: true,
        }
    }

    pub fn is_implicit(self) -> (r: bool)
        ensures
            r == (self is Station && self->implicit),
    {
        match self {
            VehicleOrder::Station { implicit, .. } => implicit,
            _ => false,
        }
    }

    pub fn is_station_like(self) -> (r: bool)
        ensures
            r == (self is Station),
    {
        match self {
            VehicleOrder::Station { .. } => true,
            _ => false,
        }
    }

    pub fn station_with_flags(station: TileCoord, full_load: bool, no_unload: bool) -> (r:
        VehicleOrder)
        ensures
            r == spec_station_order(
                station,
                if full_load {
                    OrderLoadType::FullLoad
                } else {
                    OrderLoadType::LoadIfPossible
                },
                if no_unload {
                    OrderUnloadType::NoUnload
                } else {
                    OrderUnloadType::UnloadIfPossible
                },
                OrderNonStop::NonStopDestination,
                false,
            ),
    {
        let load_type = if full_load {
            OrderLoadType::FullLoad
        } else {
            OrderLoadType::LoadIfPossible
        };
        let unload_type = if no_unload {
            OrderUnloadType::NoUnload
        } else {
            OrderUnloadType::UnloadIfPossible
        };
        Self::station_with_types(station, load_type, unload_type, OrderNonStop::NonStopDestination)
    }

    /// Station order from the legacy boolean flags; `no_load` beats
    /// `full_load_any` beats `full_load`, and `transfer` beats `no_unload`.
    pub fn station_with_load_unload_flags(
        station: TileCoord,
        full_load: bool,
        full_load_any: bool,
        no_load: bool,
        no_unload: bool,
        transfer: bool,
        non_stop: OrderNonStop,
    ) -> (r: VehicleOrder)
        ensures
            r == spec_station_order(
                station,
                if no_load {
                    OrderLoadType::NoLoad
                } else if full_load_any {
                    OrderLoadType::FullLoadAny
                } else if full_load {
                    OrderLoadType::FullLoad
                } else {
                    OrderLoadType::LoadIfPossible
                },
                if transfer {
                    OrderUnloadType::Transfer
                } else if no_unload {
                    OrderUnloadType::NoUnload
                } else {
                    OrderUnloadType::UnloadIfPossible
                },
                non_stop,
                false,
            ),
    {
        let load_type = if no_load {
            OrderLoadType::NoLoad
        } else if full_load_any {
            OrderLoadType::FullLoadAny
        } else if full_load {
            OrderLoadType::FullLoad
        } else {
            OrderLoadType::LoadIfPossible
        };
        let unload_type = if transfer {
            OrderUnloadType::Transfer
        } else if no_unload {
            OrderUnloadType::NoUnload
        } else {
            OrderUnloadType::UnloadIfPossible
        };
        Self::station_with_types(station, load_type, unload_type, non_stop)
    }

    /// Station order with complete loading and unloading policies.
    pub fn station_with_types(
        station: TileCoord,
        load_type: OrderLoadType,
        unload_type: OrderUnloadType,
        non_stop: OrderNonStop,
    ) -> (r: VehicleOrder)
        ensures
            r == spec_station_order(station, load_type, unload_type, non_stop, false),
    {
        VehicleOrder::Station {
            station,
            load_type,
            unload_type,
            non_stop,
            stop_location: OrderStopLocation::Middle,
            wait_ticks: 0,
            travel_ticks: 0,
            max_speed: 0,
            implicit: false,
        }
    }

    pub fn waypoint(waypoint: TileCoord) -> (r: VehicleOrder)
        ensures
            r == (VehicleOrder::Waypoint { waypoint, travel_ticks: 0, max_speed: 0 }),
    {
        VehicleOrder::Waypoint { waypoint, travel_ticks: 0, max_speed: 0 }
    }

    pub fn depot(depot: TileCoord) -> (r: VehicleOrder)
        ensures
            r == spec_depot_order(depot, true),
    {
        VehicleOrder::Depot {
            depot,
            stop: true,
            wait_ticks: 0,
            travel_ticks: 0,
            refit_cargo: None,
            unbunch: false,
        }
    }

    pub fn depot_pass_through(depot: TileCoord) -> (r: VehicleOrder)
        ensures
            r == spec_depot_order(depot, false),
    {
        VehicleOrder::Depot {
            depot,
            stop: false,
            wait_ticks: 0,
            travel_ticks: 0,
            refit_cargo: None,
            unbunch: false,
        }
    }

    pub fn tile(tile: TileCoord) -> (r: VehicleOrder)
        ensures
            r == VehicleOrder::Tile(tile),
    {
        VehicleOrder::Tile(tile)
    }

    pub fn is_depot(self) -> (r: bool)
        ensures
            r == (self is Depot),
    {
        match self {
            VehicleOrder::Depot { .. } => true,
            _ => false,
        }
    }

    pub fn depot_stops(self) -> (r: bool)
        ensures
            r == (self is Depot && self->stop),
    {
        match self {
            VehicleOrder::Depot { stop, .. } => stop,
            _ => false,
        }
    }

    pub fn depot_refit_cargo(self) -> (r: Option<CargoType>)
        ensures
            r == (if self is Depot {
                self->refit_cargo
            } else {
                None
            }),
    {
        match self {
            VehicleOrder::Depot { refit_cargo, .. } => refit_cargo,
            _ => None,
        }
    }

    pub fn is_pass_through(self) -> (r: bool)
        ensures
            r == (self is Waypoint || (self is Depot && !self->stop)),
    {
        match self {
            VehicleOrder::Waypoint { .. } => true,
            VehicleOrder::Depot { stop, .. } => !stop,
            _ => false,
        }
    }

    pub fn load_type(self) -> (r: OrderLoadType)
        ensures
            r == spec_load_type(self),
    {
        match self {
            VehicleOrder::Station { load_type, .. } => load_type,
            _ => OrderLoadType::LoadIfPossible,
        }
    }

    pub fn full_load(self) -> (r: bool)
        ensures
            r == (self is Station && self->load_type == OrderLoadType::FullLoad),
    {
        match self {
            VehicleOrder::Station { load_type, .. } => load_type == OrderLoadType::FullLoad,
            _ => false,
        }
    }

    pub fn full_load_any(self) -> (r: bool)
        ensures
            r == (self is Station && self->load_type == OrderLoadType::FullLoadAny),
    {
        match self {
            VehicleOrder::Station { load_type, .. } => load_type == OrderLoadType::FullLoadAny,
            _ => false,
        }
    }

    /// `FullLoad` or `FullLoadAny` (`Order::IsFullLoadOrder`).
    pub fn is_full_load_order(self) -> (r: bool)
        ensures
            r == (self is Station && (self->load_type == OrderLoadType::FullLoad
                || self->load_type == OrderLoadType::FullLoadAny)),
    {
        self.full_load() || self.full_load_any()
    }

    pub fn no_load(self) -> (r: bool)
        ensures
            r == (self is Station && self->load_type == OrderLoadType::NoLoad),
    {
        match self {
            VehicleOrder::Station { load_type, .. } => load_type == OrderLoadType::NoLoad,
            _ => false,
        }
    }

    pub fn unload_type(self) -> (r: OrderUnloadType)
        ensures
            r == spec_unload_type(self),
    {
        match self {
            VehicleOrder::Station { unload_type, .. } => unload_type,
            _ => OrderUnloadType::UnloadIfPossible,
        }
    }

    pub fn no_unload(self) -> (r: bool)
        ensures
            r == (self is Station && self->unload_type == OrderUnloadType::NoUnload),
    {
        match self {
            VehicleOrder::Station { unload_type, .. } => unload_type == OrderUnloadType::NoUnload,
            _ => false,
        }
    }

    /// Forced transfer: no delivery payment, only the feeder share.
    pub fn transfer(self) -> (r: bool)
        ensures
            r == (self is Station && self->unload_type == OrderUnloadType::Transfer),
    {
        match self {
            VehicleOrder::Station { unload_type, .. } => unload_type == OrderUnloadType::Transfer,
            _ => false,
        }
    }

    pub fn non_stop_destination(self) -> (r: bool)
        ensures
            r == (self is Station && self->non_stop == OrderNonStop::NonStopDestination),
    {
        match self {
            VehicleOrder::Station { non_stop, .. } => non_stop == OrderNonStop::NonStopDestination,
            _ => false,
        }
    }

    /// `Order::ShouldStopAtStation`: never at the station just visited; a
    /// station order stops at its destination, and also at intermediate
    /// stations when it is not non-stop.
    pub fn should_stop_at_station(self, last_station_visited: Option<TileCoord>, station: TileCoord) -> (r:
        bool)
        ensures
            r == (last_station_visited != Some(station) && self is Station && (self->station
                == station || self->non_stop == OrderNonStop::StopAtIntermediate)),
    {
        match last_station_visited {
            Some(last) => {
                if last.x == station.x && last.y == station.y {
                    return false;
                }
            },
            None => {},
        }
        match self {
            VehicleOrder::Station { station: destination, non_stop, .. } => {
                (destination.x == station.x && destination.y == station.y) || non_stop
                    == OrderNonStop::StopAtIntermediate
            },
            _ => false,
        }
    }

    pub fn stop_location(self) -> (r: OrderStopLocation)
        ensures
            r == (if self is Station {
                self->stop_location
            } else {
                OrderStopLocation::Middle
            }),
    {
        match self {
            VehicleOrder::Station { stop_location, .. } => stop_location,
            _ => OrderStopLocation::Middle,
        }
    }

    /// Cycles Near -> Middle -> Far on a station order; `None` for other orders.
    pub fn with_cycled_stop_location(self) -> (r: Option<VehicleOrder>)
        ensures
            self is Station ==> r == Some(
                station_with_policies(self, self->load_type, self->unload_type, spec_stop_location_next(self->stop_location)),
            ),
            !(self is Station) ==> r is None,
    {
        match self {
            VehicleOrder::Station {
                station,
                load_type,
                unload_type,
                non_stop,
                stop_location,
                wait_ticks,
                travel_ticks,
                max_speed,
                implicit,
            } => Some(
                VehicleOrder::Station {
                    station,
                    load_type,
                    unload_type,
                    non_stop,
                    stop_location: stop_location.next(),
                    wait_ticks,
                    travel_ticks,
                    max_speed,
                    implicit,
                },
            ),
            _ => None,
        }
    }

    /// Whether to keep waiting for cargo under `FullLoad` / `FullLoadAny`.
    pub fn should_wait_for_loading(self, cargo: u32, capacity: u32) -> (r: bool)
        ensures
            r == spec_waits_for_loading(self, cargo, capacity),
    {
        if self.no_load() || capacity == 0 {
            return false;
        }
        if self.full_load() {
            return cargo < capacity;
        }
        if self.full_load_any() {
            return cargo < capacity;
        }
        false
    }

    /// Loading decision over all units `(type, cargo, capacity)` of a consist:
    /// `FullLoad` waits while any unit with capacity is not full; `FullLoadAny`
    /// stops waiting once one cargo type is full across the units carrying it.
    pub fn should_wait_for_consist_loading(self, units: &[(CargoType, u32, u32)]) -> (r: bool)
        ensures
            r == spec_wait_for_consist_loading(self, units@),
    {
        match self.load_type() {
            OrderLoadType::LoadIfPossible => false,
            OrderLoadType::NoLoad => false,
            OrderLoadType::FullLoad => {
                let mut i: usize = 0;
                while i < units.len()
                    invariant
                        i <= units@.len(),
                        spec_load_type(self) == OrderLoadType::FullLoad,
                        forall|j: int|
                            0 <= j < i ==> !(#[trigger] units@[j].2 > 0 && units@[j].1
                                < units@[j].2),
                    decreases units@.len() - i,
                {
                    if units[i].2 > 0 && units[i].1 < units[i].2 {
                        assert(units@[i as int].2 > 0);
                        return true;
                    }
                    i = i + 1;
                }
                false
            },
            OrderLoadType::FullLoadAny => {
                let mut has_capacity = false;
                let mut any_full = false;
                let mut i: usize = 0;
                while i < units.len()
                    invariant
                        i <= units@.len(),
                        has_capacity == (exists|j: int| 0 <= j < i && #[trigger] units@[j].2 > 0),
                        any_full == (exists|j: int|
                            0 <= j < i && #[trigger] units@[j].2 > 0 && sum_cargo_of(
                                units@,
                                units@[j].0,
                            ) >= sum_capacity_of(units@, units@[j].0)),
                    decreases units@.len() - i,
                {
                    let (t, _, cap) = units[i];
                    if cap > 0 {
                        has_capacity = true;
                        let (c_sum, cap_sum) = sums_for_type(units, t);
                        if c_sum >= cap_sum {
                            any_full = true;
                        }
                    }
                    i = i + 1;
                }
                proof {
                    if any_full {
                        let j = choose|j: int|
                            0 <= j < units@.len() && #[trigger] units@[j].2 > 0 && sum_cargo_of(
                                units@,
                                units@[j].0,
                            ) >= sum_capacity_of(units@, units@[j].0);
                        lemma_unit_capacity_counts(units@, j);
                        assert(sum_capacity_of(units@, units@[j].0) > 0);
                    } else {
                        assert forall|t: CargoType|
                            !(sum_capacity_of(units@, t) > 0 && sum_cargo_of(units@, t)
                                >= #[trigger] sum_capacity_of(units@, t)) by {
                            if sum_capacity_of(units@, t) > 0 {
                                lemma_positive_capacity_has_unit(units@, t);
                            }
                        }
                    }
                }
                has_capacity && !any_full
            },
        }
    }

    pub fn wait_ticks(self) -> (r: u32)
        ensures
            r == spec_wait_ticks(self),
    {
        match self {
            VehicleOrder::Station { wait_ticks, .. } => wait_ticks,
            VehicleOrder::Depot { wait_ticks, .. } => wait_ticks,
            _ => 0,
        }
    }

    pub fn travel_ticks(self) -> (r: u32)
        ensures
            r == spec_travel_ticks(self),
    {
        match self {
            VehicleOrder::Station { travel_ticks, .. } => travel_ticks,
            VehicleOrder::Waypoint { travel_ticks, .. } => travel_ticks,
            VehicleOrder::Depot { travel_ticks, .. } => travel_ticks,
            VehicleOrder::Tile(_) => 0,
            VehicleOrder::Conditional { .. } => 0,
        }
    }

    /// Cycles the four loading policies of a station order.
    pub fn with_toggled_full_load(self) -> (r: Option<VehicleOrder>)
        ensures
            self is Station ==> r == Some(
                station_with_policies(self, spec_load_next(self->load_type), self->unload_type, self->stop_location),
            ),
            !(self is Station) ==> r is None,
    {
        match self {
            VehicleOrder::Station {
                station,
                load_type,
                unload_type,
                non_stop,
                stop_location,
                wait_ticks,
                travel_ticks,
                max_speed,
                implicit,
            } => Some(
                VehicleOrder::Station {
                    station,
                    load_type: load_type.next(),
                    unload_type,
                    non_stop,
                    stop_location,
                    wait_ticks,
                    travel_ticks,
                    max_speed,
                    implicit,
                },
            ),
            _ => None,
        }
    }

    /// Cycles the four unloading policies of a station order.
    pub fn with_toggled_no_unload(self) -> (r: Option<VehicleOrder>)
        ensures
            self is Station ==> r == Some(
                station_with_policies(self, self->load_type, spec_unload_next(self->unload_type), self->stop_location),
            ),
            !(self is Station) ==> r is None,
    {
        match self {
            VehicleOrder::Station {
                station,
                load_type,
                unload_type,
                non_stop,
                stop_location,
                wait_ticks,
                travel_ticks,
                max_speed,
                implicit,
            } => Some(
                VehicleOrder::Station {
                    station,
                    load_type,
                    unload_type: unload_type.next(),
                    non_stop,
                    stop_location,
                    wait_ticks,
                    travel_ticks,
                    max_speed,
                    implicit,
                },
            ),
            _ => None,
        }
    }

    /// Toggles "stop in depot" on a depot order.
    pub fn with_toggled_depot_stop(self) -> (r: Option<VehicleOrder>)
        ensures
            self is Depot ==> r == Some(depot_with_flags(self, !self->stop, self->refit_cargo, self->unbunch)),
            !(self is Depot) ==> r is None,
    {
        match self {
            VehicleOrder::Depot { depot, stop, wait_ticks, travel_ticks, refit_cargo, unbunch } => Some(
                VehicleOrder::Depot {
                    depot,
                    stop: !stop,
                    wait_ticks,
                    travel_ticks,
                    refit_cargo,
                    unbunch,
                },
            ),
            _ => None,
        }
    }

    /// Cycles the refit cargo of a depot order: none -> first option -> ... ->
    /// last option -> none. `None` when the order is not a depot, or when the
    /// current refit cargo is not among `options`.
    pub fn with_cycled_depot_refit(self, options: &[CargoType]) -> (r: Option<VehicleOrder>)
        ensures
            !(self is Depot) ==> r is None,
            self is Depot && self->refit_cargo is None ==> r == Some(
                depot_with_flags(
                    self,
                    self->stop,
                    if options@.len() > 0 {
                        Some(options@[0])
                    } else {
                        None
                    },
                    self->unbunch,
                ),
            ),
            self is Depot && self->refit_cargo is Some ==> ({
                let cur = self->refit_cargo->0;
                &&& !options@.contains(cur) ==> r is None
                &&& options@.contains(cur) ==> exists|i: int|
                    0 <= i < options@.len() && #[trigger] options@[i] == cur && (forall|k: int|
                        0 <= k < i ==> options@[k] != cur) && r == Some(
                        depot_with_flags(
                            self,
                            self->stop,
                            if i + 1 < options@.len() {
                                Some(options@[i + 1])
                            } else {
                                None
                            },
                            self->unbunch,
                        ),
                    )
            }),
    {
        match self {
            VehicleOrder::Depot { depot, stop, wait_ticks, travel_ticks, refit_cargo, unbunch } => {
                let next = match refit_cargo {
                    None => {
                        if options.len() > 0 {
                            Some(options[0])
                        } else {
                            None
                        }
                    },
                    Some(current) => {
                        let mut idx: usize = 0;
                        while idx < options.len() && options[idx] != current
                            invariant
                                idx <= options@.len(),
                                forall|k: int| 0 <= k < idx ==> options@[k] != current,
                            decreases options@.len() - idx,
                        {
                            idx = idx + 1;
                        }
                        if idx == options.len() {
                            assert(!options@.contains(current));
                            return None;
                        }
                        assert(options@[idx as int] == current);
                        if idx + 1 < options.len() {
                            Some(options[idx + 1])
                        } else {
                            None
                        }
                    },
                };
                Some(
                    VehicleOrder::Depot {
                        depot,
                        stop,
                        wait_ticks,
                        travel_ticks,
                        refit_cargo: next,
                        unbunch,
                    },
                )
            },
            _ => None,
        }
    }

    /// Steps the stop wait through the presets (station and depot orders only).
    pub fn with_cycled_wait(self) -> (r: Option<VehicleOrder>)
        ensures
            (self is Station || self is Depot) ==> r == Some(
                self.spec_with_wait(next_wait_preset(spec_wait_ticks(self))),
            ),
            !(self is Station || self is Depot) ==> r is None,
    {
        match self {
            VehicleOrder::Station { .. } | VehicleOrder::Depot { .. } => {
                self.with_wait_ticks(cycle_wait_ticks(self.wait_ticks()))
            },
            _ => None,
        }
    }

    /// Steps the leg travel time through the presets; orders without a
    /// travel time are returned unchanged.
    pub fn with_cycled_travel(self) -> (r: VehicleOrder)
        ensures
            r == self.spec_with_travel(next_travel_preset(spec_travel_ticks(self))),
    {
        match self {
            VehicleOrder::Station { .. } | VehicleOrder::Waypoint { .. } | VehicleOrder::Depot {
                ..
            } => self.with_travel_ticks(cycle_travel_ticks(self.travel_ticks())),
            _ => self,
        }
    }

    pub open spec fn spec_with_wait(self, w: u32) -> VehicleOrder {
        match self {
            VehicleOrder::Station { station, load_type, unload_type, non_stop, stop_location, travel_ticks, max_speed, implicit, .. } =>
                mk_station(station, load_type, unload_type, non_stop, stop_location, w, travel_ticks, max_speed, implicit),
            VehicleOrder::Depot { depot, stop, travel_ticks, refit_cargo, unbunch, .. } =>
                mk_depot(depot, stop, w, travel_ticks, refit_cargo, unbunch),
            _ => self,
        }
    }

    pub open spec fn spec_with_travel(self, t: u32) -> VehicleOrder {
        match self {
            VehicleOrder::Station { station, load_type, unload_type, non_stop, stop_location, wait_ticks, max_speed, implicit, .. } =>
                mk_station(station, load_type, unload_type, non_stop, stop_location, wait_ticks, t, max_speed, implicit),
            VehicleOrder::Waypoint { waypoint, max_speed, .. } => VehicleOrder::Waypoint { waypoint, travel_ticks: t, max_speed },
            VehicleOrder::Depot { depot, stop, wait_ticks, refit_cargo, unbunch, .. } =>
                mk_depot(depot, stop, wait_ticks, t, refit_cargo, unbunch),
            _ => self,
        }
    }

    pub open spec fn spec_with_max_speed(self, m: u16) -> VehicleOrder {
        match self {
            VehicleOrder::Station { station, load_type, unload_type, non_stop, stop_location, wait_ticks, travel_ticks, implicit, .. } =>
                mk_station(station, load_type, unload_type, non_stop, stop_location, wait_ticks, travel_ticks, m, implicit),
            VehicleOrder::Waypoint { waypoint, travel_ticks, .. } => VehicleOrder::Waypoint { waypoint, travel_ticks, max_speed: m },
            _ => self,
        }
    }

    /// Sets the stop wait of a station or depot order; `None` for other orders.
    pub fn with_wait_ticks(self, wait_ticks: u32) -> (r: Option<VehicleOrder>)
        ensures
            (self is Station || self is Depot) ==> r == Some(self.spec_with_wait(wait_ticks)),
            !(self is Station || self is Depot) ==> r is None,
    {
        match self {
            VehicleOrder::Station {
                station,
                load_type,
                unload_type,
                non_stop,
                stop_location,
                wait_ticks: _,
                travel_ticks,
                max_speed,
                implicit,
            } => Some(
                VehicleOrder::Station {
                    station,
                    load_type,
                    unload_type,
                    non_stop,
                    stop_location,
                    wait_ticks,
                    travel_ticks,
                    max_speed,
                    implicit,
                },
            ),
            VehicleOrder::Depot { depot, stop, wait_ticks: _, travel_ticks, refit_cargo, unbunch } => Some(
                VehicleOrder::Depot { depot, stop, wait_ticks, travel_ticks, refit_cargo, unbunch },
            ),
            _ => None,
        }
    }

    /// Sets the leg travel time; orders without one are returned unchanged.
    pub fn with_travel_ticks(self, travel_ticks: u32) -> (r: VehicleOrder)
        ensures
            r == self.spec_with_travel(travel_ticks),
    {
        match self {
            VehicleOrder::Station {
                station,
                load_type,
                unload_type,
                non_stop,
                stop_location,
                wait_ticks,
                travel_ticks: _,
                max_speed,
                implicit,
            } => VehicleOrder::Station {
                station,
                load_type,
                unload_type,
                non_stop,
                stop_location,
                wait_ticks,
                travel_ticks,
                max_speed,
                implicit,
            },
            VehicleOrder::Waypoint { waypoint, travel_ticks: _, max_speed } => VehicleOrder::Waypoint {
                waypoint,
                travel_ticks,
                max_speed,
            },
            VehicleOrder::Depot { depot, stop, wait_ticks, travel_ticks: _, refit_cargo, unbunch } =>
                VehicleOrder::Depot { depot, stop, wait_ticks, travel_ticks, refit_cargo, unbunch },
            other => other,
        }
    }

    pub fn max_speed_limit(self) -> (r: u16)
        ensures
            r == spec_max_speed_limit(self),
    {
        match self {
            VehicleOrder::Station { max_speed, .. } => max_speed,
            VehicleOrder::Waypoint { max_speed, .. } => max_speed,
            _ => 0,
        }
    }

    /// Sets the leg speed ceiling of a station or waypoint order; others are unchanged.
    pub fn with_max_speed(self, max_speed: u16) -> (r: VehicleOrder)
        ensures
            r == self.spec_with_max_speed(max_speed),
    {
        match self {
            VehicleOrder::Station {
                station,
                load_type,
                unload_type,
                non_stop,
                stop_location,
                wait_ticks,
                travel_ticks,
                max_speed: _,
                implicit,
            } => VehicleOrder::Station {
                station,
                load_type,
                unload_type,
                non_stop,
                stop_location,
                wait_ticks,
                travel_ticks,
                max_speed,
                implicit,
            },
            VehicleOrder::Waypoint { waypoint, travel_ticks, max_speed: _ } => VehicleOrder::Waypoint {
                waypoint,
                travel_ticks,
                max_speed,
            },
            other => other,
        }
    }

    pub fn depot_unbunch(self) -> (r: bool)
        ensures
            r == (self is Depot && self->unbunch),
    {
        match self {
            VehicleOrder::Depot { unbunch, .. } => unbunch,
            _ => false,
        }
    }

    /// Toggles unbunching on a depot order; unbunching implies a service stop.
    pub fn with_toggled_depot_unbunch(self) -> (r: Option<VehicleOrder>)
        ensures
            self is Depot ==> r == Some(
                depot_with_flags(self, true, self->refit_cargo, !self->unbunch),
            ),
            !(self is Depot) ==> r is None,
    {
        match self {
            VehicleOrder::Depot { depot, stop: _, wait_ticks, travel_ticks, refit_cargo, unbunch } => Some(
                VehicleOrder::Depot {
                    depot,
                    stop: true,
                    wait_ticks,
                    travel_ticks,
                    refit_cargo,
                    unbunch: !unbunch,
                },
            ),
            _ => None,
        }
    }

    /// Length of one timetable cycle of this order (wait plus travel, saturating).
    pub fn cycle_ticks(self) -> (r: u32)
        ensures
            r as int == if spec_wait_ticks(self) + spec_travel_ticks(self) > u32::MAX {
                u32::MAX as int
            } else {
                spec_wait_ticks(self) + spec_travel_ticks(self)
            },
    {
        self.wait_ticks().saturating_add(self.travel_ticks())
    }
}


/// `station` is the destination of a station order in `orders` and differs from `last`.
pub open spec fn is_candidate_stop(orders: Seq<VehicleOrder>, last: TileCoord, station: TileCoord) -> bool {
    station != last && exists|i: int|
        0 <= i < orders.len() && #[trigger] orders[i] is Station && orders[i]->station == station
}

/// Index of the order after the implicit index `cur` (clamped into the
/// list), cyclically.
pub open spec fn order_after(orders: Seq<VehicleOrder>, cur: usize) -> int {
    let n = orders.len() as int;
    (if cur < n - 1 { cur as int } else { n - 1 } + 1) % n
}

/// The order after the current one is a station other than the last one
/// visited: the walk stops there at once.
pub open spec fn next_is_new_station(orders: Seq<VehicleOrder>, cur: usize, last: TileCoord) -> bool {
    &&& orders.len() > 0
    &&& orders[order_after(orders, cur)] is Station
    &&& orders[order_after(orders, cur)]->station != last
}

/// Every entry is a candidate stop and no entry occurs twice.
pub open spec fn valid_stop_list(orders: Seq<VehicleOrder>, last: TileCoord, out: Seq<TileCoord>) -> bool {
    &&& forall|k: int| 0 <= k < out.len() ==> is_candidate_stop(orders, last, #[trigger] out[k])
    &&& forall|a: int, b: int| 0 <= a < b < out.len() ==> out[a] != out[b]
}

/// Most walks started from conditional branches before the search gives up.
pub open spec fn stop_walk_limit(n: int) -> int {
    if n <= usize::MAX as int / 2 { 2 * n } else { usize::MAX as int }
}

/// `acc` with `station` appended unless already listed.
pub open spec fn add_stop(acc: Seq<TileCoord>, station: TileCoord) -> Seq<TileCoord> {
    if acc.contains(station) { acc } else { acc.push(station) }
}

/// Whether a conditional order with a known load percentage jumps.
pub open spec fn stop_walk_jumps(
    condition: OrderConditionKind,
    comparator: OrderConditionComparator,
    value: u16,
    pct: u8,
) -> bool {
    let chosen = match spec_legacy_comparator(condition) {
        Some(c) => c,
        None => comparator,
    };
    match condition {
        OrderConditionKind::Unconditionally => true,
        OrderConditionKind::CargoLoadAbove | OrderConditionKind::CargoLoadBelow
        | OrderConditionKind::LoadPercentage => spec_compare(chosen, pct as u16, value),
        _ => false,
    }
}

/// Stops collected by a walk started at `first` (or after the implicit
/// index `cur` when `None`), `hops` branches deep, onto `acc`.
pub open spec fn stops_collected(
    orders: Seq<VehicleOrder>,
    cur: usize,
    last: TileCoord,
    pct: Option<u8>,
    first: Option<usize>,
    hops: int,
    acc: Seq<TileCoord>,
) -> Seq<TileCoord>
    decreases stop_walk_limit(orders.len() as int) + 1 - hops, orders.len() + 1,
{
    let n = orders.len() as int;
    if n == 0 || hops > stop_walk_limit(n) || hops == usize::MAX as int || hops < 0 {
        acc
    } else {
        let start: int = if cur < n - 1 { cur as int } else { n - 1 };
        let next: int = match first {
            Some(idx) => (idx as int) % n,
            None => (start + 1) % n,
        };
        let origin: int = match first {
            Some(idx) => idx as int,
            None => start,
        };
        stops_walked(orders, cur, last, pct, origin, next, n, hops, acc)
    }
}

/// The walk from order `next` with `left` visits to go.
pub open spec fn stops_walked(
    orders: Seq<VehicleOrder>,
    cur: usize,
    last: TileCoord,
    pct: Option<u8>,
    origin: int,
    next: int,
    left: int,
    hops: int,
    acc: Seq<TileCoord>,
) -> Seq<TileCoord>
    decreases stop_walk_limit(orders.len() as int) + 1 - hops, left,
{
    let n = orders.len() as int;
    if left <= 0 || n == 0 || next < 0 || next >= n || hops < 0 || hops > stop_walk_limit(n) {
        acc
    } else {
        match orders[next] {
            VehicleOrder::Conditional { condition, comparator, value, jump_to } => {
                let skip_to: int = if jump_to < n - 1 { jump_to as int } else { n - 1 };
                match pct {
                    None => {
                        let advance = (next + 1) % n;
                        let a1 = if skip_to != origin {
                            stops_collected(orders, cur, last, pct, Some(skip_to as usize), hops + 1, acc)
                        } else {
                            acc
                        };
                        if advance != origin && advance != skip_to {
                            stops_collected(orders, cur, last, pct, Some(advance as usize), hops + 1, a1)
                        } else {
                            a1
                        }
                    },
                    Some(p) => {
                        let nx = if stop_walk_jumps(condition, comparator, value, p) { skip_to } else { (next + 1) % n };
                        stops_walked(orders, cur, last, pct, origin, nx, left - 1, hops, acc)
                    },
                }
            },
            VehicleOrder::Station { station, unload_type, .. } => if station != last {
                add_stop(acc, station)
            } else if unload_type == OrderUnloadType::Transfer {
                acc
            } else {
                let nx = (next + 1) % n;
                if nx == origin { acc } else { stops_walked(orders, cur, last, pct, origin, nx, left - 1, hops, acc) }
            },
            _ => {
                let nx = (next + 1) % n;
                if nx == origin { acc } else { stops_walked(orders, cur, last, pct, origin, nx, left - 1, hops, acc) }
            },
        }
    }
}

impl VehicleOrder {
    /// Next distinct station in the circular list (`next_hop` for manual routing):
    /// the first candidate of [`Self::get_next_stopping_station`].
    pub fn next_station_hop(orders: &[VehicleOrder], current_order: usize, from: TileCoord) -> (r:
        Option<TileCoord>)
        ensures
            r matches Some(st) ==> is_candidate_stop(orders@, from, st),
            orders@.len() == 0 ==> r is None,
            next_is_new_station(orders@, current_order, from) ==> r == Some(
                orders@[order_after(orders@, current_order)]->station,
            ),
            ({
                let stops = stops_collected(orders@, current_order, from, None, None, 0, seq![]);
                r == if stops.len() > 0 { Some(stops[0]) } else { None }
            }),
    {
        let v = Self::get_next_stopping_station(orders, current_order, from, None);
        if v.len() > 0 {
            proof {
                assert(is_candidate_stop(orders@, from, v@[0]));
            }
            Some(v[0])
        } else {
            None
        }
    }

    /// `OrderList::GetNextStoppingStation`: walks the list after the current
    /// order, through waypoints, depots and conditionals, and returns the
    /// candidate next stations (both branches of a conditional whose load
    /// percentage is unknown).
    ///
    /// A walk whose conditional jumps cycle without ever reaching a stop or
    /// the starting order ends with no candidate from that branch.
    pub fn get_next_stopping_station(
        orders: &[VehicleOrder],
        cur_implicit: usize,
        last_station: TileCoord,
        cargo_load_pct: Option<u8>,
    ) -> (r: Vec<TileCoord>)
        ensures
            valid_stop_list(orders@, last_station, r@),
            orders@.len() == 0 ==> r@.len() == 0,
            next_is_new_station(orders@, cur_implicit, last_station) ==> r@ == seq![
                orders@[order_after(orders@, cur_implicit)]->station,
            ],
            r@ == stops_collected(orders@, cur_implicit, last_station, cargo_load_pct, None, 0, seq![]),
    {
        let mut out: Vec<TileCoord> = Vec::new();
        Self::collect_next_stopping_station(
            orders,
            cur_implicit,
            last_station,
            cargo_load_pct,
            None,
            0,
            &mut out,
        );
        out
    }

    fn collect_next_stopping_station(
        orders: &[VehicleOrder],
        cur_implicit: usize,
        last_station: TileCoord,
        cargo_load_pct: Option<u8>,
        first: Option<usize>,
        hops: usize,
        out: &mut Vec<TileCoord>,
    )
        requires
            valid_stop_list(orders@, last_station, old(out)@),
        ensures
            valid_stop_list(orders@, last_station, final(out)@),
            orders@.len() == 0 ==> final(out)@ == old(out)@,
            first is None && hops == 0 && old(out)@.len() == 0 && next_is_new_station(
                orders@,
                cur_implicit,
                last_station,
            ) ==> final(out)@ == seq![orders@[order_after(orders@, cur_implicit)]->station],
            final(out)@ == stops_collected(orders@, cur_implicit, last_station, cargo_load_pct, first, hops as int, old(out)@),
        decreases 2 * orders@.len() + 1 - hops,
    {
        let ghost target = stops_collected(orders@, cur_implicit, last_station, cargo_load_pct, first, hops as int, out@);
        let n = orders.len();
        let limit: usize = if n <= usize::MAX / 2 {
            n * 2
        } else {
            usize::MAX
        };
        if n == 0 || hops > limit || hops == usize::MAX {
            return;
        }
        let mut next: usize = match first {
            Some(idx) => idx % n,
            None => {
                let start = if cur_implicit < n - 1 {
                    cur_implicit
                } else {
                    n - 1
                };
                (start + 1) % n
            },
        };
        let origin: usize = match first {
            Some(idx) => idx,
            None => {
                if cur_implicit < n - 1 {
                    cur_implicit
                } else {
                    n - 1
                }
            },
        };
        let ghost quick = first is None && hops == 0 && old(out)@.len() == 0 && next_is_new_station(
            orders@,
            cur_implicit,
            last_station,
        );
        proof {
            if first is None {
                assert(next == order_after(orders@, cur_implicit));
            }
        }
        let mut visits: usize = 0;
        while visits < n
            invariant
                n == orders@.len(),
                n > 0,
                visits <= n,
                next < n,
                hops <= 2 * n,
                hops < usize::MAX,
                valid_stop_list(orders@, last_station, out@),
                quick ==> visits == 0 && next == order_after(orders@, cur_implicit) && out@.len() == 0,
                quick ==> orders@[next as int] is Station && orders@[next as int]->station != last_station,
                quick == (first is None && hops == 0 && old(out)@.len() == 0 && next_is_new_station(
                    orders@,
                    cur_implicit,
                    last_station,
                )),
                hops <= stop_walk_limit(n as int),
                target == stops_collected(orders@, cur_implicit, last_station, cargo_load_pct, first, hops as int, old(out)@),
                target == stops_walked(orders@, cur_implicit, last_station, cargo_load_pct, origin as int, next as int, n - visits, hops as int, out@),
            decreases n + 1 - visits,
        {
            visits = visits + 1;
            let order = orders[next];
            match order {
                VehicleOrder::Conditional { condition, comparator, value, jump_to } => {
                    let pct: u16 = match cargo_load_pct {
                        Some(p) => p as u16,
                        None => 0,
                    };
                    let comparator = match condition.legacy_comparator() {
                        Some(c) => c,
                        None => comparator,
                    };
                    let take_jump = match condition {
                        OrderConditionKind::Unconditionally => true,
                        OrderConditionKind::CargoLoadAbove | OrderConditionKind::CargoLoadBelow
                        | OrderConditionKind::LoadPercentage => comparator.compare(pct, value),
                        _ => false,
                    };
                    let skip_to = if jump_to < n - 1 {
                        jump_to
                    } else {
                        n - 1
                    };
                    if cargo_load_pct.is_none() {
                        let advance = (next + 1) % n;
                        if skip_to != origin {
                            Self::collect_next_stopping_station(
                                orders,
                                cur_implicit,
                                last_station,
                                cargo_load_pct,
                                Some(skip_to),
                                hops + 1,
                                out,
                            );
                        }
                        if advance != origin && advance != skip_to {
                            Self::collect_next_stopping_station(
                                orders,
                                cur_implicit,
                                last_station,
                                cargo_load_pct,
                                Some(advance),
                                hops + 1,
                                out,
                            );
                        }
                        return;
                    }
                    next = if take_jump {
                        skip_to
                    } else {
                        (next + 1) % n
                    };
                },
                VehicleOrder::Station { station, unload_type, .. } => {
                    if station != last_station {
                        let mut k: usize = 0;
                        let mut seen = false;
                        while k < out.len()
                            invariant
                                k <= out@.len(),
                                seen == (exists|j: int| 0 <= j < k && out@[j] == station),
                            decreases out@.len() - k,
                        {
                            if out[k] == station {
                                seen = true;
                            }
                            k = k + 1;
                        }
                        if !seen {
                            proof {
                                assert(orders@[next as int] is Station);
                                assert(is_candidate_stop(orders@, last_station, station));
                            }
                            out.push(station);
                            proof {
                                assert forall|a: int, b: int| 0 <= a < b < out@.len() implies out@[a]
                                    != out@[b] by {
                                    if b == out@.len() - 1 {
                                        assert(out@[b] == station);
                                    }
                                }
                            }
                        }
                        return;
                    }
                    if unload_type == OrderUnloadType::Transfer {
                        return;
                    }
                    next = (next + 1) % n;
                    if next == origin {
                        return;
                    }
                },
                _ => {
                    next = (next + 1) % n;
                    if next == origin {
                        return;
                    }
                },
            }
        }
    }
}

fn sums_for_type(units: &[(CargoType, u32, u32)], t: CargoType) -> (r: (u128, u128))
    ensures
        r.0 as int == sum_cargo_of(units@, t),
        r.1 as int == sum_capacity_of(units@, t),
{
    let mut c: u128 = 0;
    let mut cap: u128 = 0;
    let mut i: usize = 0;
    while i < units.len()
        invariant
            i <= units@.len(),
            c as int == sum_cargo_of(units@.subrange(0, i as int), t),
            cap as int == sum_capacity_of(units@.subrange(0, i as int), t),
        decreases units@.len() - i,
    {
        proof {
            lemma_sums_nonneg(units@.subrange(0, i as int), t);
            assert(units@.subrange(0, i + 1).drop_last() =~= units@.subrange(0, i as int));
            assert(i * 0xFFFF_FFFF <= 0xFFFF_FFFF_FFFF_FFFF * 0xFFFF_FFFF) by (nonlinear_arith)
                requires
                    i <= 0xFFFF_FFFF_FFFF_FFFF,
            ;
        }
        let (ut, uc, ucap) = units[i];
        if ut == t && ucap > 0 {
            c = c + uc as u128;
            cap = cap + ucap as u128;
        }
        i = i + 1;
    }
    assert(units@.subrange(0, units@.len() as int) =~= units@);
    (c, cap)
}

proof fn lemma_unit_capacity_counts(units: Seq<(CargoType, u32, u32)>, j: int)
    requires
        0 <= j < units.len(),
        units[j].2 > 0,
    ensures
        sum_capacity_of(units, units[j].0) > 0,
    decreases units.len(),
{
    lemma_sums_nonneg(units.drop_last(), units[j].0);
    if j < units.len() - 1 {
        lemma_unit_capacity_counts(units.drop_last(), j);
    }
}

/// Law: cycling the stop location three times returns to the start.
pub proof fn lemma_stop_location_cycle(s: OrderStopLocation)
    ensures
        spec_stop_location_next(spec_stop_location_next(spec_stop_location_next(s))) == s,
{
}

/// Law: cycling the loading policy four times returns to the start.
pub proof fn lemma_load_type_cycle(l: OrderLoadType)
    ensures
        spec_load_next(spec_load_next(spec_load_next(spec_load_next(l)))) == l,
{
}

/// Law: cycling the unloading policy four times returns to the start.
pub proof fn lemma_unload_type_cycle(u: OrderUnloadType)
    ensures
        spec_unload_next(spec_unload_next(spec_unload_next(spec_unload_next(u)))) == u,
{
}

/// Law: a stop-location code read back by `from_u8` gives the same location.
pub proof fn lemma_stop_location_code_roundtrip(s: OrderStopLocation)
    ensures
        (if stop_location_code(s) % 4 == 0 {
            OrderStopLocation::NearEnd
        } else if stop_location_code(s) % 4 == 2 {
            OrderStopLocation::FarEnd
        } else {
            OrderStopLocation::Middle
        }) == s,
{
}

/// Law: a comparator code read back by `from_u8` gives the same comparator.
pub proof fn lemma_comparator_code_roundtrip(c: OrderConditionComparator)
    ensures
        comparator_code(c) <= 7,
        forall|d: OrderConditionComparator| comparator_code(d) == comparator_code(c) ==> d == c,
{
}

/// Law: setting the leg travel time and reading it back gives the value set,
/// for every order kind that has a travel time.
pub proof fn lemma_travel_ticks_read_after_write(o: VehicleOrder, t: u32)
    requires
        o is Station || o is Waypoint || o is Depot,
    ensures
        spec_travel_ticks(o.spec_with_travel(t)) == t,
        spec_destination(o.spec_with_travel(t)) == spec_destination(o),
        spec_wait_ticks(o.spec_with_travel(t)) == spec_wait_ticks(o),
{
}

/// Law: setting the stop wait and reading it back gives the value set.
pub proof fn lemma_wait_ticks_read_after_write(o: VehicleOrder, w: u32)
    requires
        o is Station || o is Depot,
    ensures
        spec_wait_ticks(o.spec_with_wait(w)) == w,
        spec_travel_ticks(o.spec_with_wait(w)) == spec_travel_ticks(o),
        spec_destination(o.spec_with_wait(w)) == spec_destination(o),
{
}

/// An order as saves store it. Older saves wrote the load and unload
/// policies as independent flags; newer ones write only the two policies.
#[derive(Debug, Clone, Copy, PartialEq, Eq, Structural)]
pub enum VehicleOrderRecord {
    Station {
        station: TileCoord,
        load_type: Option<OrderLoadType>,
        unload_type: Option<OrderUnloadType>,
        full_load: bool,
        full_load_any: bool,
        no_load: bool,
        no_unload: bool,
        transfer: bool,
        non_stop: OrderNonStop,
        stop_location: OrderStopLocation,
        wait_ticks: u32,
        travel_ticks: u32,
        max_speed: u16,
        implicit: bool,
    },
    Waypoint { waypoint: TileCoord, travel_ticks: u32, max_speed: u16 },
    Depot {
        depot: TileCoord,
        stop: bool,
        wait_ticks: u32,
        travel_ticks: u32,
        refit_cargo: Option<CargoType>,
        unbunch: bool,
    },
    Tile(TileCoord),
    Conditional {
        condition: OrderConditionKind,
        comparator: Option<OrderConditionComparator>,
        value: u16,
        jump_to: usize,
    },
}

/// Load policy of the legacy flags: no-load wins over full-load-any, which
/// wins over full load.
pub open spec fn legacy_load_type(no_load: bool, full_load_any: bool, full_load: bool) -> OrderLoadType {
    if no_load {
        OrderLoadType::NoLoad
    } else if full_load_any {
        OrderLoadType::FullLoadAny
    } else if full_load {
        OrderLoadType::FullLoad
    } else {
        OrderLoadType::LoadIfPossible
    }
}

/// Unload policy of the legacy flags: transfer wins over no-unload.
pub open spec fn legacy_unload_type(transfer: bool, no_unload: bool) -> OrderUnloadType {
    if transfer {
        OrderUnloadType::Transfer
    } else if no_unload {
        OrderUnloadType::NoUnload
    } else {
        OrderUnloadType::UnloadIfPossible
    }
}

/// The order a stored record reads back as: a stored policy is taken as it
/// is, a missing one comes from the legacy flags; a missing comparator is
/// the condition's historical one, else `MoreThan`.
pub open spec fn spec_order_from_record(r: VehicleOrderRecord) -> VehicleOrder {
    match r {
        VehicleOrderRecord::Station {
            station,
            load_type,
            unload_type,
            full_load,
            full_load_any,
            no_load,
            no_unload,
            transfer,
            non_stop,
            stop_location,
            wait_ticks,
            travel_ticks,
            max_speed,
            implicit,
        } => VehicleOrder::Station {
            station,
            load_type: match load_type {
                Some(l) => l,
                None => legacy_load_type(no_load, full_load_any, full_load),
            },
            unload_type: match unload_type {
                Some(u) => u,
                None => legacy_unload_type(transfer, no_unload),
            },
            non_stop,
            stop_location,
            wait_ticks,
            travel_ticks,
            max_speed,
            implicit,
        },
        VehicleOrderRecord::Waypoint { waypoint, travel_ticks, max_speed } => VehicleOrder::Waypoint {
            waypoint,
            travel_ticks,
            max_speed,
        },
        VehicleOrderRecord::Depot { depot, stop, wait_ticks, travel_ticks, refit_cargo, unbunch } =>
            VehicleOrder::Depot { depot, stop, wait_ticks, travel_ticks, refit_cargo, unbunch },
        VehicleOrderRecord::Tile(tile) => VehicleOrder::Tile(tile),
        VehicleOrderRecord::Conditional { condition, comparator, value, jump_to } =>
            VehicleOrder::Conditional {
            condition,
            comparator: match comparator {
                Some(c) => c,
                None => match spec_legacy_comparator(condition) {
                    Some(c) => c,
                    None => OrderConditionComparator::MoreThan,
                },
            },
            value,
            jump_to,
        },
    }
}

/// The record written for an order: both policies and the comparator are
/// stored, the legacy flags left clear.
pub open spec fn spec_record_from_order(o: VehicleOrder) -> VehicleOrderRecord {
    match o {
        VehicleOrder::Station {
            station,
            load_type,
            unload_type,
            non_stop,
            stop_location,
            wait_ticks,
            travel_ticks,
            max_speed,
            implicit,
        } => VehicleOrderRecord::Station {
            station,
            load_type: Some(load_type),
            unload_type: Some(unload_type),
            full_load: false,
            full_load_any: false,
            no_load: false,
            no_unload: false,
            transfer: false,
            non_stop,
            stop_location,
            wait_ticks,
            travel_ticks,
            max_speed,
            implicit,
        },
        VehicleOrder::Waypoint { waypoint, travel_ticks, max_speed } => VehicleOrderRecord::Waypoint {
            waypoint,
            travel_ticks,
            max_speed,
        },
        VehicleOrder::Depot { depot, stop, wait_ticks, travel_ticks, refit_cargo, unbunch } =>
            VehicleOrderRecord::Depot { depot, stop, wait_ticks, travel_ticks, refit_cargo, unbunch },
        VehicleOrder::Tile(tile) => VehicleOrderRecord::Tile(tile),
        VehicleOrder::Conditional { condition, comparator, value, jump_to } =>
            VehicleOrderRecord::Conditional { condition, comparator: Some(comparator), value, jump_to },
    }
}

impl From<VehicleOrder> for VehicleOrderRecord {
    fn from(order: VehicleOrder) -> (r: VehicleOrderRecord) {
        match order {
            VehicleOrder::Station {
                station,
                load_type,
                unload_type,
                non_stop,
                stop_location,
                wait_ticks,
                travel_ticks,
                max_speed,
                implicit,
            } => VehicleOrderRecord::Station {
                station,
                load_type: Some(load_type),
                unload_type: Some(unload_type),
                full_load: false,
                full_load_any: false,
                no_load: false,
                no_unload: false,
                transfer: false,
                non_stop,
                stop_location,
                wait_ticks,
                travel_ticks,
                max_speed,
                implicit,
            },
            VehicleOrder::Waypoint { waypoint, travel_ticks, max_speed } => VehicleOrderRecord::Waypoint {
                waypoint,
                travel_ticks,
                max_speed,
            },
            VehicleOrder::Depot { depot, stop, wait_ticks, travel_ticks, refit_cargo, unbunch } =>
                VehicleOrderRecord::Depot { depot, stop, wait_ticks, travel_ticks, refit_cargo, unbunch },
            VehicleOrder::Tile(tile) => VehicleOrderRecord::Tile(tile),
            VehicleOrder::Conditional { condition, comparator, value, jump_to } =>
                VehicleOrderRecord::Conditional { condition, comparator: Some(comparator), value, jump_to },
        }
    }
}

impl vstd::std_specs::convert::FromSpecImpl<VehicleOrder> for VehicleOrderRecord {
    open spec fn obeys_from_spec() -> bool {
        true
    }

    open spec fn from_spec(order: VehicleOrder) -> VehicleOrderRecord {
        spec_record_from_order(order)
    }
}

impl From<VehicleOrderRecord> for VehicleOrder {
    fn from(record: VehicleOrderRecord) -> (r: VehicleOrder) {
        match record {
            VehicleOrderRecord::Station {
                station,
                load_type,
                unload_type,
                full_load,
                full_load_any,
                no_load,
                no_unload,
                transfer,
                non_stop,
                stop_location,
                wait_ticks,
                travel_ticks,
                max_speed,
                implicit,
            } => {
                let load = match load_type {
                    Some(l) => l,
                    None => if no_load {
                        OrderLoadType::NoLoad
                    } else if full_load_any {
                        OrderLoadType::FullLoadAny
                    } else if full_load {
                        OrderLoadType::FullLoad
                    } else {
                        OrderLoadType::LoadIfPossible
                    },
                };
                let unload = match unload_type {
                    Some(u) => u,
                    None => if transfer {
                        OrderUnloadType::Transfer
                    } else if no_unload {
                        OrderUnloadType::NoUnload
                    } else {
                        OrderUnloadType::UnloadIfPossible
                    },
                };
                VehicleOrder::Station {
                    station,
                    load_type: load,
                    unload_type: unload,
                    non_stop,
                    stop_location,
                    wait_ticks,
                    travel_ticks,
                    max_speed,
                    implicit,
                }
            },
            VehicleOrderRecord::Waypoint { waypoint, travel_ticks, max_speed } => VehicleOrder::Waypoint {
                waypoint,
                travel_ticks,
                max_speed,
            },
            VehicleOrderRecord::Depot { depot, stop, wait_ticks, travel_ticks, refit_cargo, unbunch } =>
                VehicleOrder::Depot { depot, stop, wait_ticks, travel_ticks, refit_cargo, unbunch },
            VehicleOrderRecord::Tile(tile) => VehicleOrder::Tile(tile),
            VehicleOrderRecord::Conditional { condition, comparator, value, jump_to } => {
                let c = match comparator {
                    Some(c) => c,
                    None => match condition.legacy_comparator() {
                        Some(c) => c,
                        None => OrderConditionComparator::MoreThan,
                    },
                };
                VehicleOrder::Conditional { condition, comparator: c, value, jump_to }
            },
        }
    }
}

impl vstd::std_specs::convert::FromSpecImpl<VehicleOrderRecord> for VehicleOrder {
    open spec fn obeys_from_spec() -> bool {
        true
    }

    open spec fn from_spec(record: VehicleOrderRecord) -> VehicleOrder {
        spec_order_from_record(record)
    }
}

/// Reading back what was written gives the order unchanged, for every order.
pub proof fn lemma_order_record_round_trip(o: VehicleOrder)
    ensures
        spec_order_from_record(spec_record_from_order(o)) == o,
{
}

/// A record written by a current save (both policies present) reads back
/// with those policies, whatever legacy flags it also carries.
pub proof fn lemma_stored_policies_win(r: VehicleOrderRecord)
    requires
        r matches VehicleOrderRecord::Station { load_type: Some(_), unload_type: Some(_), .. },
    ensures
        spec_order_from_record(r)->load_type == r->Station_load_type->0,
        spec_order_from_record(r)->unload_type == r->Station_unload_type->0,
{
}

} // verus!
