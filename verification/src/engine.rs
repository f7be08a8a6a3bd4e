//! Engine statistics used by vehicles: reliability, ageing and the
//! locomotive/wagon distinction. The built-in table holds one default
//! engine per vehicle kind and a passenger wagon.

use vstd::prelude::*;
use crate::common::VehicleKind;

verus! {

/// Reliability decrease per day of the default engines.
pub const DEFAULT_RELIABILITY_SPD_DEC: u16 = 20;

pub const ENGINE_ROAD_BUS: u16 = 116;
pub const ENGINE_ROAD_TRUCK: u16 = 117;
pub const ENGINE_ROAD_TRAM: u16 = 118;
pub const ENGINE_TRAIN_STEAM: u16 = 0;
pub const ENGINE_WAGON_PASSENGER: u16 = 27;
pub const ENGINE_SHIP_MPS: u16 = 204;
pub const ENGINE_AIRCRAFT: u16 = 215;

/// Statistics of one engine type.
#[derive(Debug, Clone, Copy, PartialEq, Eq, Structural)]
pub struct EngineDef {
    pub id: u16,
    pub kind: VehicleKind,
    /// Maximum reliability in percent.
    pub reliability_pct: u8,
    /// Reliability decrease per day (`reliability_spd_dec`).
    pub reliability_spd_dec: u16,
    /// Design life in years.
    pub lifelength_years: u8,
    pub power_hp: u32,
    pub capacity: u32,
}

/// A rail unit without power but with cargo capacity is a wagon.
pub open spec fn spec_engine_is_wagon(e: EngineDef) -> bool {
    e.kind == VehicleKind::Train && e.power_hp == 0 && e.capacity > 0
}

impl EngineDef {
    pub fn is_wagon(&self) -> (r: bool)
        ensures
            r == spec_engine_is_wagon(*self),
    {
        self.kind == VehicleKind::Train && self.power_hp == 0 && self.capacity > 0
    }

    /// A locomotive or multiple unit: may lead a consist.
    pub fn is_train_engine(&self) -> (r: bool)
        ensures
            r == (self.kind == VehicleKind::Train && !spec_engine_is_wagon(*self)),
    {
        self.kind == VehicleKind::Train && !self.is_wagon()
    }
}

/// Whether the engine is a wagon (no power, some capacity).
pub fn engine_is_wagon(engine: &EngineDef) -> (r: bool)
    ensures
        r == spec_engine_is_wagon(*engine),
{
    engine.is_wagon()
}

/// Whether the engine is a locomotive or multiple unit (may head a consist).
pub fn engine_is_train_engine(engine: &EngineDef) -> (r: bool)
    ensures
        r == (engine.kind == VehicleKind::Train && !spec_engine_is_wagon(*engine)),
{
    engine.is_train_engine()
}

pub open spec fn spec_default_engine_id(kind: VehicleKind) -> u16 {
    match kind {
        VehicleKind::Bus => ENGINE_ROAD_BUS,
        VehicleKind::Truck => ENGINE_ROAD_TRUCK,
        VehicleKind::Tram => ENGINE_ROAD_TRAM,
        VehicleKind::Train => ENGINE_TRAIN_STEAM,
        VehicleKind::Ship => ENGINE_SHIP_MPS,
        VehicleKind::Aircraft => ENGINE_AIRCRAFT,
    }
}

/// Engine bought by default for a vehicle kind.
pub fn default_engine_id(kind: VehicleKind) -> (r: u16)
    ensures
        r == spec_default_engine_id(kind),
{
    match kind {
        VehicleKind::Bus => ENGINE_ROAD_BUS,
        VehicleKind::Truck => ENGINE_ROAD_TRUCK,
        VehicleKind::Tram => ENGINE_ROAD_TRAM,
        VehicleKind::Train => ENGINE_TRAIN_STEAM,
        VehicleKind::Ship => ENGINE_SHIP_MPS,
        VehicleKind::Aircraft => ENGINE_AIRCRAFT,
    }
}

pub open spec fn default_engine_def(kind: VehicleKind) -> EngineDef {
    EngineDef {
        id: spec_default_engine_id(kind),
        kind,
        reliability_pct: 85,
        reliability_spd_dec: DEFAULT_RELIABILITY_SPD_DEC,
        lifelength_years: 30,
        power_hp: match kind {
            VehicleKind::Train => 300,
            _ => 0,
        },
        capacity: 20,
    }
}

/// The table entry of `id` for `kind`; unknown ids fall back to the kind's default engine.
pub open spec fn spec_engine_for_vehicle(kind: VehicleKind, id: u16) -> EngineDef {
    if kind == VehicleKind::Train && id == ENGINE_WAGON_PASSENGER {
        EngineDef {
            id: ENGINE_WAGON_PASSENGER,
            kind: VehicleKind::Train,
            reliability_pct: 85,
            reliability_spd_dec: DEFAULT_RELIABILITY_SPD_DEC,
            lifelength_years: 30,
            power_hp: 0,
            capacity: 40,
        }
    } else {
        default_engine_def(kind)
    }
}

pub fn engine_for_vehicle(kind: VehicleKind, id: u16) -> (r: EngineDef)
    ensures
        r == spec_engine_for_vehicle(kind, id),
{
    if kind == VehicleKind::Train && id == ENGINE_WAGON_PASSENGER {
        EngineDef {
            id: ENGINE_WAGON_PASSENGER,
            kind: VehicleKind::Train,
            reliability_pct: 85,
            reliability_spd_dec: DEFAULT_RELIABILITY_SPD_DEC,
            lifelength_years: 30,
            power_hp: 0,
            capacity: 40,
        }
    } else {
        EngineDef {
            id: default_engine_id(kind),
            kind,
            reliability_pct: 85,
            reliability_spd_dec: DEFAULT_RELIABILITY_SPD_DEC,
            lifelength_years: 30,
            power_hp: match kind {
                VehicleKind::Train => 300,
                _ => 0,
            },
            capacity: 20,
        }
    }
}

/// The engine table answers for the kind asked about: every lookup gives an
/// engine of that kind; each kind's default engine looks up as itself; the
/// passenger wagon (id 27) is the one train entry that is a wagon, every
/// other train entry is a locomotive that can lead a consist; defaults run
/// at 85% reliability for 30 years.
pub proof fn lemma_engine_lookup(kind: VehicleKind, id: u16)
    ensures
        spec_engine_for_vehicle(kind, id).kind == kind,
        spec_engine_for_vehicle(kind, spec_default_engine_id(kind)) == default_engine_def(kind),
        spec_engine_is_wagon(spec_engine_for_vehicle(kind, id)) <==> (kind == VehicleKind::Train && id == 27),
        kind == VehicleKind::Train && id != 27 ==> spec_engine_for_vehicle(kind, id).power_hp > 0,
        spec_engine_for_vehicle(kind, id).reliability_pct == 85,
        spec_engine_for_vehicle(kind, id).lifelength_years == 30,
        id != spec_default_engine_id(kind) && !(kind == VehicleKind::Train && id == 27) ==> spec_engine_for_vehicle(kind, id)
            == default_engine_def(kind),
{
}

} // verus!
