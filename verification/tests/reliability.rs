use openttdrs_core::common::{TileCoord, VehicleKind};
use openttdrs_core::random::Randomizer;
use openttdrs_core::vehicle::{breakdown_table_index, Vehicle, DAYS_PER_VEHICLE_YEAR, MAX_ECONOMY_AGE_DAYS, TICKS_PER_DAY};

#[test]
fn breakdown_table_uses_scaled_reliability() {
    assert_eq!(breakdown_table_index(10_000, VehicleKind::Bus, false), 63);
    assert_eq!(breakdown_table_index(1_000, VehicleKind::Bus, false), 6);
    assert_eq!(
        breakdown_table_index(1_000, VehicleKind::Ship, false),
        breakdown_table_index(5_000, VehicleKind::Bus, false)
    );
    assert!(breakdown_table_index(1_000, VehicleKind::Bus, true) > breakdown_table_index(1_000, VehicleKind::Bus, false));
}

#[test]
fn reliability_decays_by_engine_spd_dec() {
    let mut v = Vehicle::new(1, VehicleKind::Bus, TileCoord::new(0, 0), TileCoord::new(1, 0));
    v.reliability = 5_000;
    v.reliability_spd_dec = 80;
    v.running = true;
    let before = v.reliability;
    v.check_vehicle_breakdown(&mut Randomizer::new(1));
    assert!(v.reliability < before);
}

#[test]
fn reduced_breakdowns_service_clears_post_service_chance() {
    let mut vehicle = Vehicle::new(1, VehicleKind::Bus, TileCoord::new(0, 0), TileCoord::new(1, 0));
    vehicle.service_breakdown_level = 1;
    vehicle.breakdown_chance = 200;
    vehicle.service_at_depot();
    assert_eq!(vehicle.breakdown_chance, 0);
}

#[test]
fn disabled_breakdowns_never_accumulate_or_trigger() {
    let mut v = Vehicle::new(1, VehicleKind::Train, TileCoord::new(0, 0), TileCoord::new(1, 0));
    v.running = true;
    v.cur_speed = 100;
    v.reliability = 100;
    v.breakdown_chance = 250;
    v.check_vehicle_breakdown_with_setting(&mut Randomizer::new(7), 0, false);
    assert_eq!(v.breakdown_ctr, 0);
    assert_eq!(v.breakdown_chance, 250);
}

#[test]
fn reliability_spd_dec_doubles_after_max_age_year_boundary() {
    let mut v = Vehicle::new(1, VehicleKind::Bus, TileCoord::new(0, 0), TileCoord::new(1, 0));
    v.reliability_spd_dec = 80;
    v.max_age_days = DAYS_PER_VEHICLE_YEAR;
    v.build_tick = 0;
    let calendar_day = u64::from(DAYS_PER_VEHICLE_YEAR);
    v.age_vehicle_calendar_day(calendar_day);
    assert_eq!(v.reliability_spd_dec, 160);
}

#[test]
fn breakdown_requires_min_speed_for_chance() {
    let mut v = Vehicle::new(1, VehicleKind::Truck, TileCoord::new(0, 0), TileCoord::new(1, 0));
    v.reliability = 100;
    v.running = true;
    v.cur_speed = 0;
    v.check_vehicle_breakdown(&mut Randomizer::new(99));
    assert_eq!(v.breakdown_chance, 0);
    assert_eq!(v.breakdown_ctr, 0);
}

#[test]
fn handle_breakdown_stops_vehicle_at_phase_two() {
    let mut v = Vehicle::new(1, VehicleKind::Bus, TileCoord::new(0, 0), TileCoord::new(1, 0));
    v.breakdown_ctr = 2;
    v.breakdown_delay = 120;
    v.cur_speed = 40;
    assert!(v.handle_breakdown(0));
    assert_eq!(v.breakdown_ctr, 1);
    assert_eq!(v.cur_speed, 0);
    assert_eq!(v.breakdowns_since_last_service, 1);
}

#[test]
fn breakdown_delay_uses_native_vehicle_cadence() {
    let mut v = Vehicle::new(1, VehicleKind::Ship, TileCoord::new(0, 0), TileCoord::new(1, 0));
    v.breakdown_ctr = 1;
    v.breakdown_delay = 2;
    v.newgrf_tick_counter = 1;
    assert!(v.handle_breakdown(0));
    assert_eq!(v.breakdown_delay, 2);
    v.newgrf_tick_counter = 2;
    assert!(v.handle_breakdown(0));
    assert_eq!(v.breakdown_delay, 1);
}

#[test]
fn breakdown_start_applies_active_cadence_before_movement() {
    let mut v = Vehicle::new(1, VehicleKind::Ship, TileCoord::new(0, 0), TileCoord::new(1, 0));
    v.breakdown_ctr = 2;
    v.breakdown_delay = 1;
    v.newgrf_tick_counter = 2;
    v.cur_speed = 40;
    assert!(v.handle_breakdown(0));
    assert_eq!(v.breakdown_ctr, 0);
    assert_eq!(v.breakdown_delay, 0);
    assert_eq!(v.breakdowns_since_last_service, 1);
    assert_eq!(v.cur_speed, 0);
}

#[test]
fn breakdown_counter_saturates_at_native_limit() {
    let mut v = Vehicle::new(1, VehicleKind::Aircraft, TileCoord::new(0, 0), TileCoord::new(1, 0));
    v.breakdown_ctr = 2;
    v.breakdowns_since_last_service = u8::MAX;
    assert!(!v.handle_breakdown(0));
    assert_eq!(v.breakdowns_since_last_service, u8::MAX);
}

#[test]
fn economy_age_follows_native_vehicle_unit_rules() {
    let pos = TileCoord::new(1, 1);
    let mut train = Vehicle::new(1, VehicleKind::Train, pos, pos);
    let mut wagon = Vehicle::new(2, VehicleKind::Train, pos, pos);
    wagon.prev_unit = Some(train.id);
    let mut bus = Vehicle::new(3, VehicleKind::Bus, pos, pos);
    let mut articulated_bus = Vehicle::new(4, VehicleKind::Bus, pos, pos);
    articulated_bus.prev_unit = Some(bus.id);
    articulated_bus.newgrf_articulated = true;
    let mut ship = Vehicle::new(5, VehicleKind::Ship, pos, pos);
    let mut aircraft = Vehicle::new(6, VehicleKind::Aircraft, pos, pos);
    for vehicle in [&mut train, &mut wagon, &mut bus, &mut articulated_bus, &mut ship, &mut aircraft] {
        vehicle.economy_age_days = 17;
        vehicle.age_vehicle_economy_day();
    }
    assert_eq!(train.economy_age_days, 18);
    assert_eq!(wagon.economy_age_days, 18);
    assert_eq!(bus.economy_age_days, 18);
    assert_eq!(articulated_bus.economy_age_days, 17);
    assert_eq!(ship.economy_age_days, 18);
    assert_eq!(aircraft.economy_age_days, 18);
}

#[test]
fn economy_age_stays_at_native_maximum() {
    let pos = TileCoord::new(1, 1);
    let mut vehicle = Vehicle::new(1, VehicleKind::Ship, pos, pos);
    vehicle.economy_age_days = MAX_ECONOMY_AGE_DAYS;
    vehicle.age_vehicle_economy_day();
    assert_eq!(vehicle.economy_age_days, MAX_ECONOMY_AGE_DAYS);
}

#[test]
fn newgrf_day_counter_matches_native_economy_units() {
    let pos = TileCoord::new(1, 1);
    let mut train = Vehicle::new(1, VehicleKind::Train, pos, pos);
    let mut wagon = Vehicle::new(2, VehicleKind::Train, pos, pos);
    wagon.prev_unit = Some(train.id);
    let mut road_head = Vehicle::new(3, VehicleKind::Bus, pos, pos);
    let mut articulated_road = Vehicle::new(4, VehicleKind::Bus, pos, pos);
    articulated_road.prev_unit = Some(road_head.id);
    articulated_road.newgrf_articulated = true;
    let mut ship = Vehicle::new(5, VehicleKind::Ship, pos, pos);
    let mut aircraft = Vehicle::new(6, VehicleKind::Aircraft, pos, pos);
    for vehicle in [&mut train, &mut wagon, &mut road_head, &mut articulated_road, &mut ship, &mut aircraft] {
        vehicle.newgrf_day_counter = 41;
        vehicle.advance_newgrf_day_counter();
    }
    assert_eq!(train.newgrf_day_counter, 42);
    assert_eq!(wagon.newgrf_day_counter, 42);
    assert_eq!(road_head.newgrf_day_counter, 42);
    assert_eq!(articulated_road.newgrf_day_counter, 41);
    assert_eq!(ship.newgrf_day_counter, 42);
    assert_eq!(aircraft.newgrf_day_counter, 42);
}

#[test]
fn reduced_breakdowns_decay_reliability_during_loading_window() {
    let pos = TileCoord::new(1, 1);
    let mut vehicle = Vehicle::new(1, VehicleKind::Bus, pos, pos);
    vehicle.running = true;
    vehicle.awaiting_load_window = true;
    vehicle.cur_speed = 100;
    vehicle.reliability = 5_000;
    vehicle.reliability_spd_dec = 80;
    vehicle.breakdown_chance = 17;
    let reliability_before = vehicle.reliability;
    vehicle.check_vehicle_breakdown_with_setting(&mut Randomizer::new(7), 1, false);
    assert!(vehicle.reliability < reliability_before);
    assert_eq!(vehicle.breakdown_chance, 17);
    assert_eq!(vehicle.breakdown_ctr, 0);
}

#[test]
fn service_interval_remains_due_during_breakdown_countdown() {
    let mut vehicle = Vehicle::new(1, VehicleKind::Bus, TileCoord::new(0, 0), TileCoord::new(1, 0));
    vehicle.running = true;
    vehicle.service_interval_days = 1;
    vehicle.last_service_day = 0;
    vehicle.sim_tick = TICKS_PER_DAY;
    vehicle.breakdown_ctr = 64;
    assert!(vehicle.requires_service_for_company(false));
}

#[test]
fn randomizer_is_deterministic_per_seed() {
    let mut a = Randomizer::new(42);
    let mut b = Randomizer::new(42);
    for _ in 0..10 {
        assert_eq!(a.next(), b.next());
    }
    let mut c = Randomizer::new(7);
    for _ in 0..100 {
        assert!(c.random_range(12) < 12);
    }
}

#[test]
fn service_with_settings_follows_breakdown_options() {
    let mut v = Vehicle::new(1, VehicleKind::Bus, TileCoord::new(0, 0), TileCoord::new(0, 0));
    v.running = true;
    v.service_interval_days = 150;
    v.last_service_day = 0;
    v.sim_tick = 74 * 200;
    assert!(v.requires_service_with(false, false, 0, false));
    assert!(!v.requires_service_with(false, true, 0, false));
    assert!(v.requires_service_with(false, true, 1, false));
    assert!(v.requires_service_with(false, true, 0, true));
    v.running = false;
    assert!(!v.requires_service_with(false, false, 2, true));
}
