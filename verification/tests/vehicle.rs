use openttdrs_core::common::{TileCoord, VehicleKind, DIR_E, DIR_NE, DIR_S, DIR_SE, DIR_SW};
use openttdrs_core::order::VehicleOrder;
use openttdrs_core::random::Randomizer;
use openttdrs_core::vehicle::{Vehicle, TICKS_PER_DAY, VEHICLE_CAPACITY};

#[test]
fn maybe_insert_implicit_order_on_unscheduled_visit() {
    let a = TileCoord::new(1, 1);
    let b = TileCoord::new(5, 5);
    let mid = TileCoord::new(3, 3);
    let mut v = Vehicle::new(0, VehicleKind::Truck, a, b);
    v.set_vehicle_orders(vec![VehicleOrder::station(a), VehicleOrder::station(b)]);
    v.current_order = 1;
    v.cur_implicit_order_index = 0;
    v.maybe_insert_implicit_order(mid);
    assert!(v.orders.iter().any(|o| o.is_implicit() && o.destination() == mid));
    assert_eq!(v.last_station_visited, Some(mid));
}

#[test]
fn implicit_order_is_not_added_at_a_scheduled_stop_or_for_ships() {
    let a = TileCoord::new(1, 1);
    let b = TileCoord::new(5, 5);
    let mut v = Vehicle::new(0, VehicleKind::Truck, a, b);
    v.set_vehicle_orders(vec![VehicleOrder::station(a), VehicleOrder::station(b)]);
    v.current_order = 1;
    v.maybe_insert_implicit_order(b);
    assert_eq!(v.orders.len(), 2);
    assert_eq!(v.cur_implicit_order_index, 1);
    let mut ship = Vehicle::new(1, VehicleKind::Ship, a, b);
    ship.set_vehicle_orders(vec![VehicleOrder::station(a)]);
    ship.maybe_insert_implicit_order(b);
    assert_eq!(ship.orders.len(), 1);
    assert_eq!(ship.last_station_visited, Some(b));
}

#[test]
fn timetable_start_offsets_lateness_on_first_arrival() {
    let mut v = Vehicle::new(1, VehicleKind::Bus, TileCoord::new(0, 0), TileCoord::new(1, 0));
    v.timetable_active = true;
    v.timetable_start = 100;
    v.sim_tick = 150;
    v.orders = vec![VehicleOrder::station(TileCoord::new(1, 0))];
    v.current_order_time = 10;
    v.update_vehicle_timetable(true);
    assert_eq!(v.timetable_lateness, 50);
    assert_eq!(v.timetable_start, 0);
    assert!(v.timetable_started);
}

#[test]
fn tests_service_at_depot_restores_reliability() {
    let mut v = Vehicle::new(1, VehicleKind::Bus, TileCoord::new(0, 0), TileCoord::new(1, 0));
    v.reliability = 2_000;
    v.needs_servicing = true;
    v.breakdown_ctr = 50;
    v.breakdown_delay = 10;
    v.service_at_depot();
    assert!(v.reliability >= 8_000);
    assert!(!v.needs_servicing);
    assert_eq!(v.breakdown_ctr, 0);
    assert_eq!(v.breakdown_delay, 0);
}

#[test]
fn requires_service_by_percent_threshold() {
    let mut v = Vehicle::new(1, VehicleKind::Bus, TileCoord::new(0, 0), TileCoord::new(1, 0));
    v.service_interval_days = 20;
    v.reliability = 7_500;
    assert!(!v.requires_service_for_company(true));
    v.reliability = 6_000;
    assert!(v.requires_service_for_company(true));
}

#[test]
fn requires_service_by_day_interval() {
    let mut v = Vehicle::new(1, VehicleKind::Bus, TileCoord::new(0, 0), TileCoord::new(1, 0));
    v.service_interval_days = 10;
    v.last_service_day = 0;
    v.sim_tick = 0;
    v.reliability = 9_000;
    assert!(!v.requires_service_for_company(false));
    v.sim_tick = TICKS_PER_DAY * 10;
    assert!(v.requires_service_for_company(false));
    v.service_at_depot();
    assert!(!v.requires_service_for_company(false));
}

#[test]
fn tests_check_breakdown_triggers_when_unreliable() {
    let mut v = Vehicle::new(7, VehicleKind::Truck, TileCoord::new(0, 0), TileCoord::new(1, 0));
    v.reliability = 100;
    v.running = true;
    v.cur_speed = 50;
    v.breakdown_chance = 250;
    v.check_vehicle_breakdown(&mut Randomizer::new(42));
    assert!(v.breakdown_ctr > 0);
    assert!(v.handle_breakdown(0) || v.breakdown_ctr > 2);
    if v.breakdown_ctr == 1 {
        assert_eq!(v.cur_speed, 0);
    }
}

#[test]
fn sanitize_current_order_with_empty_orders() {
    let mut v = Vehicle::new(1, VehicleKind::Truck, TileCoord::new(0, 0), TileCoord::new(1, 0));
    v.current_order = 5;
    v.sanitize_current_order();
    assert_eq!(v.current_order, 0);
}

#[test]
fn sanitize_current_order_with_invalid_index() {
    let mut v = Vehicle::new(1, VehicleKind::Truck, TileCoord::new(0, 0), TileCoord::new(1, 0));
    v.orders = vec![VehicleOrder::station(TileCoord::new(2, 2)), VehicleOrder::station(TileCoord::new(3, 3))];
    v.current_order = 99;
    v.sanitize_current_order();
    assert_eq!(v.current_order, 0);
}

#[test]
fn sanitize_current_order_valid_index_unchanged() {
    let mut v = Vehicle::new(1, VehicleKind::Truck, TileCoord::new(0, 0), TileCoord::new(1, 0));
    v.orders = vec![VehicleOrder::station(TileCoord::new(2, 2)), VehicleOrder::station(TileCoord::new(3, 3))];
    v.current_order = 1;
    v.sanitize_current_order();
    assert_eq!(v.current_order, 1);
}

#[test]
fn current_order_ref_returns_none_with_empty_orders() {
    let v = Vehicle::new(1, VehicleKind::Truck, TileCoord::new(0, 0), TileCoord::new(1, 0));
    assert!(v.current_order_ref().is_none());
}

#[test]
fn current_order_ref_returns_none_with_invalid_index() {
    let mut v = Vehicle::new(1, VehicleKind::Truck, TileCoord::new(0, 0), TileCoord::new(1, 0));
    v.orders = vec![VehicleOrder::station(TileCoord::new(2, 2))];
    v.current_order = 99;
    assert!(v.current_order_ref().is_none());
}

#[test]
fn current_order_ref_returns_some_with_valid_index() {
    let mut v = Vehicle::new(1, VehicleKind::Truck, TileCoord::new(0, 0), TileCoord::new(1, 0));
    let order = VehicleOrder::station(TileCoord::new(2, 2));
    v.orders = vec![order];
    v.current_order = 0;
    assert_eq!(v.current_order_ref(), Some(&order));
}

fn loaded_sprite_scenario() {
    let mut bus = Vehicle::new(0, VehicleKind::Bus, TileCoord::new(0, 0), TileCoord::new(1, 0));
    assert!(!bus.uses_loaded_road_sprite());
    bus.cargo = VEHICLE_CAPACITY / 2;
    assert!(bus.uses_loaded_road_sprite());
    let mut truck = Vehicle::new(1, VehicleKind::Truck, TileCoord::new(0, 0), TileCoord::new(1, 0));
    truck.cargo = VEHICLE_CAPACITY / 2;
    assert!(truck.uses_loaded_road_sprite());
}

#[test]
fn vehicle_loaded_sprite_for_bus_and_truck() {
    loaded_sprite_scenario();
}

#[test]
fn tests_loaded_sprite_for_bus_and_truck() {
    loaded_sprite_scenario();
}

fn render_direction_scenario() {
    let mut v = Vehicle::new(0, VehicleKind::Bus, TileCoord::new(0, 0), TileCoord::new(1, 1));
    v.path = vec![TileCoord::new(0, 1), TileCoord::new(1, 1)];
    v.progress = 200;
    assert_eq!(v.render_direction(), DIR_S);
}

#[test]
fn vehicle_render_direction_uses_cardinal_in_turn_second_half() {
    render_direction_scenario();
}

#[test]
fn tests_render_direction_uses_cardinal_in_turn_second_half() {
    render_direction_scenario();
}

#[test]
fn free_truck_steps_towards_its_destination() {
    let v = Vehicle::new(0, VehicleKind::Truck, TileCoord::new(4, 14), TileCoord::new(10, 14));
    assert_eq!(v.movement_target(), Some(TileCoord::new(5, 14)));
    let train = Vehicle::new(1, VehicleKind::Train, TileCoord::new(4, 14), TileCoord::new(10, 14));
    assert_eq!(train.movement_target(), None);
    assert_eq!(train.movement_direction(), train.direction);
}

#[test]
fn vehicle_service_at_depot_restores_reliability() {
    let mut v = Vehicle::new(1, VehicleKind::Bus, TileCoord::new(0, 0), TileCoord::new(1, 0));
    v.reliability = 2_000;
    v.needs_servicing = true;
    v.breakdown_ctr = 50;
    v.service_at_depot();
    assert!(v.reliability >= 8_000);
    assert!(!v.needs_servicing);
    assert_eq!(v.breakdown_ctr, 0);
}

#[test]
fn current_order_mut_edits_the_current_order() {
    let mut v = Vehicle::new(1, VehicleKind::Bus, TileCoord::new(0, 0), TileCoord::new(0, 0));
    v.set_orders(vec![TileCoord::new(1, 0), TileCoord::new(2, 0)]);
    v.current_order = 1;
    if let Some(o) = v.current_order_mut() {
        *o = VehicleOrder::tile(TileCoord::new(7, 7));
    }
    assert_eq!(v.orders[1], VehicleOrder::tile(TileCoord::new(7, 7)));
    assert_eq!(v.orders[0], VehicleOrder::tile(TileCoord::new(1, 0)));
    v.current_order = 5;
    assert!(v.current_order_mut().is_none());
}

#[test]
fn road_vehicle_turn_costs_a_quarter_of_its_speed() {
    let mut v = Vehicle::new(1, VehicleKind::Bus, TileCoord::new(0, 0), TileCoord::new(0, 0));
    v.direction = DIR_NE;
    v.cur_speed = 100;
    v.set_direction_with_curve_penalty(DIR_SE, 0, true);
    assert_eq!((v.direction, v.cur_speed), (DIR_SE, 75));
    v.set_direction_with_curve_penalty(DIR_SE, 0, true);
    assert_eq!(v.cur_speed, 75);
}

#[test]
fn train_turn_penalty_follows_rail_type_and_turn_size() {
    let mut v = Vehicle::new(1, VehicleKind::Train, TileCoord::new(0, 0), TileCoord::new(0, 0));
    v.direction = DIR_NE;
    v.cur_speed = 100;
    v.set_direction_with_curve_penalty(DIR_E, 0, true);
    assert_eq!(v.cur_speed, 75);
    v.direction = DIR_NE;
    v.cur_speed = 100;
    v.set_direction_with_curve_penalty(DIR_SE, 0, true);
    assert_eq!(v.cur_speed, 50);
    v.direction = DIR_NE;
    v.cur_speed = 100;
    v.set_direction_with_curve_penalty(DIR_E, 2, true);
    assert_eq!(v.cur_speed, 100);
    v.direction = DIR_NE;
    v.set_direction_with_curve_penalty(DIR_SE, 0, false);
    assert_eq!((v.direction, v.cur_speed), (DIR_SE, 100));
}

#[test]
fn train_turns_round_when_its_next_tile_is_behind() {
    let mut v = Vehicle::new(1, VehicleKind::Train, TileCoord::new(5, 5), TileCoord::new(0, 5));
    v.running = true;
    v.direction = DIR_SW;
    v.cur_speed = 100;
    v.progress = 255;
    v.depart_turn = 3;
    v.path = vec![TileCoord::new(4, 5)];
    v.apply_immediate_train_turnaround(0, true);
    assert_eq!((v.direction, v.cur_speed, v.progress, v.depart_turn), (DIR_NE, 50, 0, 0));
}

#[test]
fn rail_history_keeps_the_newest_tiles_once() {
    let mut t = Vehicle::new(1, VehicleKind::Train, TileCoord::new(0, 0), TileCoord::new(0, 0));
    t.push_rail_tile_history(TileCoord::new(1, 0));
    t.push_rail_tile_history(TileCoord::new(1, 0));
    assert_eq!(t.rail_tile_history, vec![TileCoord::new(1, 0)]);
    for i in 2..40 {
        t.push_rail_tile_history(TileCoord::new(i, 0));
    }
    assert_eq!(t.rail_tile_history.len(), 32);
    assert_eq!(t.rail_tile_history[0], TileCoord::new(39, 0));
    let mut b = Vehicle::new(2, VehicleKind::Bus, TileCoord::new(0, 0), TileCoord::new(0, 0));
    b.push_rail_tile_history(TileCoord::new(1, 0));
    assert!(b.rail_tile_history.is_empty());
}

#[test]
fn new_vehicle_seeds_random_bits_from_its_id() {
    let v = Vehicle::new(4, VehicleKind::Truck, TileCoord::new(2, 3), TileCoord::new(5, 3));
    assert_eq!(v.newgrf_random_bits, 0x78DD);
    assert_eq!(v.newgrf_waiting_random_triggers, 0);
    assert_eq!(v.unit_number, 5);
    assert_eq!((v.pos, v.origin, v.dest), (TileCoord::new(2, 3), TileCoord::new(2, 3), TileCoord::new(5, 3)));
    assert!(v.last_station_visited.is_none() && !v.no_network_route_to_order && !v.pbs_stuck);
    assert_eq!((v.subspeed, v.running_ticks, v.service_generation), (0, 0, 0));
}
