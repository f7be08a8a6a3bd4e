use openttdrs_core::common::{TileCoord, VehicleKind, DIR_NE, DIR_SW};
use openttdrs_core::order::{OrderConditionKind, OrderLoadType, VehicleOrder};
use openttdrs_core::vehicle::{TimetableWaitKind, Vehicle};

fn bus_at(pos: TileCoord) -> Vehicle {
    Vehicle::new(1, VehicleKind::Bus, pos, pos)
}

#[test]
fn advance_after_loading_no_panic_with_invalid_current_order() {
    let mut v = Vehicle::new(1, VehicleKind::Truck, TileCoord::new(0, 0), TileCoord::new(1, 0));
    v.orders = vec![VehicleOrder::station(TileCoord::new(2, 2)), VehicleOrder::station(TileCoord::new(3, 3))];
    v.current_order = 99;
    v.cargo = 10;
    v.capacity = 100;
    v.advance_after_loading();
    // Reset to 0, then moved on to the next order (1).
    assert_eq!(v.current_order, 1);
    assert!(v.current_order < v.orders.len());
}

#[test]
fn no_load_order_skips_loading() {
    let pos = TileCoord::new(1, 1);
    let mut v = Vehicle::new(1, VehicleKind::Bus, pos, pos);
    let mut order = VehicleOrder::station(pos);
    if let VehicleOrder::Station { load_type, .. } = &mut order {
        *load_type = OrderLoadType::NoLoad;
    }
    v.orders = vec![order];
    v.running = true;
    v.progress = 255;
    v.capacity = 20;
    assert!(!v.orders[0].should_wait_for_loading(v.cargo, v.capacity));
}

#[test]
fn update_real_order_index_skips_implicit_orders() {
    let mut v = bus_at(TileCoord::new(0, 0));
    v.orders = vec![
        VehicleOrder::station(TileCoord::new(1, 1)),
        VehicleOrder::implicit(TileCoord::new(2, 2)),
        VehicleOrder::implicit(TileCoord::new(3, 3)),
        VehicleOrder::station(TileCoord::new(4, 4)),
    ];
    v.current_order = 1;
    v.update_real_order_index();
    assert_eq!(v.current_order, 3);
    v.current_order = 3;
    v.update_real_order_index();
    assert_eq!(v.current_order, 3);
}

#[test]
fn update_real_order_index_keeps_index_when_all_orders_are_implicit() {
    let mut v = bus_at(TileCoord::new(0, 0));
    v.orders = vec![VehicleOrder::implicit(TileCoord::new(2, 2)), VehicleOrder::implicit(TileCoord::new(3, 3))];
    v.current_order = 1;
    v.update_real_order_index();
    assert_eq!(v.current_order, 1);
    v.current_order = 7;
    v.update_real_order_index();
    assert_eq!(v.current_order, 0);
}

#[test]
fn increment_real_order_index_wraps_past_implicit_tail() {
    let mut v = bus_at(TileCoord::new(0, 0));
    v.orders = vec![
        VehicleOrder::station(TileCoord::new(1, 1)),
        VehicleOrder::station(TileCoord::new(4, 4)),
        VehicleOrder::implicit(TileCoord::new(2, 2)),
    ];
    v.current_order = 1;
    v.increment_real_order_index();
    assert_eq!(v.current_order, 0);
}

#[test]
fn advance_to_next_order_starts_a_new_trip() {
    let here = TileCoord::new(1, 1);
    let there = TileCoord::new(6, 2);
    let mut v = bus_at(here);
    v.orders = vec![VehicleOrder::station(here), VehicleOrder::station(there)];
    v.awaiting_load_window = true;
    v.current_order_time = 40;
    v.sim_tick = 500;
    v.advance_to_next_order();
    assert_eq!(v.current_order, 1);
    assert_eq!(v.cur_implicit_order_index, 1);
    assert_eq!(v.dest, there);
    assert_eq!(v.origin, here);
    assert_eq!(v.timetable_leg_start_tick, 500);
    assert_eq!(v.current_order_time, 0);
    assert!(!v.awaiting_load_window);
}

#[test]
fn train_keeps_its_destination_tile_when_moving_on() {
    let here = TileCoord::new(1, 1);
    let mut v = Vehicle::new(1, VehicleKind::Train, here, TileCoord::new(9, 9));
    v.orders = vec![VehicleOrder::station(here), VehicleOrder::station(TileCoord::new(6, 2))];
    v.advance_to_next_order();
    assert_eq!(v.current_order, 1);
    assert_eq!(v.dest, TileCoord::new(9, 9));
}

#[test]
fn timetable_wait_delays_departure_after_unloading() {
    let pos = TileCoord::new(1, 1);
    let mut v = bus_at(pos);
    v.timetable_active = true;
    let wait_order = VehicleOrder::station(pos).with_cycled_wait().unwrap();
    v.orders = vec![wait_order, VehicleOrder::station(TileCoord::new(3, 3))];
    v.advance_after_unloading();
    assert_eq!(v.timetable_wait_remaining, 30);
    assert_eq!(v.timetable_wait_kind, TimetableWaitKind::AfterUnload);
    assert_eq!(v.current_order, 0);
    assert_eq!(v.progress, 255);
    for _ in 0..29 {
        v.tick_timetable_wait();
    }
    assert_eq!(v.current_order, 0);
    v.tick_timetable_wait();
    assert_eq!(v.current_order, 1);
    assert_eq!(v.timetable_wait_kind, TimetableWaitKind::Idle);
    assert_eq!(v.dest, TileCoord::new(3, 3));
}

#[test]
fn full_load_order_keeps_vehicle_at_stop() {
    let pos = TileCoord::new(1, 1);
    let mut v = bus_at(pos);
    v.orders = vec![VehicleOrder::station_with_flags(pos, true, false), VehicleOrder::station(TileCoord::new(3, 3))];
    v.cargo = 5;
    v.capacity = 20;
    v.advance_after_loading();
    assert_eq!(v.current_order, 0);
    v.cargo = 20;
    v.advance_after_loading();
    assert_eq!(v.current_order, 1);
}

#[test]
fn schedule_timetable_wait_needs_an_active_timetable() {
    let pos = TileCoord::new(1, 1);
    let mut v = bus_at(pos);
    v.orders = vec![VehicleOrder::station(pos).with_cycled_wait().unwrap()];
    assert!(!v.schedule_timetable_wait(TimetableWaitKind::AfterLoad));
    assert_eq!(v.timetable_wait_remaining, 0);
    v.timetable_active = true;
    assert!(v.schedule_timetable_wait(TimetableWaitKind::AfterLoad));
    assert_eq!(v.timetable_wait_remaining, 30);
    assert_eq!(v.timetable_wait_kind, TimetableWaitKind::AfterLoad);
}

#[test]
fn arrival_at_station_opens_loading_window_then_leaves() {
    let pos = TileCoord::new(1, 1);
    let next = TileCoord::new(3, 3);
    let mut v = bus_at(pos);
    v.orders = vec![VehicleOrder::station(pos), VehicleOrder::station(next)];
    v.finish_arrival_processing();
    assert!(v.awaiting_load_window);
    assert_eq!(v.progress, 255);
    assert_eq!(v.last_station_visited, Some(pos));
    assert_eq!(v.current_order, 0);
    v.complete_station_load_window();
    assert!(!v.awaiting_load_window);
    assert_eq!(v.current_order, 1);
    assert_eq!(v.dest, next);
}

#[test]
fn cargo_on_board_keeps_the_stop_open() {
    let pos = TileCoord::new(1, 1);
    let mut v = bus_at(pos);
    v.orders = vec![VehicleOrder::station(pos), VehicleOrder::station(TileCoord::new(3, 3))];
    v.cargo = 4;
    v.awaiting_load_window = true;
    v.progress = 255;
    v.complete_station_load_window();
    assert_eq!(v.current_order, 0);
    assert_eq!(v.progress, 255);
}

#[test]
fn halting_depot_order_services_and_stops_vehicle() {
    let depot = TileCoord::new(2, 2);
    let mut v = bus_at(depot);
    v.orders = vec![VehicleOrder::depot(depot), VehicleOrder::station(TileCoord::new(3, 3))];
    v.reliability = 1_000;
    v.needs_servicing = true;
    v.finish_arrival_after_load_window();
    assert!(!v.running);
    assert_eq!(v.progress, 255);
    assert!(!v.needs_servicing);
    assert!(v.reliability > 1_000);
    assert_eq!(v.current_order, 0);
}

#[test]
fn service_only_depot_order_passes_through() {
    let depot = TileCoord::new(2, 2);
    let mut v = bus_at(depot);
    v.orders = vec![VehicleOrder::depot_pass_through(depot), VehicleOrder::station(TileCoord::new(3, 3))];
    v.finish_arrival_after_load_window();
    assert!(v.running);
    assert_eq!(v.progress, 0);
    assert_eq!(v.current_order, 1);
}

#[test]
fn resolve_conditional_orders_follows_jumps() {
    let mut v = bus_at(TileCoord::new(0, 0));
    v.orders = vec![
        VehicleOrder::conditional(OrderConditionKind::Unconditionally, 0, 2),
        VehicleOrder::station(TileCoord::new(1, 1)),
        VehicleOrder::station(TileCoord::new(2, 2)),
    ];
    v.progress = 100;
    v.resolve_conditional_orders();
    assert_eq!(v.current_order, 2);
    assert_eq!(v.progress, 0);
    v.progress = 100;
    v.resolve_conditional_orders();
    assert_eq!(v.current_order, 2);
    assert_eq!(v.progress, 100);
}

#[test]
fn early_arrival_waits_out_travel_time() {
    let here = TileCoord::new(1, 1);
    let mut v = bus_at(here);
    v.timetable_active = true;
    v.orders = vec![VehicleOrder::station(here).with_travel_ticks(100), VehicleOrder::station(TileCoord::new(3, 3))];
    v.timetable_leg_start_tick = 1_000;
    v.sim_tick = 1_060;
    assert_eq!(v.travel_early_wait_ticks(), 40);
    v.advance_destination_after_arrival();
    assert_eq!(v.timetable_wait_kind, TimetableWaitKind::TravelEarly);
    assert_eq!(v.timetable_wait_remaining, 40);
    assert!(v.path.is_empty());
    v.sim_tick = 1_200;
    assert_eq!(v.travel_early_wait_ticks(), 0);
}

#[test]
fn arrival_without_orders_stops_at_tile_start() {
    let mut v = bus_at(TileCoord::new(1, 1));
    v.path = vec![TileCoord::new(2, 1)];
    v.progress = 200;
    v.depart_turn = 3;
    v.advance_destination_after_arrival();
    assert!(v.path.is_empty());
    assert_eq!(v.progress, 0);
    assert_eq!(v.depart_turn, 0);
}

#[test]
fn road_vehicle_turns_round_when_leaving_backwards() {
    let mut v = Vehicle::new(1, VehicleKind::Bus, TileCoord::new(5, 5), TileCoord::new(5, 5));
    v.direction = DIR_NE;
    v.path = vec![TileCoord::new(6, 5)];
    assert!(v.needs_depart_turnaround());
    v.direction = DIR_SW;
    assert!(!v.needs_depart_turnaround());
    let mut t = Vehicle::new(2, VehicleKind::Train, TileCoord::new(5, 5), TileCoord::new(5, 5));
    t.direction = DIR_NE;
    t.path = vec![TileCoord::new(6, 5)];
    assert!(!t.needs_depart_turnaround());
}

#[test]
fn holding_for_timetable_requires_active_timetable() {
    let mut v = bus_at(TileCoord::new(1, 1));
    v.timetable_wait_remaining = 5;
    assert!(!v.holding_for_timetable());
    v.timetable_active = true;
    assert!(v.holding_for_timetable());
}
