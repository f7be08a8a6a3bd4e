use openttdrs_core::common::{TileCoord, VehicleKind};
use openttdrs_core::order::VehicleOrder;
use openttdrs_core::order_destination::OrderMapFacts;
use openttdrs_core::vehicle::Vehicle;

fn facts(destination: Vec<TileCoord>, depot_present: Vec<bool>, nearest_depot: Option<TileCoord>) -> OrderMapFacts {
    let n = destination.len();
    OrderMapFacts { destination, depot_present, dest_on_platform: vec![false; n], nearest_depot }
}

#[test]
fn service_if_needed_depot_order_is_skipped_when_fresh() {
    let depot = TileCoord::new(2, 2);
    let mut v = Vehicle::new(1, VehicleKind::Bus, TileCoord::new(1, 1), depot);
    v.reliability = 9_000;
    v.last_service_day = 0;
    v.service_interval_days = 150;
    v.sim_tick = 0;
    v.orders = vec![
        VehicleOrder::depot_pass_through(depot),
        VehicleOrder::station(TileCoord::new(4, 4)),
    ];
    v.current_order = 0;
    let f = facts(vec![depot, TileCoord::new(4, 4)], vec![true, false], None);
    v.sync_order_destination(&f);
    assert_eq!(v.current_order, 1);
    assert_eq!(v.dest, TileCoord::new(4, 4));
}

#[test]
fn advance_to_next_order_no_panic_with_invalid_current_order() {
    let mut v = Vehicle::new(1, VehicleKind::Truck, TileCoord::new(0, 0), TileCoord::new(1, 0));
    v.orders = vec![
        VehicleOrder::station(TileCoord::new(2, 2)),
        VehicleOrder::station(TileCoord::new(3, 3)),
    ];
    v.current_order = 99;
    let f = facts(vec![TileCoord::new(2, 2), TileCoord::new(3, 3)], vec![false, false], None);
    v.sync_order_destination(&f);
    assert_eq!(v.current_order, 0);
    assert_eq!(v.dest, TileCoord::new(2, 2));
}

#[test]
fn service_depot_order_is_kept_when_service_is_due() {
    let depot = TileCoord::new(2, 2);
    let mut v = Vehicle::new(1, VehicleKind::Bus, TileCoord::new(1, 1), TileCoord::new(1, 1));
    v.needs_servicing = true;
    v.orders = vec![VehicleOrder::depot_pass_through(depot), VehicleOrder::station(TileCoord::new(4, 4))];
    let f = facts(vec![depot, TileCoord::new(4, 4)], vec![true, false], None);
    assert!(v.update_order_dest(&f, 0));
    assert_eq!(v.current_order, 0);
    assert_eq!(v.dest, depot);
}

#[test]
fn missing_depot_falls_back_to_the_nearest_one() {
    let gone = TileCoord::new(2, 2);
    let near = TileCoord::new(6, 1);
    let mut v = Vehicle::new(1, VehicleKind::Bus, TileCoord::new(1, 1), TileCoord::new(1, 1));
    v.orders = vec![VehicleOrder::depot(gone), VehicleOrder::station(TileCoord::new(4, 4))];
    let f = facts(vec![gone, TileCoord::new(4, 4)], vec![false, false], Some(near));
    assert!(v.update_order_dest(&f, 0));
    assert_eq!(v.current_order, 0);
    assert_eq!(v.dest, near);
}

#[test]
fn missing_depot_without_alternative_moves_on() {
    let gone = TileCoord::new(2, 2);
    let mut v = Vehicle::new(1, VehicleKind::Bus, TileCoord::new(1, 1), TileCoord::new(1, 1));
    v.orders = vec![VehicleOrder::depot(gone), VehicleOrder::station(TileCoord::new(4, 4))];
    let f = facts(vec![gone, TileCoord::new(4, 4)], vec![false, false], None);
    assert!(v.update_order_dest(&f, 0));
    assert_eq!(v.current_order, 1);
    assert_eq!(v.dest, TileCoord::new(4, 4));
}

#[test]
fn process_orders_lets_a_train_at_its_path_end_reverse() {
    let mut v = Vehicle::new(1, VehicleKind::Train, TileCoord::new(1, 1), TileCoord::new(1, 1));
    v.orders = vec![VehicleOrder::station(TileCoord::new(5, 1))];
    v.progress = 255;
    let f = facts(vec![TileCoord::new(5, 1)], vec![false], None);
    assert!(v.process_orders(&f));
    assert_eq!(v.dest, TileCoord::new(5, 1));
}

#[test]
fn process_orders_waits_while_loading() {
    let mut v = Vehicle::new(1, VehicleKind::Bus, TileCoord::new(1, 1), TileCoord::new(1, 1));
    v.orders = vec![VehicleOrder::station(TileCoord::new(5, 1))];
    v.cargo_loading = true;
    let f = facts(vec![TileCoord::new(5, 1)], vec![false], None);
    assert!(!v.process_orders(&f));
    assert_eq!(v.dest, TileCoord::new(1, 1));
}

#[test]
fn append_order_starts_an_empty_list() {
    let mut v = Vehicle::new(1, VehicleKind::Bus, TileCoord::new(1, 1), TileCoord::new(1, 1));
    v.current_order = 3;
    let f = facts(vec![TileCoord::new(7, 7)], vec![false], None);
    v.append_order(VehicleOrder::station(TileCoord::new(7, 7)), &f);
    assert_eq!(v.orders.len(), 1);
    assert_eq!(v.current_order, 0);
    assert_eq!(v.dest, TileCoord::new(7, 7));
    let f2 = facts(vec![TileCoord::new(7, 7), TileCoord::new(8, 8)], vec![false, false], None);
    v.append_order(VehicleOrder::station(TileCoord::new(8, 8)), &f2);
    assert_eq!(v.orders.len(), 2);
    assert_eq!(v.dest, TileCoord::new(7, 7));
}
