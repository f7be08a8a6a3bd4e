use openttdrs_core::common::{TileCoord, VehicleKind};
use openttdrs_core::operational_status::{StopFacts, VehicleIssueDetail, VehicleOperationalSummary};
use openttdrs_core::vehicle::Vehicle;

fn bus_stop(pos: TileCoord) -> StopFacts {
    StopFacts {
        pos,
        is_waypoint: false,
        serves: [false, true, false, false, false, false],
        has_passengers_or_mail: false,
        has_freight: false,
        industry_supply: false,
    }
}

fn truck_stop(pos: TileCoord) -> StopFacts {
    StopFacts {
        pos,
        is_waypoint: false,
        serves: [true, false, false, false, false, false],
        has_passengers_or_mail: false,
        has_freight: false,
        industry_supply: false,
    }
}

#[test]
fn issue_detail_keeps_the_first_example() {
    let mut d = VehicleIssueDetail::new();
    d.add_vehicle(4);
    d.add_vehicle(9);
    assert_eq!(d.count, 2);
    assert_eq!(d.example_vehicle_ids, vec![4]);
}

#[test]
fn summary_reports_any_issue() {
    let mut s = VehicleOperationalSummary::default();
    assert!(!s.has_any_issues());
    s.pbs_stuck.add_vehicle(5);
    assert!(s.has_any_issues());
}

#[test]
fn summary_detects_no_network_route() {
    let origin = TileCoord::new(0, 0);
    let mut v1 = Vehicle::new(1, VehicleKind::Bus, origin, origin);
    v1.running = true;
    v1.set_orders(vec![TileCoord::new(1, 0)]);
    v1.no_network_route_to_order = true;

    let summary = VehicleOperationalSummary::analyze(&vec![v1], &vec![]);
    assert_eq!(summary.no_network_route.count, 1);
    assert_eq!(summary.no_network_route.example_vehicle_ids, vec![1]);
    assert_eq!(summary.no_orders.count, 0);
}

#[test]
fn summary_detects_no_orders() {
    let origin = TileCoord::new(0, 0);
    let mut v2 = Vehicle::new(2, VehicleKind::Truck, origin, origin);
    v2.running = true;

    let summary = VehicleOperationalSummary::analyze(&vec![v2], &vec![]);
    assert_eq!(summary.no_orders.count, 1);
    assert_eq!(summary.no_orders.example_vehicle_ids, vec![2]);
    assert_eq!(summary.no_network_route.count, 0);
}

#[test]
fn summary_detects_incompatible_stop() {
    let stop = TileCoord::new(2, 2);
    let stops = vec![bus_stop(stop)];

    let mut truck = Vehicle::new(3, VehicleKind::Truck, stop, stop);
    truck.running = true;
    truck.set_station_orders(vec![stop]);

    let summary = VehicleOperationalSummary::analyze(&vec![truck], &stops);
    assert_eq!(summary.incompatible_stop.count, 1);
    assert_eq!(summary.incompatible_stop.example_vehicle_ids, vec![3]);
}

#[test]
fn summary_detects_waiting_cargo() {
    let stop = TileCoord::new(2, 2);
    // The coal mine two tiles south has produced nothing yet.
    let stops = vec![truck_stop(stop)];

    let mut truck = Vehicle::new(4, VehicleKind::Truck, stop, stop);
    truck.running = true;
    truck.set_station_orders(vec![stop]);

    let summary = VehicleOperationalSummary::analyze(&vec![truck], &stops);
    assert_eq!(summary.waiting_cargo.count, 1);
    assert_eq!(summary.waiting_cargo.example_vehicle_ids, vec![4]);
}

#[test]
fn summary_detects_pbs_stuck() {
    let origin = TileCoord::new(0, 0);
    let mut train = Vehicle::new(5, VehicleKind::Train, origin, origin);
    train.running = true;
    train.pbs_stuck = true;
    train.set_orders(vec![TileCoord::new(3, 0)]);

    let summary = VehicleOperationalSummary::analyze(&vec![train], &vec![]);
    assert_eq!(summary.pbs_stuck.count, 1);
    assert_eq!(summary.pbs_stuck.example_vehicle_ids, vec![5]);
}

#[test]
fn summary_detects_multiple_issues() {
    let origin = TileCoord::new(0, 0);
    let mut v1 = Vehicle::new(1, VehicleKind::Bus, origin, origin);
    v1.running = true;
    v1.set_orders(vec![TileCoord::new(1, 0)]);
    v1.no_network_route_to_order = true;

    let mut v2 = Vehicle::new(2, VehicleKind::Truck, origin, origin);
    v2.running = true;

    let summary = VehicleOperationalSummary::analyze(&vec![v1, v2], &vec![]);
    assert_eq!(summary.no_network_route.count, 1);
    assert_eq!(summary.no_orders.count, 1);
    assert!(summary.has_any_issues());
}

#[test]
fn summary_empty_when_no_issues() {
    let origin = TileCoord::new(0, 0);
    let mut v = Vehicle::new(1, VehicleKind::Bus, origin, origin);
    v.running = true;
    v.set_orders(vec![TileCoord::new(1, 0)]);

    let summary = VehicleOperationalSummary::analyze(&vec![v], &vec![]);
    assert!(!summary.has_any_issues());
}

#[test]
fn waiting_cargo_is_not_reported_when_the_stop_has_freight() {
    let stop = TileCoord::new(2, 2);
    let mut st = truck_stop(stop);
    st.has_freight = true;
    let mut truck = Vehicle::new(4, VehicleKind::Truck, TileCoord::new(3, 3), stop);
    truck.running = true;
    truck.set_station_orders(vec![stop]);
    let summary = VehicleOperationalSummary::analyze(&vec![truck], &vec![st]);
    assert_eq!(summary.waiting_cargo.count, 0);
}

#[test]
fn waiting_cargo_needs_the_vehicle_near_the_stop() {
    let stop = TileCoord::new(2, 2);
    let mut truck = Vehicle::new(4, VehicleKind::Truck, TileCoord::new(4, 2), stop);
    truck.running = true;
    truck.set_station_orders(vec![stop]);
    let summary = VehicleOperationalSummary::analyze(&vec![truck], &vec![truck_stop(stop)]);
    assert_eq!(summary.waiting_cargo.count, 0);
}
