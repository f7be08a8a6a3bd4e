use openttdrs_core::common::{TileCoord, VehicleKind};
use openttdrs_core::order::{
    OrderConditionComparator, OrderConditionKind, OrderLoadType, OrderNonStop, OrderStopLocation,
    OrderUnloadType, VehicleOrder, VehicleOrderRecord,
};
use openttdrs_core::vehicle::Vehicle;

fn sample_vehicle() -> Vehicle {
    Vehicle::new(1, VehicleKind::Train, TileCoord::new(0, 0), TileCoord::new(1, 1))
}

#[test]
fn conditional_load_percentage_jumps() {
    let mut v = sample_vehicle();
    v.capacity = 100;
    v.cargo = 60;
    v.orders = vec![
        VehicleOrder::station(TileCoord::new(1, 1)),
        VehicleOrder::conditional(OrderConditionKind::LoadPercentage, 50, 0),
        VehicleOrder::station(TileCoord::new(2, 2)),
    ];
    v.current_order = 1;
    let next = v.orders[1].evaluate_conditional(&v);
    assert_eq!(next, 0);
    v.cargo = 10;
    let next = v.orders[1].evaluate_conditional(&v);
    assert_eq!(next, 2);
}

#[test]
fn depot_unbunch_toggle_and_max_speed() {
    let depot = VehicleOrder::depot(TileCoord::new(3, 3));
    let toggled = depot.with_toggled_depot_unbunch().unwrap();
    assert!(toggled.depot_unbunch());
    assert!(toggled.depot_stops());
    let station = VehicleOrder::station(TileCoord::new(1, 1)).with_max_speed(80);
    assert_eq!(station.max_speed_limit(), 80);
}

#[test]
fn should_stop_at_destination_unless_just_visited() {
    let station = TileCoord::new(3, 4);
    let order = VehicleOrder::station(station);
    assert!(order.should_stop_at_station(None, station));
    assert!(!order.should_stop_at_station(Some(station), station));
}

#[test]
fn should_stop_at_intermediate_respects_non_stop_mode() {
    let destination = TileCoord::new(8, 4);
    let intermediate = TileCoord::new(3, 4);
    let non_stop = VehicleOrder::station(destination);
    let stopping = VehicleOrder::station_with_types(
        destination,
        OrderLoadType::LoadIfPossible,
        OrderUnloadType::UnloadIfPossible,
        OrderNonStop::StopAtIntermediate,
    );
    assert!(!non_stop.should_stop_at_station(None, intermediate));
    assert!(stopping.should_stop_at_station(None, intermediate));
}

#[test]
fn reliability_and_unconditional_conditions() {
    let mut v = sample_vehicle();
    v.reliability = 7500;
    v.orders = vec![
        VehicleOrder::conditional_with(OrderConditionKind::Reliability, OrderConditionComparator::LessThan, 80, 0),
        VehicleOrder::station(TileCoord::new(1, 1)),
    ];
    v.current_order = 0;
    assert_eq!(v.orders[0].evaluate_conditional(&v), 0);
    v.orders[0] = VehicleOrder::conditional_with(
        OrderConditionKind::Unconditionally,
        OrderConditionComparator::IsTrue,
        0,
        0,
    );
    assert_eq!(v.orders[0].evaluate_conditional(&v), 0);
}

#[test]
fn next_station_hop_skips_current_and_wraps() {
    let a = TileCoord::new(1, 1);
    let b = TileCoord::new(2, 2);
    let c = TileCoord::new(3, 3);
    let orders = vec![VehicleOrder::station(a), VehicleOrder::station(b), VehicleOrder::station(c)];
    assert_eq!(VehicleOrder::next_station_hop(&orders, 0, a), Some(b));
    assert_eq!(VehicleOrder::next_station_hop(&orders, 1, b), Some(c));
    assert_eq!(VehicleOrder::next_station_hop(&orders, 2, c), Some(a));
}

#[test]
fn get_next_stopping_station_explores_conditional_branches() {
    let a = TileCoord::new(1, 1);
    let b = TileCoord::new(2, 2);
    let c = TileCoord::new(3, 3);
    let orders = vec![
        VehicleOrder::station(a),
        VehicleOrder::conditional(OrderConditionKind::CargoLoadAbove, 50, 3),
        VehicleOrder::station(b),
        VehicleOrder::station(c),
    ];
    let hops = VehicleOrder::get_next_stopping_station(&orders, 0, a, None);
    assert!(hops.contains(&b));
    assert!(hops.contains(&c));
}

#[test]
fn stop_location_cycles_through_every_position() {
    let mut o = VehicleOrder::station(TileCoord::new(1, 1));
    let first = o.stop_location();
    for _ in 0..3 {
        o = o.with_cycled_stop_location().unwrap();
    }
    assert_eq!(o.stop_location(), first);
}

#[test]
fn wait_ticks_read_back() {
    let o = VehicleOrder::station(TileCoord::new(1, 1)).with_wait_ticks(120).unwrap();
    assert_eq!(o.wait_ticks(), 120);
    assert_eq!(VehicleOrder::tile(TileCoord::new(2, 2)).with_wait_ticks(5), None);
}

fn legacy_station(full_load: bool, full_load_any: bool, no_load: bool, no_unload: bool, transfer: bool) -> VehicleOrderRecord {
    VehicleOrderRecord::Station {
        station: TileCoord::new(4, 5),
        load_type: None,
        unload_type: None,
        full_load,
        full_load_any,
        no_load,
        no_unload,
        transfer,
        non_stop: OrderNonStop::default(),
        stop_location: OrderStopLocation::default(),
        wait_ticks: 0,
        travel_ticks: 0,
        max_speed: 0,
        implicit: false,
    }
}

#[test]
fn legacy_order_flags_map_to_policies() {
    let o = VehicleOrder::from(legacy_station(true, false, false, false, false));
    assert_eq!(o.load_type(), OrderLoadType::FullLoad);
    assert_eq!(o.unload_type(), OrderUnloadType::UnloadIfPossible);
    let o = VehicleOrder::from(legacy_station(true, true, false, true, false));
    assert_eq!(o.load_type(), OrderLoadType::FullLoadAny);
    assert_eq!(o.unload_type(), OrderUnloadType::NoUnload);
    let o = VehicleOrder::from(legacy_station(true, true, true, true, true));
    assert_eq!(o.load_type(), OrderLoadType::NoLoad);
    assert_eq!(o.unload_type(), OrderUnloadType::Transfer);
    let o = VehicleOrder::from(legacy_station(false, false, false, false, false));
    assert_eq!(o.load_type(), OrderLoadType::LoadIfPossible);
    assert_eq!(o.destination(), TileCoord::new(4, 5));
}

#[test]
fn stored_policies_override_legacy_flags() {
    let mut r = legacy_station(true, false, true, false, true);
    if let VehicleOrderRecord::Station { load_type, unload_type, .. } = &mut r {
        *load_type = Some(OrderLoadType::FullLoad);
        *unload_type = Some(OrderUnloadType::NoUnload);
    }
    let o = VehicleOrder::from(r);
    assert_eq!(o.load_type(), OrderLoadType::FullLoad);
    assert_eq!(o.unload_type(), OrderUnloadType::NoUnload);
}

#[test]
fn legacy_conditional_gets_historical_comparator() {
    let rec = |condition| VehicleOrderRecord::Conditional { condition, comparator: None, value: 50, jump_to: 2 };
    match VehicleOrder::from(rec(OrderConditionKind::CargoLoadBelow)) {
        VehicleOrder::Conditional { comparator, .. } => assert_eq!(comparator, OrderConditionComparator::LessThan),
        _ => panic!("conditional expected"),
    }
    match VehicleOrder::from(rec(OrderConditionKind::CargoLoadAbove)) {
        VehicleOrder::Conditional { comparator, .. } => assert_eq!(comparator, OrderConditionComparator::MoreThan),
        _ => panic!("conditional expected"),
    }
    match VehicleOrder::from(rec(OrderConditionKind::Reliability)) {
        VehicleOrder::Conditional { comparator, jump_to, value, .. } => {
            assert_eq!(comparator, OrderConditionComparator::MoreThan);
            assert_eq!(jump_to, 2);
            assert_eq!(value, 50);
        }
        _ => panic!("conditional expected"),
    }
}

#[test]
fn order_record_round_trip() {
    let orders = vec![
        VehicleOrder::station_with_flags(TileCoord::new(1, 2), true, true),
        VehicleOrder::implicit(TileCoord::new(3, 3)),
        VehicleOrder::waypoint(TileCoord::new(7, 1)),
        VehicleOrder::depot(TileCoord::new(2, 9)),
        VehicleOrder::tile(TileCoord::new(0, 4)),
        VehicleOrder::conditional(OrderConditionKind::Age, 10, 1),
    ];
    for o in orders {
        let rec = VehicleOrderRecord::from(o);
        assert_eq!(VehicleOrder::from(rec), o);
    }
    match VehicleOrderRecord::from(VehicleOrder::station(TileCoord::new(1, 1))) {
        VehicleOrderRecord::Station { load_type, unload_type, full_load, no_load, transfer, .. } => {
            assert_eq!(load_type, Some(OrderLoadType::LoadIfPossible));
            assert_eq!(unload_type, Some(OrderUnloadType::UnloadIfPossible));
            assert!(!full_load && !no_load && !transfer);
        }
        _ => panic!("station record expected"),
    }
}
