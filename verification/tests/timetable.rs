use openttdrs_core::common::{TileCoord, VehicleKind};
use openttdrs_core::order::{OrderNonStop, VehicleOrder};
use openttdrs_core::timetable::{cycle_wait_ticks, cycle_travel_ticks, round_timetable_ticks, TICKS_PER_SECOND};
use openttdrs_core::vehicle::Vehicle;

#[test]
fn cycle_wait_wraps_to_zero() {
    assert_eq!(cycle_wait_ticks(0), 30);
    assert_eq!(cycle_wait_ticks(300), 0);
}

#[test]
fn round_timetable_ticks_ceil_to_second() {
    assert_eq!(round_timetable_ticks(0), 0);
    assert_eq!(round_timetable_ticks(1), TICKS_PER_SECOND);
    assert_eq!(round_timetable_ticks(TICKS_PER_SECOND), TICKS_PER_SECOND);
    assert_eq!(round_timetable_ticks(TICKS_PER_SECOND + 1), TICKS_PER_SECOND * 2);
}

#[test]
fn timetable_clock_increments_current_order_time() {
    let mut v = Vehicle::new(1, VehicleKind::Bus, TileCoord::new(0, 0), TileCoord::new(1, 0));
    v.timetable_active = true;
    v.tick_timetable_clock();
    assert_eq!(v.current_order_time, 1);
}

#[test]
fn autofill_sets_travel_ticks_on_arrival() {
    let mut v = Vehicle::new(1, VehicleKind::Bus, TileCoord::new(0, 0), TileCoord::new(1, 0));
    v.timetable_active = true;
    v.timetable_autofill = true;
    v.timetable_started = true;
    v.orders = vec![VehicleOrder::station(TileCoord::new(1, 0))];
    v.current_order_time = 50;
    v.update_vehicle_timetable(true);
    assert_eq!(v.orders[0].travel_ticks(), TICKS_PER_SECOND * 2);
    assert!(!v.timetable_autofill);
}

#[test]
fn lateness_increases_when_late() {
    let mut v = Vehicle::new(1, VehicleKind::Bus, TileCoord::new(0, 0), TileCoord::new(1, 0));
    v.timetable_active = true;
    v.timetable_started = true;
    let mut order = VehicleOrder::station(TileCoord::new(1, 0));
    order = order.with_travel_ticks(60);
    v.orders = vec![order];
    v.current_order_time = 100;
    v.update_vehicle_timetable(true);
    assert_eq!(v.timetable_lateness, 40);
}

#[test]
fn non_stop_enum_default_is_non_stop_destination() {
    assert_eq!(OrderNonStop::default(), OrderNonStop::NonStopDestination);
}

#[test]
fn travel_presets_cycle_back_to_zero() {
    let mut t = 0u32;
    let mut seen = 0;
    loop {
        t = cycle_travel_ticks(t);
        seen += 1;
        if t == 0 || seen > 100 {
            break;
        }
    }
    assert_eq!(t, 0);
}
