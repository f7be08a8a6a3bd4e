use openttdrs_core::common::{TileCoord, VehicleKind, DIR_NE, DIR_SW};
use openttdrs_core::train_controller::{propagate_consist_unit_poses, reverse_consist_at_stop};
use openttdrs_core::vehicle::Vehicle;

fn train_unit(id: u32, x: i32, rail_pixel: u8) -> Vehicle {
    let pos = TileCoord::new(x, 2);
    let mut unit = Vehicle::new(id, VehicleKind::Train, pos, pos);
    unit.direction = DIR_SW;
    unit.curve_prev_direction = DIR_SW;
    unit.rail_pixel = rail_pixel;
    unit
}

#[test]
fn reversal_waits_for_stop_and_flips_the_whole_consist_atomically() {
    let mut head = train_unit(1, 6, 3);
    head.next_unit = Some(2);
    head.path = vec![TileCoord::new(5, 2)];
    head.cur_speed = 1;
    let mut middle = train_unit(2, 7, 7);
    middle.prev_unit = Some(1);
    middle.next_unit = Some(3);
    let mut tail = train_unit(3, 8, 12);
    tail.prev_unit = Some(2);
    let mut vehicles = vec![head, middle, tail];

    assert!(!reverse_consist_at_stop(&mut vehicles, 1));
    assert_eq!(vehicles[0].pos, TileCoord::new(6, 2));

    vehicles[0].cur_speed = 0;
    assert!(reverse_consist_at_stop(&mut vehicles, 1));
    assert_eq!(vehicles[0].pos, TileCoord::new(8, 2));
    assert_eq!(vehicles[1].pos, TileCoord::new(7, 2));
    assert_eq!(vehicles[2].pos, TileCoord::new(6, 2));
    assert_eq!(vehicles[0].rail_pixel, 3);
    assert_eq!(vehicles[1].rail_pixel, 8);
    assert_eq!(vehicles[2].rail_pixel, 12);
    assert!(vehicles.iter().all(|unit| unit.direction == DIR_NE));
    assert!(vehicles.iter().all(|unit| unit.cur_speed == 0));
    assert!(vehicles.iter().all(|unit| unit.path.is_empty()));
}

#[test]
fn single_unit_reversal_keeps_an_adjacent_path() {
    let mut head = train_unit(1, 6, 3);
    head.path = vec![TileCoord::new(5, 2)];
    head.wait_counter = 9;
    head.pbs_stuck = true;
    let mut vehicles = vec![head];
    assert!(reverse_consist_at_stop(&mut vehicles, 1));
    assert_eq!(vehicles[0].pos, TileCoord::new(6, 2));
    assert_eq!(vehicles[0].rail_pixel, 12);
    assert_eq!(vehicles[0].direction, DIR_NE);
    assert_eq!(vehicles[0].path, vec![TileCoord::new(5, 2)]);
    assert_eq!(vehicles[0].wait_counter, 0);
    assert!(!vehicles[0].pbs_stuck);
}

#[test]
fn reversal_refused_when_next_step_is_ahead_or_unit_missing() {
    let mut head = train_unit(1, 6, 3);
    // Next step lies ahead (south-west): no reversal needed.
    head.path = vec![TileCoord::new(7, 2)];
    let mut vehicles = vec![head.clone()];
    assert!(!reverse_consist_at_stop(&mut vehicles, 1));
    assert_eq!(vehicles[0].path, vec![TileCoord::new(7, 2)]);
    // A consist pointing at a unit that does not exist is left alone.
    head.path = vec![TileCoord::new(5, 2)];
    head.next_unit = Some(42);
    let mut vehicles = vec![head];
    assert!(!reverse_consist_at_stop(&mut vehicles, 1));
    assert_eq!(vehicles[0].rail_pixel, 3);
    assert!(!reverse_consist_at_stop(&mut vehicles, 5));
}

#[test]
fn stacked_consist_followers_take_the_head_heading() {
    let pos = TileCoord::new(3, 3);
    let mut head = Vehicle::new(1, VehicleKind::Train, pos, pos);
    head.direction = DIR_SW;
    head.running = false;
    head.next_unit = Some(2);
    let mut wagon = Vehicle::new(2, VehicleKind::Train, pos, pos);
    wagon.prev_unit = Some(1);
    wagon.path = vec![TileCoord::new(4, 3)];
    wagon.current_order = 3;
    let mut vehicles = vec![head, wagon];
    propagate_consist_unit_poses(&mut vehicles, 1);
    assert_eq!(vehicles[1].pos, pos);
    assert_eq!(vehicles[1].direction, DIR_SW);
    assert_eq!(vehicles[1].curve_prev_direction, DIR_SW);
    assert!(!vehicles[1].running);
    assert!(vehicles[1].path.is_empty());
    assert_eq!(vehicles[1].current_order, 0);
    // The head itself is left alone.
    assert_eq!(vehicles[0].direction, DIR_SW);
}

#[test]
fn moving_consist_followers_take_their_projected_poses() {
    let mut head = Vehicle::new(1, VehicleKind::Train, TileCoord::new(4, 4), TileCoord::new(4, 4));
    head.direction = DIR_NE;
    head.rail_pixel = 2;
    head.rail_tile_history = vec![TileCoord::new(5, 4)];
    head.next_unit = Some(2);
    let mut wagon = Vehicle::new(2, VehicleKind::Train, TileCoord::new(9, 9), TileCoord::new(9, 9));
    wagon.prev_unit = Some(1);
    wagon.unit_length = 24;
    let mut vehicles = vec![head, wagon];
    propagate_consist_unit_poses(&mut vehicles, 1);
    assert_eq!(vehicles[1].pos, TileCoord::new(5, 4));
    assert_eq!(vehicles[1].rail_pixel, 2);
    assert!(vehicles[1].running);
}
