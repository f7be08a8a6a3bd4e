use openttdrs_core::common::{TileCoord, VehicleKind, DIR_NE, DIR_SE};
use openttdrs_core::train_movement::calc_next_vehicle_offset;
use openttdrs_core::train_pose::consist_unit_poses;
use openttdrs_core::vehicle::Vehicle;

fn unit(id: u32, pos: TileCoord) -> Vehicle {
    let mut v = Vehicle::new(id, VehicleKind::Train, pos, pos);
    v.unit_length = 8;
    v.direction = DIR_NE;
    v.curve_prev_direction = DIR_NE;
    v
}

#[test]
fn follower_projects_half_tile_behind_head() {
    let mut head = unit(1, TileCoord::new(4, 4));
    head.rail_pixel = 12;
    head.next_unit = Some(2);
    let mut wagon = unit(2, TileCoord::new(4, 4));
    wagon.prev_unit = Some(1);
    let poses = consist_unit_poses(&vec![head, wagon], 1);
    assert_eq!(poses.len(), 2);
    assert_eq!(poses[1].tile, TileCoord::new(4, 4));
    assert_eq!(poses[1].rail_pixel, 4);
}

#[test]
fn follower_crosses_into_previous_tile_when_back_exceeds_head_pixel() {
    // Head at (46,37) pixel 5 heading NE; the first wagon at offset 8 lands on (47,37) pixel 13.
    let mut head = unit(1, TileCoord::new(46, 37));
    head.rail_pixel = 5;
    head.next_unit = Some(2);
    let mut wagon = unit(2, TileCoord::new(46, 37));
    wagon.prev_unit = Some(1);
    let poses = consist_unit_poses(&vec![head, wagon], 1);
    assert_eq!(poses[1].tile, TileCoord::new(47, 37));
    assert_eq!(poses[1].rail_pixel, 13);
}

#[test]
fn follower_uses_calc_next_vehicle_offset_not_raw_length() {
    // Head 8 + wagon 24: centre-to-centre offset 16, not 24.
    let mut head = unit(1, TileCoord::new(4, 4));
    head.rail_pixel = 2;
    head.rail_tile_history.push(TileCoord::new(5, 4));
    head.next_unit = Some(2);
    let mut wagon = unit(2, TileCoord::new(4, 4));
    wagon.unit_length = 24;
    wagon.prev_unit = Some(1);
    let poses = consist_unit_poses(&vec![head, wagon], 1);
    // offset = calc_next_vehicle_offset(8, 24) = 16; into = 16 - 2 = 14: history 0, pixel 2.
    assert_eq!(poses[1].tile, TileCoord::new(5, 4));
    assert_eq!(poses[1].rail_pixel, 2);
    assert_eq!(calc_next_vehicle_offset(8, 24, false), 16);
}

#[test]
fn second_wagon_offsets_from_first_not_only_head_length() {
    let mut head = unit(1, TileCoord::new(10, 10));
    head.rail_pixel = 15;
    head.next_unit = Some(2);
    let mut w1 = unit(2, TileCoord::new(10, 10));
    w1.prev_unit = Some(1);
    w1.next_unit = Some(3);
    let mut w2 = unit(3, TileCoord::new(10, 10));
    w2.prev_unit = Some(2);
    let poses = consist_unit_poses(&vec![head, w1, w2], 1);
    // Each link adds offset 8: the tail sits 16 pixels behind the head.
    assert_eq!(poses[2].tile, TileCoord::new(11, 10));
    assert_eq!(poses[2].rail_pixel, 15);
}

#[test]
fn poses_follow_the_route_round_a_curve() {
    // Head on (4,4) having come from (4,3) after (5,3): the route bends.
    let mut head = unit(1, TileCoord::new(4, 4));
    head.direction = DIR_SE;
    head.rail_pixel = 0;
    head.rail_tile_history = vec![TileCoord::new(4, 3), TileCoord::new(5, 3)];
    head.next_unit = Some(2);
    let mut wagon = unit(2, TileCoord::new(4, 4));
    wagon.prev_unit = Some(1);
    let poses = consist_unit_poses(&vec![head, wagon], 1);
    assert_eq!(poses[0].tile, TileCoord::new(4, 4));
    assert_eq!(poses[0].direction, DIR_SE);
    // 8 pixels back from pixel 0: into the last tile left, pixel 8.
    assert_eq!(poses[1].tile, TileCoord::new(4, 3));
    assert_eq!(poses[1].rail_pixel, 8);
    // Entered (4,3) from (5,3) heading NE, left it towards (4,4) heading SE.
    assert_eq!(poses[1].direction, DIR_NE);
    assert_eq!(poses[1].curve_prev_direction, DIR_SE);
}

#[test]
fn unknown_head_gives_no_poses() {
    let head = unit(1, TileCoord::new(4, 4));
    assert!(consist_unit_poses(&vec![head], 9).is_empty());
    assert_eq!(calc_next_vehicle_offset(7, 7, false), 7);
    assert_eq!(calc_next_vehicle_offset(7, 7, true), 3);
}
