use openttdrs_core::common::{CompanyId, TileCoord, VehicleKind};
use openttdrs_core::train_collision::{detect_train_collisions, resolve_train_collisions};
use openttdrs_core::train_consist::consist_occupied_tiles;
use openttdrs_core::vehicle::Vehicle;

fn running_train(id: u32, pos: TileCoord) -> Vehicle {
    let mut v = Vehicle::new(id, VehicleKind::Train, pos, pos);
    v.running = true;
    v
}

#[test]
fn same_tile_trains_crash_and_emit_news() {
    let pos = TileCoord::new(4, 4);
    let mut vehicles = vec![running_train(1, pos), running_train(2, pos)];

    let collisions = resolve_train_collisions(&vec![], &mut vehicles);
    assert!(vehicles.is_empty());
    // What the crash event and the accident news report.
    assert_eq!(collisions.len(), 1);
    assert_eq!((collisions[0].a, collisions[0].b, collisions[0].at), (1, 2, pos));
}

#[test]
fn different_owners_do_not_crash() {
    let pos = TileCoord::new(4, 4);
    let a = running_train(1, pos);
    let mut b = running_train(2, pos);
    b.owner = CompanyId(1);
    let mut vehicles = vec![a, b];

    let collisions = resolve_train_collisions(&vec![], &mut vehicles);
    assert!(collisions.is_empty());
    assert_eq!(vehicles.len(), 2);
}

#[test]
fn trains_in_a_depot_do_not_crash() {
    let pos = TileCoord::new(4, 4);
    let vehicles = vec![running_train(1, pos), running_train(2, pos)];
    assert!(detect_train_collisions(&vec![pos], &vehicles).is_empty());
}

#[test]
fn a_pair_sharing_two_tiles_is_reported_once() {
    let p = TileCoord::new(4, 4);
    let q = TileCoord::new(5, 4);
    let mut a = running_train(1, p);
    a.cached_total_length = 512;
    a.rail_tile_history = vec![q];
    let mut b = running_train(2, q);
    b.cached_total_length = 512;
    b.rail_tile_history = vec![p];
    let collisions = detect_train_collisions(&vec![], &vec![a, b]);
    assert_eq!(collisions.len(), 1);
    assert_eq!((collisions[0].a, collisions[0].b, collisions[0].at), (1, 2, q));
}

#[test]
fn crash_removes_only_the_colliding_consists() {
    let pos = TileCoord::new(4, 4);
    let far = TileCoord::new(9, 9);
    let mut vehicles = vec![running_train(1, pos), running_train(3, far), running_train(2, pos)];
    let collisions = resolve_train_collisions(&vec![], &mut vehicles);
    assert_eq!(collisions.len(), 1);
    assert_eq!(vehicles.len(), 1);
    assert_eq!(vehicles[0].id, 3);
}

#[test]
fn occupied_tiles_list_each_tile_once() {
    let pos = TileCoord::new(2, 2);
    let mut head = running_train(1, pos);
    let mut wagon = running_train(2, pos);
    let mut last = running_train(3, TileCoord::new(3, 2));
    head.next_unit = Some(2);
    wagon.prev_unit = Some(1);
    wagon.next_unit = Some(3);
    last.prev_unit = Some(2);
    let tiles = consist_occupied_tiles(&vec![head, wagon, last], 1);
    assert_eq!(tiles, vec![pos, TileCoord::new(3, 2)]);
}
