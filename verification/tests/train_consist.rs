use openttdrs_core::common::{TileCoord, VehicleKind};
use openttdrs_core::engine::ENGINE_WAGON_PASSENGER;
use openttdrs_core::train_consist::{
    attach_wagon, cargo_class_bits, consist_changed, consist_head_id, consist_tile_span, consist_unit_ids,
    detach_unit, same_consist, sell_chain_ids, VEHICLE_LENGTH,
};
use openttdrs_core::common::CargoType;
use openttdrs_core::vehicle::Vehicle;

fn train(id: u32) -> Vehicle {
    let mut v = Vehicle::new(id, VehicleKind::Train, TileCoord::new(0, 0), TileCoord::new(0, 0));
    v.unit_length = VEHICLE_LENGTH;
    v.cached_total_length = u16::from(VEHICLE_LENGTH);
    v
}

#[test]
fn train_consist_attach_and_detach_wagon() {
    let mut vs = vec![train(1), train(2)];
    vs[1].engine_id = Some(ENGINE_WAGON_PASSENGER);
    assert!(attach_wagon(&mut vs, 1, 2).is_ok());
    assert_eq!(vs[0].next_unit, Some(2));
    assert_eq!(vs[1].prev_unit, Some(1));
    assert_eq!(consist_unit_ids(&vs, 1), vec![1, 2]);
    assert!(vs[0].cached_total_length >= 16);
    assert!(detach_unit(&mut vs, 2).is_ok());
    assert_eq!(vs[0].next_unit, None);
    assert_eq!(vs[1].prev_unit, None);
}

#[test]
fn mod_attach_and_detach_wagon() {
    let mut vs = vec![train(1), train(2)];
    vs[1].engine_id = Some(ENGINE_WAGON_PASSENGER);
    assert!(attach_wagon(&mut vs, 1, 2).is_ok());
    assert_eq!(vs[0].next_unit, Some(2));
    assert_eq!(vs[1].prev_unit, Some(1));
    assert_eq!(consist_unit_ids(&vs, 1), vec![1, 2]);
    assert!(vs[0].cached_total_length >= 16);
    assert!(detach_unit(&mut vs, 2).is_ok());
    assert_eq!(vs[0].next_unit, None);
    assert_eq!(vs[1].prev_unit, None);
}

#[test]
fn train_consist_consist_tile_span_grows_with_units() {
    let mut vs = vec![train(1), train(2), train(3)];
    assert!(attach_wagon(&mut vs, 1, 2).is_ok());
    assert!(attach_wagon(&mut vs, 1, 3).is_ok());
    assert_eq!(consist_tile_span(&vs, 1), 1);
    vs[0].unit_length = 100;
    vs[1].unit_length = 100;
    vs[2].unit_length = 100;
    consist_changed(&mut vs, 1);
    assert!(consist_tile_span(&vs, 1) >= 2);
}

#[test]
fn mod_consist_tile_span_grows_with_units() {
    let mut vs = vec![train(1), train(2), train(3)];
    assert!(attach_wagon(&mut vs, 1, 2).is_ok());
    assert!(attach_wagon(&mut vs, 1, 3).is_ok());
    assert_eq!(consist_tile_span(&vs, 1), 1);
    vs[0].unit_length = 100;
    vs[1].unit_length = 100;
    vs[2].unit_length = 100;
    consist_changed(&mut vs, 1);
    assert!(consist_tile_span(&vs, 1) >= 2);
}

#[test]
fn attach_refuses_self_and_members() {
    let mut vs = vec![train(1), train(2)];
    assert!(attach_wagon(&mut vs, 1, 1).is_err());
    assert!(attach_wagon(&mut vs, 1, 2).is_ok());
    assert!(attach_wagon(&mut vs, 1, 2).is_err());
    assert_eq!(consist_head_id(&vs, 2), Some(1));
    assert!(same_consist(&vs, 1, 2));
    assert!(!same_consist(&vs, 1, 7));
}

#[test]
fn consist_changed_sums_lengths_and_capacity() {
    let mut vs = vec![train(1), train(2), train(3)];
    vs[1].engine_id = Some(ENGINE_WAGON_PASSENGER);
    vs[2].engine_id = Some(ENGINE_WAGON_PASSENGER);
    vs[2].pos = TileCoord::new(9, 9);
    assert!(attach_wagon(&mut vs, 1, 2).is_ok());
    assert!(attach_wagon(&mut vs, 1, 3).is_ok());
    assert_eq!(vs[0].cached_total_length, 24);
    // Default train engine 20 plus two passenger wagons of 40.
    assert_eq!(vs[0].capacity, 100);
    assert_eq!(vs[2].pos, TileCoord::new(0, 0));
}

#[test]
fn detaching_a_middle_unit_splits_the_chain() {
    let mut vs = vec![train(1), train(2), train(3)];
    assert!(attach_wagon(&mut vs, 1, 2).is_ok());
    assert!(attach_wagon(&mut vs, 1, 3).is_ok());
    assert!(detach_unit(&mut vs, 2).is_ok());
    assert_eq!(consist_unit_ids(&vs, 1), vec![1]);
    assert_eq!(vs[0].next_unit, None);
    assert_eq!((vs[1].prev_unit, vs[1].next_unit), (None, None));
    assert_eq!(vs[2].prev_unit, None);
    assert_eq!(consist_unit_ids(&vs, 2), vec![2]);
    assert_eq!(consist_unit_ids(&vs, 3), vec![3]);
    assert_eq!(consist_head_id(&vs, 3), Some(3));
    assert!(detach_unit(&mut vs, 99).is_err());
}

#[test]
fn selling_a_head_takes_the_chain() {
    let mut vs = vec![train(1), train(2)];
    assert!(attach_wagon(&mut vs, 1, 2).is_ok());
    assert_eq!(sell_chain_ids(&vs, 1), vec![1, 2]);
    assert_eq!(sell_chain_ids(&vs, 2), vec![2]);
    assert_eq!(sell_chain_ids(&vs, 5), Vec::<u32>::new());
}

#[test]
fn broken_circular_chain_stops_after_the_walk_limit() {
    let mut vs = vec![train(1), train(2)];
    vs[0].next_unit = Some(2);
    vs[1].next_unit = Some(1);
    vs[0].prev_unit = Some(2);
    vs[1].prev_unit = Some(1);
    assert_eq!(consist_unit_ids(&vs, 1).len(), 257);
    assert_eq!(consist_head_id(&vs, 1), None);
}

#[test]
fn cargo_classes() {
    assert_eq!(cargo_class_bits(Some(CargoType::Passengers)), 1);
    assert_eq!(cargo_class_bits(Some(CargoType::Water)), 0x40);
    assert_eq!(cargo_class_bits(Some(CargoType::Coal)), 0x10);
    assert_eq!(cargo_class_bits(None), 0);
}

#[test]
fn detached_tail_keeps_its_own_chain() {
    let mut vs = vec![train(1), train(2), train(3), train(4)];
    assert!(attach_wagon(&mut vs, 1, 2).is_ok());
    assert!(attach_wagon(&mut vs, 1, 3).is_ok());
    assert!(attach_wagon(&mut vs, 1, 4).is_ok());
    assert!(detach_unit(&mut vs, 2).is_ok());
    assert_eq!(consist_unit_ids(&vs, 1), vec![1]);
    assert_eq!(consist_unit_ids(&vs, 3), vec![3, 4]);
    assert_eq!(consist_head_id(&vs, 4), Some(3));
    assert_eq!(vs[2].cached_total_length, 2 * u16::from(VEHICLE_LENGTH));
}

#[test]
fn a_dual_headed_cab_is_not_detached() {
    let mut vs = vec![train(1), train(2)];
    assert!(attach_wagon(&mut vs, 1, 2).is_ok());
    vs[1].other_multiheaded_part = Some(1);
    assert!(detach_unit(&mut vs, 2).is_err());
    assert_eq!(consist_unit_ids(&vs, 1), vec![1, 2]);
}
