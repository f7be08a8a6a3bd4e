use openttdrs_core::common::{DIR_NE, DIR_SE, DIR_SW};
use openttdrs_core::train_movement::{
    diag_dir_index, is_45_degree_turn, subcoord_at_entry, track_bit_for_movement, tunnel_hides_train_at_progress, TUNNEL_VISIBILITY_FRAME,
};

#[test]
fn tunnel_hides_train_matches_visibility_frame() {
    assert!(tunnel_hides_train_at_progress(DIR_NE, 11));
    assert!(!tunnel_hides_train_at_progress(DIR_NE, 12));
    assert_eq!(TUNNEL_VISIBILITY_FRAME[diag_dir_index(DIR_SE)], 8);
}

#[test]
fn track_bit_on_depot_junction_is_the_x_track() {
    assert_eq!(track_bit_for_movement(DIR_SW, 0x29), Some(0x01));
}

#[test]
fn forty_five_degree_turns_are_symmetric() {
    for a in 0u8..8 {
        for b in 0u8..8 {
            assert_eq!(is_45_degree_turn(a, b), is_45_degree_turn(b, a));
        }
    }
    assert!(is_45_degree_turn(0, 1));
    assert!(is_45_degree_turn(7, 0));
    assert!(!is_45_degree_turn(0, 2));
}

#[test]
fn entry_subcoord_prefers_a_lone_piece_then_x_then_y() {
    assert!(subcoord_at_entry(DIR_SW, 0x00).is_none());
    assert!(subcoord_at_entry(DIR_SW, 0x01).is_some());
    assert_eq!(subcoord_at_entry(DIR_SW, 0x03), subcoord_at_entry(DIR_SW, 0x01));
}
