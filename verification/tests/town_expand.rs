use openttdrs_core::common::TileCoord;
use openttdrs_core::town::{Town, TownLayout};
use openttdrs_core::town_expand::{
    chance16, diag_dir_to_road_bits, diag_from_delta, grid_road_bits, reverse_diag, road_allowed_here,
    tile_add_diag, town_layout_allows_2x2_house_here, town_layout_allows_house_here, ROAD_AXIS_X, ROAD_AXIS_Y,
    ROAD_NE, ROAD_NW, ROAD_SE, ROAD_SW,
};

#[test]
fn grid_layout_rejects_house_on_road_line() {
    let town = Town { pos: TileCoord::new(10, 10), layout: TownLayout::Grid2x2, ..Default::default() };
    // gx % 3 == 0: road line
    assert!(!town_layout_allows_house_here(&town, TileCoord::new(10, 11)));
    assert!(town_layout_allows_house_here(&town, TileCoord::new(11, 11)));
}

#[test]
fn town_growth_uses_canonical_diagonal_tile_offsets() {
    let origin = TileCoord::new(10, 10);
    assert_eq!(tile_add_diag(origin, 0), TileCoord::new(9, 10)); // NE
    assert_eq!(tile_add_diag(origin, 1), TileCoord::new(10, 11)); // SE
    assert_eq!(tile_add_diag(origin, 2), TileCoord::new(11, 10)); // SW
    assert_eq!(tile_add_diag(origin, 3), TileCoord::new(10, 9)); // NW

    assert_eq!(diag_from_delta(-1, 0), 0);
    assert_eq!(diag_from_delta(0, 1), 1);
    assert_eq!(diag_from_delta(1, 0), 2);
    assert_eq!(diag_from_delta(0, -1), 3);
}

#[test]
fn two_by_two_layout_requires_a_complete_grid_cell() {
    let grid_2 = Town { pos: TileCoord::new(10, 10), layout: TownLayout::Grid2x2, ..Default::default() };
    assert!(town_layout_allows_2x2_house_here(&grid_2, TileCoord::new(8, 8)));
    assert!(!town_layout_allows_2x2_house_here(&grid_2, TileCoord::new(9, 8)));

    let grid_3 = Town { layout: TownLayout::Grid3x3, ..grid_2 };
    assert!(town_layout_allows_2x2_house_here(&grid_3, TileCoord::new(8, 8)));
    assert!(!town_layout_allows_2x2_house_here(&grid_3, TileCoord::new(9, 8)));
}

#[test]
fn grid_lines_count_from_the_centre_on_both_sides() {
    let town = Town { pos: TileCoord::new(10, 10), layout: TownLayout::Grid3x3, ..Default::default() };
    // Offsets -4, 0, 4 lie on lines; tiles in between carry houses.
    assert!(road_allowed_here(&town, TileCoord::new(14, 3)));
    assert!(road_allowed_here(&town, TileCoord::new(6, 3)));
    assert!(!road_allowed_here(&town, TileCoord::new(13, 3)));
    assert!(!town_layout_allows_house_here(&town, TileCoord::new(14, 13)));
    assert!(town_layout_allows_house_here(&town, TileCoord::new(13, 13)));
    let original = Town { pos: TileCoord::new(10, 10), layout: TownLayout::Original, ..Default::default() };
    assert!(road_allowed_here(&original, TileCoord::new(13, 3)));
    assert!(town_layout_allows_house_here(&original, TileCoord::new(10, 10)));
}

#[test]
fn grid_road_bits_lay_straight_pieces_on_grid_lines() {
    let town = Town { pos: TileCoord::new(10, 10), layout: TownLayout::Grid2x2, ..Default::default() };
    // From (10,10) towards SW the next tile (11,10) still lies on the y line.
    assert_eq!(grid_road_bits(&town, TileCoord::new(10, 10), 2), ROAD_AXIS_X);
    assert_eq!(grid_road_bits(&town, TileCoord::new(10, 10), 1), ROAD_AXIS_Y);
    // From (11,11) towards SE the next tile (11,12) lies on no line.
    assert_eq!(grid_road_bits(&town, TileCoord::new(11, 11), 1), 0);
}

#[test]
fn diagonal_road_bits_and_reversal() {
    assert_eq!(diag_dir_to_road_bits(0), ROAD_NE);
    assert_eq!(diag_dir_to_road_bits(1), ROAD_SE);
    assert_eq!(diag_dir_to_road_bits(2), ROAD_SW);
    assert_eq!(diag_dir_to_road_bits(3), ROAD_NW);
    assert_eq!(diag_dir_to_road_bits(6), ROAD_SW);
    for d in 0..4u8 {
        assert_eq!(reverse_diag(reverse_diag(d)), d);
        let step = tile_add_diag(TileCoord::new(5, 5), d);
        assert_eq!(diag_from_delta(step.x - 5, step.y - 5), d);
    }
}

#[test]
fn chance16_advances_the_generator() {
    let mut rng: u32 = 1;
    assert!(!chance16(&mut rng, 1, 0));
    assert_eq!(rng, 1);
    let hit = chance16(&mut rng, 1, 2);
    assert_eq!(rng, 1_103_527_590);
    // 1_103_527_590 >> 16 = 16_838, even.
    assert!(hit);
    let mut rng2: u32 = 1;
    assert!(!chance16(&mut rng2, 0, 2));
}
