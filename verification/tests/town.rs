use openttdrs_core::common::{CargoType, CompanyId, TileCoord};
use openttdrs_core::random::Randomizer;
use openttdrs_core::town::{authority_ratings_from_legacy_single, authority_ratings_from_saved_list};
use openttdrs_core::town_newgrf::TownHistorySample;
use openttdrs_core::town::{
    apply_fund_buildings_boost, apply_station_build_rating_penalty, authority_allows_new_station,
    cap_grow_counter_after_fund, check_town_rating, nearest_town_index, needed_rating_for_demolition,
    record_delivery_near_town, town_cargo_amount_per_cycle, town_goal_satisfied, town_ticks_to_game_ticks,
    recount_town_houses, tile_loop_town_house_renovation, update_town_radius, HouseVisit, Climate, HouseZone, Town, TownCouncilTolerance, TownGrowthEffect, TownLayout,
    TownRatingCheckType, FUND_BUILDINGS_MONTHS, TOWN_GROWTH_DESERT, TOWN_GROWTH_WINTER, TOWN_RATING_INITIAL,
};

#[test]
fn authority_blocks_station_when_rating_too_low() {
    let mut towns = vec![Town {
        id: 1,
        pos: TileCoord::new(5, 5),
        name: "Test".into(),
        population: 100,
        passengers_served: 0,
        mail_served: 0,
        growth_funded: 0,
        ..Default::default()
    }];
    towns[0].authority_ratings[CompanyId::player().index()] = -500;
    assert!(!authority_allows_new_station(&towns, TileCoord::new(6, 5), CompanyId::player()));
    assert!(authority_allows_new_station(&towns, TileCoord::new(30, 30), CompanyId::player()));
}

#[test]
fn apply_fund_boost_starts_only_the_three_month_program() {
    let mut town = Town {
        id: 0,
        pos: TileCoord::new(0, 0),
        name: "X".into(),
        population: 40,
        ..Default::default()
    };
    apply_fund_buildings_boost(&mut town);
    assert_eq!(town.fund_buildings_months, FUND_BUILDINGS_MONTHS);
    assert!(!town.is_growing);
    assert_eq!(town.population, 40);
    assert_eq!(town.growth_funded, 1);
}

#[test]
fn adjust_rating_clamps() {
    let mut town = Town {
        id: 0,
        pos: TileCoord::new(0, 0),
        name: "X".into(),
        population: 0,
        authority_ratings: vec![990],
        passengers_served: 0,
        mail_served: 0,
        growth_funded: 0,
        ..Default::default()
    };
    town.adjust_rating(CompanyId::player(), 50);
    assert_eq!(town.authority_rating(CompanyId::player()), 1000);
}

#[test]
fn authority_ratings_are_per_company() {
    let mut town = Town::default();
    town.adjust_rating(CompanyId::player(), 10);
    town.adjust_rating(CompanyId(1), -20);
    assert_eq!(town.authority_rating(CompanyId::player()), 510);
    assert_eq!(town.authority_rating(CompanyId(1)), 480);
}

#[test]
fn update_town_radius_matches_table_for_small_towns() {
    let mut town = Town { num_houses: 0, ..Default::default() };
    update_town_radius(&mut town);
    assert_eq!(town.squared_town_zone_radius, [4, 0, 0, 0, 0]);
    town.num_houses = 20;
    update_town_radius(&mut town);
    assert_eq!(town.squared_town_zone_radius, [64, 0, 4, 0, 0]);
    town.num_houses = 88;
    update_town_radius(&mut town);
    assert_eq!(town.squared_town_zone_radius, [121, 81, 0, 49, 36]);
}

#[test]
fn new_town_starts_at_initial_rating() {
    let town = Town { pos: TileCoord::new(5, 5), ..Default::default() };
    assert_eq!(town.authority_rating(CompanyId::player()), TOWN_RATING_INITIAL);
    assert_eq!(TOWN_RATING_INITIAL, 500);
    assert!(authority_allows_new_station(std::slice::from_ref(&town), TileCoord::new(6, 6), CompanyId::player()));
}

#[test]
fn adjust_rating_reports_the_change_applied() {
    let mut town = Town { authority_ratings: vec![-995], ..Default::default() };
    assert_eq!(town.adjust_rating(CompanyId::player(), -20), -5);
    assert_eq!(town.authority_rating(CompanyId::player()), -1000);
    assert_eq!(town.authority_ratings.len(), 15);
    assert_eq!(town.authority_rating(CompanyId(3)), 500);
}

#[test]
fn legacy_rating_spreads_to_every_company() {
    let mut town = Town { legacy_local_authority_rating: Some(123), ..Default::default() };
    town.ensure_authority_ratings(20);
    assert_eq!(town.legacy_local_authority_rating, None);
    assert_eq!(town.authority_ratings.len(), 20);
    assert_eq!(town.authority_ratings[0], 123);
    assert_eq!(town.authority_ratings[14], 123);
    assert_eq!(town.authority_ratings[19], TOWN_RATING_INITIAL);
}

#[test]
fn statues_are_per_company_bits() {
    let mut town = Town::default();
    town.set_statue(CompanyId(3), true);
    assert!(town.has_statue(CompanyId(3)));
    assert!(!town.has_statue(CompanyId(2)));
    assert_eq!(town.statues, 8);
    town.set_statue(CompanyId(20), true);
    assert!(!town.has_statue(CompanyId(20)));
    town.set_statue(CompanyId(3), false);
    assert_eq!(town.statues, 0);
}

#[test]
fn unwanted_months_grow_the_table_to_every_company() {
    let mut town = Town { unwanted: vec![], ..Default::default() };
    assert_eq!(town.unwanted_months(CompanyId(2)), 0);
    town.set_unwanted(CompanyId(2), 6);
    assert_eq!(town.unwanted.len(), 15);
    assert_eq!(town.unwanted_months(CompanyId(2)), 6);
    town.set_unwanted(CompanyId(40), 6);
    assert_eq!(town.unwanted.len(), 15);
}

#[test]
fn goals_depend_on_climate() {
    let mut town = Town::default();
    town.init_growth_goals(Climate::SubArctic);
    assert_eq!(town.goals, [0, 0, 0, TOWN_GROWTH_WINTER, 0]);
    town.init_growth_goals(Climate::SubTropical);
    assert_eq!(town.goals, [0, 0, 0, TOWN_GROWTH_DESERT, TOWN_GROWTH_DESERT]);
    town.init_growth_goals(Climate::Temperate);
    assert_eq!(town.goals, [0; 5]);
}

#[test]
fn goal_satisfaction_rules() {
    assert!(town_goal_satisfied(0, 0, 1000));
    assert!(town_goal_satisfied(TOWN_GROWTH_WINTER, 0, 90));
    assert!(!town_goal_satisfied(TOWN_GROWTH_WINTER, 0, 91));
    assert!(town_goal_satisfied(TOWN_GROWTH_WINTER, 1, 91));
    assert!(town_goal_satisfied(TOWN_GROWTH_DESERT, 0, 60));
    assert!(!town_goal_satisfied(TOWN_GROWTH_DESERT, 0, 61));
    assert!(town_goal_satisfied(10, 10, 1000));
    assert!(!town_goal_satisfied(10, 9, 1000));
}

#[test]
fn town_ticks_scale_by_growth_ticks_and_cap() {
    assert_eq!(town_ticks_to_game_ticks(0), 69);
    assert_eq!(town_ticks_to_game_ticks(1), 139);
    assert_eq!(town_ticks_to_game_ticks(5000), 931 * 70 - 1);
}

#[test]
fn house_cargo_amount_rounds_up() {
    assert_eq!(town_cargo_amount_per_cycle(0), 0);
    assert_eq!(town_cargo_amount_per_cycle(1), 1);
    assert_eq!(town_cargo_amount_per_cycle(94), 1);
    assert_eq!(town_cargo_amount_per_cycle(95), 2);
    assert_eq!(town_cargo_amount_per_cycle(220), 3);
}

#[test]
fn fund_cap_limits_grow_counter() {
    let mut town = Town { growth_rate: 100, grow_counter: 500, ..Default::default() };
    cap_grow_counter_after_fund(&mut town);
    // (100 - 500 % 100) % 70 = 30; cap = 110.
    assert_eq!(town.grow_counter, 110);
    let mut idle = Town { growth_rate: 0, grow_counter: 500, ..Default::default() };
    cap_grow_counter_after_fund(&mut idle);
    assert_eq!(idle.grow_counter, 140);
}

#[test]
fn nearest_town_prefers_the_first_on_ties() {
    let towns = vec![
        Town { id: 1, pos: TileCoord::new(0, 0), ..Default::default() },
        Town { id: 2, pos: TileCoord::new(4, 0), ..Default::default() },
        Town { id: 3, pos: TileCoord::new(0, 4), ..Default::default() },
    ];
    assert_eq!(nearest_town_index(&towns, TileCoord::new(2, 2)), Some((0, 4)));
    assert_eq!(nearest_town_index(&towns, TileCoord::new(4, 1)), Some((1, 1)));
    assert_eq!(nearest_town_index(&[], TileCoord::new(4, 1)), None);
}

#[test]
fn demolition_needs_rating_by_tolerance() {
    assert_eq!(needed_rating_for_demolition(TownCouncilTolerance::Hostile, TownRatingCheckType::TunnelBridgeRemove), 400);
    assert_eq!(needed_rating_for_demolition(TownCouncilTolerance::Lenient, TownRatingCheckType::RoadRemove), 16);
    let town = Town { authority_ratings: vec![100], ..Default::default() };
    assert!(check_town_rating(&town, CompanyId(0), TownRatingCheckType::RoadRemove, TownCouncilTolerance::Neutral));
    assert!(!check_town_rating(&town, CompanyId(0), TownRatingCheckType::TunnelBridgeRemove, TownCouncilTolerance::Neutral));
    assert!(check_town_rating(&town, CompanyId(0), TownRatingCheckType::TunnelBridgeRemove, TownCouncilTolerance::Permissive));
}

#[test]
fn station_penalty_hits_only_the_nearest_town_in_range() {
    let mut towns = vec![
        Town { id: 10, pos: TileCoord::new(0, 0), ..Default::default() },
        Town { id: 11, pos: TileCoord::new(50, 50), ..Default::default() },
    ];
    assert_eq!(apply_station_build_rating_penalty(&mut towns, TileCoord::new(1, 1), CompanyId(0)), Some((10, -15)));
    assert_eq!(towns[0].authority_rating(CompanyId(0)), 485);
    assert_eq!(towns[1].authority_rating(CompanyId(0)), 500);
    assert_eq!(apply_station_build_rating_penalty(&mut towns, TileCoord::new(25, 0), CompanyId(0)), None);
}

#[test]
fn delivery_feeds_the_nearest_town() {
    let mut towns = vec![Town { pos: TileCoord::new(0, 0), ..Default::default() }];
    record_delivery_near_town(&mut towns, TileCoord::new(2, 0), CargoType::Passengers, 7);
    record_delivery_near_town(&mut towns, TileCoord::new(2, 0), CargoType::FizzyDrinks, 3);
    record_delivery_near_town(&mut towns, TileCoord::new(2, 0), CargoType::Coal, 3);
    record_delivery_near_town(&mut towns, TileCoord::new(40, 0), CargoType::Mail, 3);
    assert_eq!(towns[0].passengers_served, 7);
    assert_eq!(towns[0].mail_served, 0);
    assert_eq!(towns[0].received_new, [7, 0, 0, 3, 0]);
}

#[test]
fn layout_preference_and_hash() {
    let mut town = Town { pos: TileCoord::new(1, 0), ..Default::default() };
    town.initialize_layout(Some(TownLayout::Grid2x2));
    assert_eq!(town.layout, TownLayout::Grid2x2);
    town.initialize_layout(Some(TownLayout::Random));
    assert_eq!(town.layout, TownLayout::Grid3x3);
    let mut other = Town { pos: TileCoord::new(-1, 0), ..Default::default() };
    other.initialize_layout(None);
    // (0xFFFF_FFFF * 3) mod 2^32 = 0xFFFF_FFFD, which is 1 mod 4.
    assert_eq!(other.layout, TownLayout::BetterRoads);
}

#[test]
fn zones_by_index() {
    assert_eq!(HouseZone::from_zone_index(0), Some(HouseZone::TownEdge));
    assert_eq!(HouseZone::from_zone_index(4), Some(HouseZone::TownCentre));
    assert_eq!(HouseZone::from_zone_index(5), None);
    let _ = TownGrowthEffect::Water;
}

#[test]
fn grow_counter_spreads_by_id() {
    let mut town = Town { id: 145, ..Default::default() };
    town.init_grow_counter();
    assert_eq!(town.grow_counter, 5);
}

#[test]
fn newgrf_parent_scope_exposes_supported_town_variables() {
    let mut town = Town {
        id: 7,
        pos: TileCoord::new(0x12, 0x34),
        population: 0x1234,
        authority_ratings: vec![-1, 0x1234],
        growth_rate: 140,
        grow_counter: 70,
        num_houses: 9,
        squared_town_zone_radius: [0x1234, 0x5678, 0x9ABC, 0xDEF0, 0x1111],
        statues: 0x55,
        road_build_months: 4,
        fund_buildings_months: 3,
        native_flags: 0b111,
        have_ratings: 0xA5,
        larger_town: true,
        is_growing: true,
        has_church: true,
        has_stadium: true,
        ..Default::default()
    };
    let history = vec![
        TownHistorySample { population: 100, passengers_served: 11, mail_served: 13, rating: 500 },
        TownHistorySample { population: 120, passengers_served: 17, mail_served: 19, rating: 600 },
    ];
    town.received_new[TownGrowthEffect::Food as usize] = 0x1234;
    town.received_new[TownGrowthEffect::Water as usize] = 0x5678;
    town.received_old[TownGrowthEffect::Food as usize] = 0x9ABC;
    town.received_old[TownGrowthEffect::Water as usize] = 0xDEF0;
    let (vars, regs) = town.copy_newgrf_parent_scope(&history, 7, &vec![(3, vec![(1, 9)]), (7, vec![(0, 5), (2, 6)])]);
    assert_eq!(regs, vec![(0, 5), (2, 6)]);
    let get = |var: u8| vars.iter().find(|(v, _)| *v == var).map(|(_, value)| *value);

    assert_eq!(get(0x41), Some(7));
    assert_eq!(get(0x40), Some(1));
    assert_eq!(get(0x80), Some(0x12));
    assert_eq!(get(0x81), Some(0x34));
    assert_eq!(get(0x82), Some(0x1234));
    assert_eq!(get(0x83), Some(0x12));
    assert_eq!(get(0x8A), Some(1));
    assert_eq!(get(0x92), Some(0x07));
    assert_eq!(get(0x93), Some(0));
    assert_eq!(get(0xB2), Some(0x55));
    assert_eq!(get(0xB6), Some(9));
    assert_eq!(get(0xB9), Some(2));
    assert_eq!(get(0x94), Some(0x1234));
    assert_eq!(get(0x95), Some(0x12));
    assert_eq!(get(0x9E), Some(0xFFFF));
    assert_eq!(get(0x9F), Some(0xFF));
    assert_eq!(get(0xBA), Some(17));
    assert_eq!(get(0xBC), Some(19));
    assert_eq!(get(0xC2), Some(11));
    assert_eq!(get(0xC4), Some(13));
    assert_eq!(get(0xCC), Some(0x1234));
    assert_eq!(get(0xD2), Some(0xDEF0));
    assert_eq!(get(0xD4), Some(4));
    assert_eq!(get(0xD5), Some(3));
    assert_eq!(get(0xAE), Some(0xA5));
}

#[test]
fn newgrf_parent_scope_caps_words_and_defaults_missing_history() {
    let town = Town { population: 70_000, squared_town_zone_radius: [0x1_0000, 0, 0, 0, 0], ..Default::default() };
    let (vars, regs) = town.copy_newgrf_parent_scope(&Vec::new(), 1, &Vec::new());
    assert!(regs.is_empty());
    let get = |var: u8| vars.iter().find(|(v, _)| *v == var).map(|(_, value)| *value);
    assert_eq!(get(0x82), Some(0xFFFF));
    assert_eq!(get(0x83), Some(0xFF));
    assert_eq!(get(0x94), Some(0xFFFF));
    assert_eq!(get(0xBA), Some(0));
    assert_eq!(get(0xC2), Some(0));
    // Only the first eight of the fifteen ratings are exposed.
    assert_eq!(get(0xAC), Some(TOWN_RATING_INITIAL as u32));
    let keys: Vec<u8> = vars.iter().map(|(v, _)| *v).collect();
    let mut sorted = keys.clone();
    sorted.sort();
    sorted.dedup();
    assert_eq!(sorted.len(), keys.len());
    let bare = Town { authority_ratings: Vec::new(), ..Default::default() };
    let (vars, _) = bare.copy_newgrf_parent_scope(&Vec::new(), 1, &Vec::new());
    assert!(vars.iter().all(|(v, _)| *v != 0x9E));
}

#[test]
fn recount_counts_houses_near_the_centre_on_the_map() {
    let mut town = Town::default();
    town.pos = TileCoord::new(10, 10);
    let mut houses = Vec::new();
    for i in 0..100 {
        houses.push(TileCoord::new(i % 20, i / 20));
    }
    // Off the map, and too far from the centre.
    houses.push(TileCoord::new(-1, 3));
    houses.push(TileCoord::new(10, 200));
    recount_town_houses(256, 256, &houses, &mut town);
    assert_eq!(town.num_houses, 100);
    let mass = 100 / 8;
    assert_eq!(town.squared_town_zone_radius[0], (mass * 15 - 40) as u32);
    let mut small = Town::default();
    small.pos = TileCoord::new(10, 10);
    recount_town_houses(8, 8, &houses, &mut small);
    assert_eq!(small.num_houses, 40);
}

#[test]
fn house_renovation_demolishes_when_chance_hits() {
    let pos = TileCoord::new(8, 8);
    // A completed house of a type without minimum life, five years old.
    let visit = HouseVisit { pos, completed_house: true, age: 5, minimum_life: Some(0), is_church: false, is_stadium: false };
    let mut town = Town::default();
    town.pos = pos;
    town.is_growing = true;
    town.num_houses = 1;
    town.time_until_rebuild = 0;
    update_town_radius(&mut town);
    let towns = vec![town];
    let mut hit = false;
    for seed in 0..64 {
        let mut towns2 = towns.clone();
        let mut rng = Randomizer::new(seed);
        let dirty = tile_loop_town_house_renovation(&mut towns2, &vec![visit], &mut rng);
        assert!(towns2[0].time_until_rebuild >= 192);
        if !dirty.is_empty() {
            assert_eq!(dirty, vec![(pos, rng.state.1)]);
            assert_eq!(towns2[0].num_houses, 0);
            hit = true;
            break;
        }
    }
    assert!(hit, "some seed must trigger the 20/256 renewal");
}

#[test]
fn renewal_waits_for_the_countdown_and_a_growing_town() {
    let pos = TileCoord::new(8, 8);
    let visit = HouseVisit { pos, completed_house: true, age: 5, minimum_life: Some(0), is_church: false, is_stadium: false };
    let mut town = Town::default();
    town.pos = pos;
    town.is_growing = true;
    town.time_until_rebuild = 5;
    let mut towns = vec![town];
    let mut rng = Randomizer::new(1);
    assert!(tile_loop_town_house_renovation(&mut towns, &vec![visit], &mut rng).is_empty());
    assert_eq!(towns[0].time_until_rebuild, 4);
    towns[0].is_growing = false;
    towns[0].time_until_rebuild = 0;
    assert!(tile_loop_town_house_renovation(&mut towns, &vec![visit], &mut rng).is_empty());
    assert_eq!(towns[0].time_until_rebuild, 0);
    let young = HouseVisit { minimum_life: Some(10), ..visit };
    towns[0].is_growing = true;
    assert!(tile_loop_town_house_renovation(&mut towns, &vec![young], &mut rng).is_empty());
    assert_eq!(towns[0].time_until_rebuild, 0);
}

#[test]
fn saved_ratings_fall_back_to_the_initial_rating() {
    assert_eq!(authority_ratings_from_saved_list(vec![1, 2]), vec![1, 2]);
    assert_eq!(authority_ratings_from_saved_list(vec![]), vec![TOWN_RATING_INITIAL; 15]);
    assert_eq!(authority_ratings_from_legacy_single(-40), vec![-40; 15]);
}
