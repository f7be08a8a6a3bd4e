use openttdrs_core::common::{CompanyId, TileCoord};
use openttdrs_core::random::Randomizer;
use openttdrs_core::town::{
    Climate, Town, TownGrowthEffect, TOWN_GROWTH_DESERT, TOWN_GROWTH_RATE_NONE, TOWN_GROWTH_WINTER,
    TOWN_RATING_INITIAL,
};
use openttdrs_core::town_growth::{
    count_active_stations_near_town, get_normal_growth_rate, stations_near_town, town_goal_satisfied_with_context,
    update_town_grow_counter,
    update_town_growth_rate, update_town_growth_state, update_town_rating, TownStation,
    process_town_monthly_growth, TownMapFacts,
};

fn station(owner: u8, x: i32, y: i32, active: bool) -> TownStation {
    TownStation { owner: CompanyId(owner), pos: TileCoord::new(x, y), is_waypoint_or_buoy: false, recently_active: active }
}

fn town_at(x: i32, y: i32) -> Town {
    Town { pos: TileCoord::new(x, y), ..Default::default() }
}

#[test]
fn stations_near_town_skip_waypoints_and_far_stations() {
    let town = town_at(10, 10);
    let mut buoy = station(0, 10, 11, true);
    buoy.is_waypoint_or_buoy = true;
    let stations = vec![station(0, 12, 10, true), station(1, 10, 40, true), buoy, station(2, 30, 10, false)];
    assert_eq!(stations_near_town(&town, &stations), vec![0, 3]);
    assert_eq!(count_active_stations_near_town(&town, &stations), 1);
}

#[test]
fn update_town_rating_recovers_then_applies_station_service() {
    let mut town = town_at(10, 10);
    town.authority_ratings = vec![0, 195, 600];
    let mut waypoint = station(1, 10, 11, false);
    waypoint.is_waypoint_or_buoy = true;
    let stations = vec![
        station(0, 12, 10, true),
        station(1, 10, 40, false),
        station(2, 10, 12, false),
        station(0, 11, 11, false),
        waypoint,
    ];
    update_town_rating(&mut town, &stations, 3);
    assert_eq!(town.authority_ratings.len(), 15);
    // Company 0: 0 -> 5 by recovery; its last station (unserved) wins: 5 - 15.
    assert_eq!(town.authority_ratings[0], -10);
    // Company 1: recovery stops at the ceiling; its only station is too far.
    assert_eq!(town.authority_ratings[1], 200);
    // Company 2: above the ceiling, no recovery; unserved station: -15.
    assert_eq!(town.authority_ratings[2], 585);
    // Slots past the company count keep the initial rating.
    assert_eq!(town.authority_ratings[3], TOWN_RATING_INITIAL);
}

#[test]
fn update_town_rating_clamps_to_rating_range() {
    let mut town = town_at(10, 10);
    town.authority_ratings = vec![995, -1000];
    let stations = vec![station(0, 10, 10, true), station(1, 10, 10, false)];
    update_town_rating(&mut town, &stations, 2);
    assert_eq!(town.authority_ratings[0], 1000);
    assert_eq!(town.authority_ratings[1], -1000);
}

#[test]
fn normal_growth_rate_follows_station_and_house_counts() {
    let mut town = town_at(1, 1);
    assert_eq!(get_normal_growth_rate(&town, 0, 0), 22_469);
    assert_eq!(get_normal_growth_rate(&town, 7, 0), 7_069);
    town.fund_buildings_months = 3;
    assert_eq!(get_normal_growth_rate(&town, 3, 120), 2_379);
    town.fund_buildings_months = 0;
    // A divisor that does not fit in 16 bits counts as 1.
    assert_eq!(get_normal_growth_rate(&town, 0, u32::MAX), 22_469);
}

#[test]
fn grow_counter_is_rescaled_to_the_new_rate() {
    let mut town = town_at(1, 1);
    town.growth_rate = 100;
    town.grow_counter = 50;
    update_town_grow_counter(&mut town, 200);
    assert_eq!(town.grow_counter, 25);
    town.grow_counter = 300;
    update_town_grow_counter(&mut town, TOWN_GROWTH_RATE_NONE);
    assert_eq!(town.grow_counter, 100);
    town.growth_rate = TOWN_GROWTH_RATE_NONE;
    town.grow_counter = 7;
    update_town_grow_counter(&mut town, 100);
    assert_eq!(town.grow_counter, 7);
}

#[test]
fn growth_rate_update_sets_rate_and_counter() {
    let mut town = town_at(1, 1);
    town.growth_rate = TOWN_GROWTH_RATE_NONE;
    town.grow_counter = 60_000;
    update_town_growth_rate(&mut town, 0, 0);
    assert_eq!(town.growth_rate, 22_469);
    assert_eq!(town.grow_counter, 22_469);
}

#[test]
fn update_town_rating_recovers_and_penalizes_by_station_service() {
    let mut town = Town { id: 1, pos: TileCoord::new(10, 10), name: "Rate".into(), authority_ratings: vec![0, 100], ..Default::default() };
    let good = station(0, 10, 11, true);
    let bad = station(1, 11, 10, false);
    update_town_rating(&mut town, &vec![good, bad], 2);
    assert_eq!(town.authority_rating(CompanyId::player()), 17);
    assert_eq!(town.authority_rating(CompanyId(1)), 90);
}

#[test]
fn growth_rate_scales_with_active_stations() {
    let town = Town { id: 0, pos: TileCoord::new(8, 8), name: "Rate".into(), ..Default::default() };
    // A flat map: no houses in reach.
    let unserved = get_normal_growth_rate(&town, count_active_stations_near_town(&town, &Vec::new()), 0);
    let mut active: Vec<TownStation> = Vec::new();
    for i in 0..5 {
        active.push(station(0, 8 + i, 9, true));
    }
    let well_served = get_normal_growth_rate(&town, count_active_stations_near_town(&town, &active), 0);
    assert!(well_served < unserved, "more active stations speed growth up");
}

#[test]
fn unserved_town_growth_requires_chance_without_funding() {
    let mut town = Town { id: 0, pos: TileCoord::new(4, 4), name: "Lonely".into(), population: 80, ..Default::default() };
    // Its only station has not been served for a while.
    let stations = vec![station(0, 4, 5, false)];
    let mut never = Randomizer::new(42);
    update_town_growth_state(&mut town, &stations, 0, false, false, &mut never);
    assert!(!town.is_growing);
    let mut lucky_found = false;
    for seed in 0..128 {
        let mut town2 = town.clone();
        let mut lucky = Randomizer::new(seed);
        update_town_growth_state(&mut town2, &stations, 0, false, false, &mut lucky);
        if town2.is_growing {
            lucky_found = true;
            break;
        }
    }
    assert!(lucky_found, "some seed must win the one-in-twelve chance");
}

#[test]
fn fund_buildings_forces_growth_gate_without_station() {
    let mut town = Town { id: 0, pos: TileCoord::new(5, 5), name: "Fund".into(), population: 200, fund_buildings_months: 3, ..Default::default() };
    town.init_growth_goals(Climate::SubArctic);
    let mut rng = Randomizer::new(1);
    update_town_growth_state(&mut town, &Vec::new(), 0, true, false, &mut rng);
    assert!(town.is_growing);
}

#[test]
fn arctic_food_goal_blocks_large_town_without_goods() {
    let mut town = Town { id: 0, pos: TileCoord::new(5, 5), name: "Arctic".into(), population: 120, passengers_served: 50, ..Default::default() };
    // The town tile lies at height 12, above the snow line.
    let above_snow_line = true;
    town.init_growth_goals(Climate::SubArctic);
    let stations = vec![station(0, 5, 6, true)];
    let mut rng = Randomizer::new(1);
    update_town_growth_state(&mut town, &stations, 0, above_snow_line, false, &mut rng);
    assert!(!town.is_growing);
    town.received_old[TownGrowthEffect::Food as usize] = 1;
    update_town_growth_state(&mut town, &stations, 0, above_snow_line, false, &mut rng);
    assert!(town.is_growing);
}

#[test]
fn goals_below_the_snow_line_or_outside_the_desert_do_not_bind() {
    assert!(town_goal_satisfied_with_context(TOWN_GROWTH_WINTER, 0, 500, false, false));
    assert!(!town_goal_satisfied_with_context(TOWN_GROWTH_WINTER, 0, 500, true, false));
    assert!(town_goal_satisfied_with_context(TOWN_GROWTH_WINTER, 0, 90, true, false));
    assert!(town_goal_satisfied_with_context(TOWN_GROWTH_WINTER, 1, 500, true, false));
    assert!(town_goal_satisfied_with_context(TOWN_GROWTH_DESERT, 0, 500, true, false));
    assert!(!town_goal_satisfied_with_context(TOWN_GROWTH_DESERT, 0, 61, false, true));
    assert!(!town_goal_satisfied_with_context(40, 39, 500, false, false));
    assert!(town_goal_satisfied_with_context(40, 40, 500, false, false));
}

#[test]
fn monthly_pass_rolls_deliveries_and_funding_over() {
    let mut town = Town::default();
    town.received_new = [5, 3, 0, 0, 0];
    town.fund_buildings_months = 2;
    let mut other = Town::default();
    other.pos = TileCoord::new(50, 50);
    let mut towns = vec![town, other];
    let facts = vec![
        TownMapFacts { house_tiles: 10, above_snow_line: false, in_desert: false },
        TownMapFacts { house_tiles: 0, above_snow_line: false, in_desert: false },
    ];
    let mut rng = Randomizer::new(7);
    process_town_monthly_growth(&mut towns, &vec![], &facts, &mut rng, 2);
    assert_eq!(towns[0].received_old, [5, 3, 0, 0, 0]);
    assert_eq!(towns[0].received_new, [0, 0, 0, 0, 0]);
    assert_eq!(towns[0].fund_buildings_months, 1);
    assert!(towns[0].is_growing);
    assert!(!towns[1].is_growing);
    assert!(towns[0].authority_ratings.len() >= 2);
}
