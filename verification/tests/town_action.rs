use openttdrs_core::common::{CompanyId, TileCoord};
use openttdrs_core::town::Town;
use openttdrs_core::town_action::{
    apply_town_action_effect, execute_town_action, mask_of_town_actions, StationCargoRatings, tick_town_authority_months, town_exclusivity_owner, TownAction,
    TownActionEffect, TownActionError, TownAuthoritySettings,
};

#[test]
fn action_costs_scale_with_the_factor() {
    assert_eq!(TownAction::AdvertiseMedium.cost(), 1_000);
    assert_eq!(TownAction::Bribe.cost(), 175 * 250);
    assert_eq!(TownAction::all().len(), 8);
    assert_eq!(TownAction::all()[5], TownAction::FundBuildings);
}

#[test]
fn mask_offers_what_money_allows() {
    let town = Town::default();
    let settings = TownAuthoritySettings::default();
    assert_eq!(mask_of_town_actions(&town, CompanyId(0), 0, settings), 0);
    assert_eq!(mask_of_town_actions(&town, CompanyId(0), 1_000, settings), 0b0000_0011);
    assert_eq!(mask_of_town_actions(&town, CompanyId(0), 1_000_000, settings), 0xFF);
    assert_eq!(mask_of_town_actions(&town, CompanyId(15), 1_000_000, settings), 0);
}

#[test]
fn unwanted_company_gets_no_actions() {
    let mut town = Town::default();
    town.set_unwanted(CompanyId(1), 3);
    assert_eq!(mask_of_town_actions(&town, CompanyId(1), 1_000_000, TownAuthoritySettings::default()), 0);
}

#[test]
fn statue_is_built_once_near_the_centre() {
    let mut town = Town { pos: TileCoord::new(5, 5), ..Default::default() };
    let r = execute_town_action(&mut town, 16, 16, CompanyId(2), TownAction::BuildStatue, false);
    assert_eq!(r, Ok(TownActionEffect::StatueBuilt(TileCoord::new(5, 5))));
    assert!(town.has_statue(CompanyId(2)));
    assert_eq!(town.authority_rating(CompanyId(2)), 526);
    let again = execute_town_action(&mut town, 16, 16, CompanyId(2), TownAction::BuildStatue, false);
    assert_eq!(again, Err(TownActionError::AlreadyHasStatue));
}

#[test]
fn statue_search_spirals_onto_the_map() {
    let mut town = Town { pos: TileCoord::new(-1, -1), ..Default::default() };
    let r = execute_town_action(&mut town, 16, 16, CompanyId(0), TownAction::BuildStatue, false);
    assert_eq!(r, Ok(TownActionEffect::StatueBuilt(TileCoord::new(0, 0))));
    let mut far = Town { pos: TileCoord::new(-10, -10), ..Default::default() };
    let r = execute_town_action(&mut far, 16, 16, CompanyId(0), TownAction::BuildStatue, false);
    assert_eq!(r, Err(TownActionError::NoStatuePlace));
}

#[test]
fn rights_run_out_after_twelve_months() {
    let mut towns = vec![Town::default()];
    let r = execute_town_action(&mut towns[0], 8, 8, CompanyId(1), TownAction::BuyRights, false);
    assert_eq!(r, Ok(TownActionEffect::BoostStationRatings { radius: 17, boost: 130 }));
    assert_eq!(town_exclusivity_owner(&towns[0]), Some(CompanyId(1)));
    assert_eq!(
        execute_town_action(&mut towns[0], 8, 8, CompanyId(2), TownAction::BuyRights, false),
        Err(TownActionError::NotAvailable)
    );
    for _ in 0..12 {
        tick_town_authority_months(&mut towns);
    }
    assert_eq!(town_exclusivity_owner(&towns[0]), None);
    assert_eq!(towns[0].exclusivity, None);
}

#[test]
fn bribe_outcomes() {
    let mut town = Town::default();
    execute_town_action(&mut town, 8, 8, CompanyId(0), TownAction::Bribe, false).unwrap();
    assert_eq!(town.authority_rating(CompanyId(0)), 700);
    execute_town_action(&mut town, 8, 8, CompanyId(0), TownAction::Bribe, false).unwrap();
    assert_eq!(town.authority_rating(CompanyId(0)), 800);
    let r = execute_town_action(&mut town, 8, 8, CompanyId(0), TownAction::Bribe, true);
    assert_eq!(r, Ok(TownActionEffect::ZeroStationRatings { radius: 40 }));
    assert_eq!(town.authority_rating(CompanyId(0)), -50);
    assert_eq!(town.unwanted_months(CompanyId(0)), 6);
}

#[test]
fn fund_buildings_and_roads() {
    let mut town = Town::default();
    execute_town_action(&mut town, 8, 8, CompanyId(0), TownAction::FundBuildings, false).unwrap();
    assert_eq!(town.fund_buildings_months, 3);
    assert_eq!(town.authority_rating(CompanyId(0)), 550);
    execute_town_action(&mut town, 8, 8, CompanyId(0), TownAction::RoadRebuild, false).unwrap();
    assert_eq!(town.road_build_months, 6);
    let settings = TownAuthoritySettings::default();
    assert_eq!(mask_of_town_actions(&town, CompanyId(0), 1_000_000, settings) & (1 << 3), 0);
}

#[test]
fn action_effects_reach_the_company_stations_near_the_town() {
    let town_pos = TileCoord::new(10, 10);
    let mine_near = StationCargoRatings { owner: CompanyId(0), pos: TileCoord::new(12, 11), ratings: vec![(true, 250), (false, 7), (true, 100)] };
    let mine_far = StationCargoRatings { owner: CompanyId(0), pos: TileCoord::new(60, 10), ratings: vec![(true, 100)] };
    let rival = StationCargoRatings { owner: CompanyId(1), pos: TileCoord::new(10, 11), ratings: vec![(true, 100)] };
    let mut stations = vec![mine_near, mine_far, rival];
    apply_town_action_effect(&mut stations, town_pos, CompanyId(0), TownActionEffect::BoostStationRatings { radius: 10, boost: 10 });
    assert_eq!(stations[0].ratings, vec![(true, 255), (false, 7), (true, 110)]);
    assert_eq!(stations[1].ratings, vec![(true, 100)]);
    assert_eq!(stations[2].ratings, vec![(true, 100)]);
    apply_town_action_effect(&mut stations, town_pos, CompanyId(0), TownActionEffect::ZeroStationRatings { radius: 40 });
    assert_eq!(stations[0].ratings, vec![(true, 0), (false, 0), (true, 0)]);
    assert_eq!(stations[1].ratings, vec![(true, 100)]);
    assert_eq!(stations[2].ratings, vec![(true, 100)]);
}
