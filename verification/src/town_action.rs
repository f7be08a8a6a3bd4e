//! Local-authority actions a company can buy in a town (`CmdDoTownAction`):
//! what is on offer, what each costs, and what each does to the town.

use vstd::prelude::*;
use crate::common::{manhattan, CompanyId, TileCoord};
use crate::town::{
    rating_in, ensured_ratings, ensured_unwanted, statue_bit, sat_add_u32,
    FUND_BUILDINGS_MONTHS, FUND_BUILDINGS_RATING_BOOST, MAX_TOWN_AUTHORITY_COMPANIES, Town,
    apply_fund_buildings_boost,
};

verus! {

/// Local-authority actions (`TownAction`).
#[derive(Debug, Clone, Copy, PartialEq, Eq, Structural)]
pub enum TownAction {
    AdvertiseSmall,
    AdvertiseMedium,
    AdvertiseLarge,
    RoadRebuild,
    BuildStatue,
    FundBuildings,
    BuyRights,
    Bribe,
}

/// Position of an action in the action list and in the action mask.
pub open spec fn action_index(a: TownAction) -> int {
    match a {
        TownAction::AdvertiseSmall => 0,
        TownAction::AdvertiseMedium => 1,
        TownAction::AdvertiseLarge => 2,
        TownAction::RoadRebuild => 3,
        TownAction::BuildStatue => 4,
        TownAction::FundBuildings => 5,
        TownAction::BuyRights => 6,
        TownAction::Bribe => 7,
    }
}

/// Cost factor of an action (`GetTownActionCost`).
pub open spec fn spec_cost_factor(a: TownAction) -> u8 {
    match a {
        TownAction::AdvertiseSmall => 2,
        TownAction::AdvertiseMedium => 4,
        TownAction::AdvertiseLarge => 9,
        TownAction::RoadRebuild => 35,
        TownAction::BuildStatue => 48,
        TownAction::FundBuildings => 53,
        TownAction::BuyRights => 117,
        TownAction::Bribe => 175,
    }
}

/// Cost unit: an action costs its factor times this.
pub const TOWN_ACTION_COST_UNIT: i64 = 250;

impl TownAction {
    pub fn cost_factor(self) -> (r: u8)
        ensures
            r == spec_cost_factor(self),
    {
        match self {
            TownAction::AdvertiseSmall => 2,
            TownAction::AdvertiseMedium => 4,
            TownAction::AdvertiseLarge => 9,
            TownAction::RoadRebuild => 35,
            TownAction::BuildStatue => 48,
            TownAction::FundBuildings => 53,
            TownAction::BuyRights => 117,
            TownAction::Bribe => 175,
        }
    }

    /// Price of the action: cost factor times the cost unit.
    pub fn cost(self) -> (r: i64)
        ensures
            r == spec_cost_factor(self) * TOWN_ACTION_COST_UNIT,
    {
        (self.cost_factor() as i64) * TOWN_ACTION_COST_UNIT
    }

    /// Every action, in mask order.
    pub fn all() -> (r: [TownAction; 8])
        ensures
            forall|i: int| 0 <= i < 8 ==> action_index(#[trigger] r@[i]) == i,
    {
        [
            TownAction::AdvertiseSmall,
            TownAction::AdvertiseMedium,
            TownAction::AdvertiseLarge,
            TownAction::RoadRebuild,
            TownAction::BuildStatue,
            TownAction::FundBuildings,
            TownAction::BuyRights,
            TownAction::Bribe,
        ]
    }
}

/// Rating boost and radius of the advertising campaigns and of buying rights.
pub const ADVERTISE_SMALL_BOOST: u8 = 0x40;
pub const ADVERTISE_SMALL_RADIUS: i32 = 10;
pub const ADVERTISE_MEDIUM_BOOST: u8 = 0x70;
pub const ADVERTISE_MEDIUM_RADIUS: i32 = 15;
pub const ADVERTISE_LARGE_BOOST: u8 = 0xA0;
pub const ADVERTISE_LARGE_RADIUS: i32 = 20;
pub const BUY_RIGHTS_RATING_BOOST: u8 = 130;
pub const BUY_RIGHTS_RADIUS: i32 = 17;
/// Months of road reconstruction, exclusive rights and of being unwanted.
pub const ROAD_REBUILD_MONTHS: u8 = 6;
pub const EXCLUSIVE_RIGHTS_MONTHS: u8 = 12;
pub const BRIBE_UNWANTED_MONTHS: u8 = 6;
/// Rating bonus for building a statue.
pub const BUILD_STATUE_AUTHORITY_RATING_BOOST: i8 = 26;
/// Rating after a failed bribe (`RATING_BRIBE_DOWN_TO`).
pub const RATING_BRIBE_DOWN_TO: i16 = -50;
/// Step and ceiling of a successful bribe.
pub const RATING_BRIBE_UP_STEP: i16 = 200;
pub const RATING_BRIBE_MAXIMUM: i16 = 800;
/// Radius around the town whose stations lose their ratings after a failed bribe.
pub const BRIBE_STATION_RADIUS: i32 = 40;

/// Economy settings that enable actions (all on by default).
#[derive(Debug, Clone, Copy, PartialEq, Eq, Structural)]
pub struct TownAuthoritySettings {
    pub fund_buildings: bool,
    pub fund_roads: bool,
    pub exclusive_rights: bool,
    pub bribe: bool,
}

impl Default for TownAuthoritySettings {
    fn default() -> (r: TownAuthoritySettings)
        ensures
            r == (TownAuthoritySettings { fund_buildings: true, fund_roads: true, exclusive_rights: true, bribe: true }),
    {
        TownAuthoritySettings { fund_buildings: true, fund_roads: true, exclusive_rights: true, bribe: true }
    }
}

/// Another company holds running exclusive rights in the town.
pub open spec fn other_company_has_rights(town: Town, company: CompanyId) -> bool {
    town.exclusive_counter > 0 && match town.exclusivity {
        Some(c) => c != company,
        None => false,
    }
}

/// Whether the town offers `action` to `company` (money aside).
pub open spec fn spec_action_allowed(town: Town, company: CompanyId, action: TownAction, settings: TownAuthoritySettings) -> bool {
    match action {
        TownAction::AdvertiseSmall | TownAction::AdvertiseMedium | TownAction::AdvertiseLarge => true,
        TownAction::RoadRebuild => settings.fund_roads && town.road_build_months == 0,
        TownAction::BuildStatue => !statue_bit(town.statues, company.0),
        TownAction::FundBuildings => settings.fund_buildings,
        TownAction::BuyRights => settings.exclusive_rights && town.exclusive_counter == 0 && town.exclusivity is None,
        TownAction::Bribe => settings.bribe && (rating_in(town.authority_ratings@, company.0 as int)
            < RATING_BRIBE_MAXIMUM || other_company_has_rights(town, company)),
    }
}

fn action_allowed(town: &Town, company: CompanyId, action: TownAction, settings: TownAuthoritySettings) -> (r: bool)
    ensures
        r == spec_action_allowed(*town, company, action, settings),
{
    match action {
        TownAction::AdvertiseSmall | TownAction::AdvertiseMedium | TownAction::AdvertiseLarge => true,
        TownAction::RoadRebuild => settings.fund_roads && town.road_build_months == 0,
        TownAction::BuildStatue => !town.has_statue(company),
        TownAction::FundBuildings => settings.fund_buildings,
        TownAction::BuyRights => settings.exclusive_rights && town.exclusive_counter == 0 && town.exclusivity.is_none(),
        TownAction::Bribe => {
            if !settings.bribe {
                return false;
            }
            let rating = town.authority_rating(company);
            if rating >= RATING_BRIBE_MAXIMUM {
                return town.exclusive_counter > 0 && match town.exclusivity {
                    Some(c) => c != company,
                    None => false,
                };
            }
            true
        },
    }
}

/// The action at mask position `i`.
pub open spec fn action_at(i: int) -> TownAction {
    if i == 0 {
        TownAction::AdvertiseSmall
    } else if i == 1 {
        TownAction::AdvertiseMedium
    } else if i == 2 {
        TownAction::AdvertiseLarge
    } else if i == 3 {
        TownAction::RoadRebuild
    } else if i == 4 {
        TownAction::BuildStatue
    } else if i == 5 {
        TownAction::FundBuildings
    } else if i == 6 {
        TownAction::BuyRights
    } else {
        TownAction::Bribe
    }
}

pub open spec fn pow2_8(i: int) -> int {
    if i == 0 { 1 } else if i == 1 { 2 } else if i == 2 { 4 } else if i == 3 { 8 }
    else if i == 4 { 16 } else if i == 5 { 32 } else if i == 6 { 64 } else { 128 }
}

/// Whether the action at position `i` is offered and affordable.
pub open spec fn action_on_offer(town: Town, company: CompanyId, money: i64, settings: TownAuthoritySettings, i: int) -> bool {
    spec_action_allowed(town, company, action_at(i), settings) && money >= spec_cost_factor(action_at(i)) * TOWN_ACTION_COST_UNIT
}

/// The mask bits of the first `k` actions.
pub open spec fn mask_upto(town: Town, company: CompanyId, money: i64, settings: TownAuthoritySettings, k: int) -> int
    decreases k,
{
    if k <= 0 {
        0
    } else {
        mask_upto(town, company, money, settings, k - 1) + if action_on_offer(town, company, money, settings, k - 1) {
            pow2_8(k - 1)
        } else {
            0
        }
    }
}

/// The action mask (`GetMaskOfTownActions`): nothing for a company past the
/// rating slots or one that is unwanted (when bribes are enabled); otherwise
/// bit `i` for each action offered and affordable.
pub open spec fn spec_mask(town: Town, company: CompanyId, money: i64, settings: TownAuthoritySettings) -> int {
    if company.0 >= MAX_TOWN_AUTHORITY_COMPANIES {
        0
    } else if settings.bribe && (company.0 as int) < town.unwanted@.len() && town.unwanted@[company.0 as int] > 0 {
        0
    } else {
        mask_upto(town, company, money, settings, 8)
    }
}

proof fn lemma_shl_u8(k: u8)
    requires
        k < 8,
    ensures
        (1u8 << k) as int == pow2_8(k as int),
{
    assert((k == 0 ==> (1u8 << k) == 1u8) && (k == 1 ==> (1u8 << k) == 2u8) && (k == 2 ==> (1u8 << k) == 4u8)
        && (k == 3 ==> (1u8 << k) == 8u8) && (k == 4 ==> (1u8 << k) == 16u8) && (k == 5 ==> (1u8 << k) == 32u8)
        && (k == 6 ==> (1u8 << k) == 64u8) && (k == 7 ==> (1u8 << k) == 128u8)) by (bit_vector);
}

/// Law: bit `i` of the action mask is set exactly when the company may use
/// the town's actions at all (a rating slot, and not unwanted while bribes
/// are on) and action `i` is offered and affordable.
pub proof fn lemma_mask_bit_is_action_on_offer(
    town: Town,
    company: CompanyId,
    money: i64,
    settings: TownAuthoritySettings,
    i: u8,
)
    requires
        i < 8,
    ensures
        (((spec_mask(town, company, money, settings) as u8) >> i) & 1u8 == 1u8) <==> ({
            &&& company.0 < MAX_TOWN_AUTHORITY_COMPANIES
            &&& !(settings.bribe && (company.0 as int) < town.unwanted@.len() && town.unwanted@[company.0 as int] > 0)
            &&& action_on_offer(town, company, money, settings, i as int)
        }),
{
    let b0 = action_on_offer(town, company, money, settings, 0);
    let b1 = action_on_offer(town, company, money, settings, 1);
    let b2 = action_on_offer(town, company, money, settings, 2);
    let b3 = action_on_offer(town, company, money, settings, 3);
    let b4 = action_on_offer(town, company, money, settings, 4);
    let b5 = action_on_offer(town, company, money, settings, 5);
    let b6 = action_on_offer(town, company, money, settings, 6);
    let b7 = action_on_offer(town, company, money, settings, 7);
    let m: u8 = ((if b0 { 1u8 } else { 0u8 }) + (if b1 { 2u8 } else { 0u8 }) + (if b2 { 4u8 } else { 0u8 })
        + (if b3 { 8u8 } else { 0u8 }) + (if b4 { 16u8 } else { 0u8 }) + (if b5 { 32u8 } else { 0u8 })
        + (if b6 { 64u8 } else { 0u8 }) + (if b7 { 128u8 } else { 0u8 })) as u8;
    assert(mask_upto(town, company, money, settings, 8) == m as int) by {
        reveal_with_fuel(mask_upto, 9);
    }
    assert((((m >> i) & 1u8) == 1u8) <==> ((i == 0 && b0) || (i == 1 && b1) || (i == 2 && b2) || (i == 3 && b3)
        || (i == 4 && b4) || (i == 5 && b5) || (i == 6 && b6) || (i == 7 && b7))) by (bit_vector)
        requires
            i < 8,
            m == ((if b0 { 1u8 } else { 0u8 }) + (if b1 { 2u8 } else { 0u8 }) + (if b2 { 4u8 } else { 0u8 })
                + (if b3 { 8u8 } else { 0u8 }) + (if b4 { 16u8 } else { 0u8 }) + (if b5 { 32u8 } else { 0u8 })
                + (if b6 { 64u8 } else { 0u8 }) + (if b7 { 128u8 } else { 0u8 })) as u8,
    ;
    assert(((0u8 >> i) & 1u8) == 0u8) by (bit_vector);
}

proof fn lemma_mask_upto_bound(town: Town, company: CompanyId, money: i64, settings: TownAuthoritySettings, k: int)
    requires
        0 <= k <= 8,
    ensures
        0 <= mask_upto(town, company, money, settings, k) < pow2_8(k) * 2 || k == 8,
        k == 8 ==> 0 <= mask_upto(town, company, money, settings, k) <= 255,
        k < 8 ==> mask_upto(town, company, money, settings, k) < pow2_8(k),
    decreases k,
{
    if k > 0 {
        lemma_mask_upto_bound(town, company, money, settings, k - 1);
    }
}

pub fn mask_of_town_actions(town: &Town, company: CompanyId, money: i64, settings: TownAuthoritySettings) -> (r: u8)
    ensures
        r == spec_mask(*town, company, money, settings),
{
    let idx = company.index();
    if idx >= MAX_TOWN_AUTHORITY_COMPANIES {
        return 0;
    }
    if settings.bribe && town.unwanted_months(company) > 0 {
        return 0;
    }
    let actions = TownAction::all();
    let mut mask: u8 = 0;
    let mut k: usize = 0;
    while k < 8
        invariant
            k <= 8,
            forall|i: int| 0 <= i < 8 ==> action_index(#[trigger] actions@[i]) == i,
            mask == mask_upto(*town, company, money, settings, k as int),
        decreases 8 - k,
    {
        proof {
            lemma_mask_upto_bound(*town, company, money, settings, k as int);
        }
        let action = actions[k];
        assert(action == action_at(k as int));
        if action_allowed(town, company, action, settings) && money >= action.cost() {
            let kk = k as u8;
            let m = mask;
            proof {
                lemma_shl_u8(kk);
            }
            assert(m | (1u8 << kk) == m + (1u8 << kk)) by (bit_vector)
                requires
                    kk < 8,
                    m < (1u8 << kk),
            {
            }
            proof {
                lemma_shl_u8(kk);
            }
            mask = mask | (1u8 << kk);
        }
        k = k + 1;
    }
    mask
}

// ---------------------------------------------------------------------------
// Carrying out an action
// ---------------------------------------------------------------------------

/// Why an action could not be carried out.
#[derive(Debug, Clone, Copy, PartialEq, Eq, Structural)]
pub enum TownActionError {
    NotAvailable,
    AlreadyHasStatue,
    NoStatuePlace,
}

/// What an action does outside the town itself, for the caller to apply to
/// the stations and the map.
#[derive(Debug, Clone, Copy, PartialEq, Eq, Structural)]
pub enum TownActionEffect {
    /// Nothing outside the town.
    Nothing,
    /// A statue stands on this tile.
    StatueBuilt(TileCoord),
    /// The cargo ratings of the company's stations within `radius` tiles
    /// (Manhattan) of the town go up by `boost` (`ModifyStationRatingAround`).
    BoostStationRatings { radius: i32, boost: u8 },
    /// The cargo ratings of the company's stations within `radius` tiles of
    /// the town drop to zero (a failed bribe).
    ZeroStationRatings { radius: i32 },
}

/// Chebyshev ring of an offset (`max(|dx|, |dy|)`).
pub open spec fn ring(dx: int, dy: int) -> int {
    let ax = if dx < 0 { -dx } else { dx };
    let ay = if dy < 0 { -dy } else { dy };
    if ax < ay { ay } else { ax }
}

/// The tile at offset `(dx, dy)` from `center` lies on the map.
pub open spec fn on_map(center: TileCoord, w: i32, h: i32, dx: int, dy: int) -> bool {
    0 <= center.x + dx < w && 0 <= center.y + dy < h
}

/// Search order of statue tiles: by ring, then row, then column.
pub open spec fn searched_before(dx1: int, dy1: int, dx2: int, dy2: int) -> bool {
    ring(dx1, dy1) < ring(dx2, dy2) || (ring(dx1, dy1) == ring(dx2, dy2) && (dy1 < dy2 || (dy1 == dy2 && dx1 < dx2)))
}

/// The statue tile: the first tile on the map within four rings of the
/// centre, rings searched outwards, each ring row by row.
pub open spec fn is_first_statue_tile(center: TileCoord, w: i32, h: i32, t: TileCoord) -> bool {
    let dx = t.x - center.x;
    let dy = t.y - center.y;
    &&& ring(dx, dy) <= 4
    &&& on_map(center, w, h, dx, dy)
    &&& forall|ex: int, ey: int| ring(ex, ey) <= 4 && #[trigger] on_map(center, w, h, ex, ey) ==> !searched_before(ex, ey, dx, dy)
}

fn find_statue_tile(center: TileCoord, map_w: i32, map_h: i32) -> (r: Option<TileCoord>)
    ensures
        match r {
            Some(t) => is_first_statue_tile(center, map_w, map_h, t),
            None => forall|ex: int, ey: int| ring(ex, ey) <= 4 ==> !#[trigger] on_map(center, map_w, map_h, ex, ey),
        },
{
    let mut radius: i64 = 0;
    while radius <= 4
        invariant
            0 <= radius <= 5,
            forall|ex: int, ey: int| ring(ex, ey) < radius ==> !#[trigger] on_map(center, map_w, map_h, ex, ey),
        decreases 5 - radius,
    {
        let mut dy: i64 = -radius;
        while dy <= radius
            invariant
                0 <= radius <= 4,
                -radius <= dy <= radius + 1,
                forall|ex: int, ey: int| ring(ex, ey) < radius ==> !#[trigger] on_map(center, map_w, map_h, ex, ey),
                forall|ex: int, ey: int| ring(ex, ey) == radius && ey < dy ==> !#[trigger] on_map(center, map_w, map_h, ex, ey),
            decreases radius + 1 - dy,
        {
            let mut dx: i64 = -radius;
            while dx <= radius
                invariant
                    0 <= radius <= 4,
                    -radius <= dy <= radius,
                    -radius <= dx <= radius + 1,
                    forall|ex: int, ey: int| ring(ex, ey) < radius ==> !#[trigger] on_map(center, map_w, map_h, ex, ey),
                    forall|ex: int, ey: int| ring(ex, ey) == radius && ey < dy ==> !#[trigger] on_map(center, map_w, map_h, ex, ey),
                    forall|ex: int, ey: int| ring(ex, ey) == radius && ey == dy && ex < dx ==> !#[trigger] on_map(center, map_w, map_h, ex, ey),
                decreases radius + 1 - dx,
            {
                let adx = if dx < 0 { -dx } else { dx };
                let ady = if dy < 0 { -dy } else { dy };
                if adx == radius || ady == radius || radius == 0 {
                    let x: i64 = center.x as i64 + dx;
                    let y: i64 = center.y as i64 + dy;
                    if x >= 0 && y >= 0 && x < map_w as i64 && y < map_h as i64 {
                        let t = TileCoord { x: x as i32, y: y as i32 };
                        assert(ring(dx as int, dy as int) == radius);
                        return Some(t);
                    }
                }
                dx = dx + 1;
            }
            dy = dy + 1;
        }
        radius = radius + 1;
    }
    None
}

/// `after` is `before` with the ratings given room for every standard slot.
pub open spec fn only_ratings_ensured(before: Town, after: Town) -> bool {
    &&& after.authority_ratings@ == ensured_ratings(before, 15)
    &&& after == (Town { authority_ratings: after.authority_ratings, legacy_local_authority_rating: None, ..before })
}

/// Rating of `company` once it has a slot.
pub open spec fn slot_rating(t: Town, company: CompanyId) -> i16 {
    ensured_ratings(t, company.0 + 1)[company.0 as int]
}

/// Ratings with `company`'s slot made and set to `v`.
pub open spec fn ratings_with(t: Town, company: CompanyId, v: int) -> Seq<i16> {
    ensured_ratings(t, company.0 + 1).update(company.0 as int, v as i16)
}

pub open spec fn clamp_rating_int(v: int) -> int {
    if v < -1000 { -1000 } else if v > 1000 { 1000 } else { v }
}

/// The outcome of `execute_town_action` on `before`, giving `after` and `r`.
pub open spec fn action_outcome(
    before: Town,
    after: Town,
    map_w: i32,
    map_h: i32,
    company: CompanyId,
    action: TownAction,
    bribe_fails: bool,
    r: Result<TownActionEffect, TownActionError>,
) -> bool {
    let rest = Town { authority_ratings: after.authority_ratings, legacy_local_authority_rating: None, ..before };
    match action {
        TownAction::AdvertiseSmall => only_ratings_ensured(before, after)
            && r == Ok::<TownActionEffect, TownActionError>(TownActionEffect::BoostStationRatings { radius: ADVERTISE_SMALL_RADIUS, boost: ADVERTISE_SMALL_BOOST }),
        TownAction::AdvertiseMedium => only_ratings_ensured(before, after)
            && r == Ok::<TownActionEffect, TownActionError>(TownActionEffect::BoostStationRatings { radius: ADVERTISE_MEDIUM_RADIUS, boost: ADVERTISE_MEDIUM_BOOST }),
        TownAction::AdvertiseLarge => only_ratings_ensured(before, after)
            && r == Ok::<TownActionEffect, TownActionError>(TownActionEffect::BoostStationRatings { radius: ADVERTISE_LARGE_RADIUS, boost: ADVERTISE_LARGE_BOOST }),
        TownAction::RoadRebuild => after.authority_ratings@ == ensured_ratings(before, 15)
            && after == (Town { road_build_months: ROAD_REBUILD_MONTHS, ..rest })
            && r == Ok::<TownActionEffect, TownActionError>(TownActionEffect::Nothing),
        TownAction::BuildStatue => {
            if statue_bit(before.statues, company.0) {
                only_ratings_ensured(before, after) && r == Err::<TownActionEffect, TownActionError>(TownActionError::AlreadyHasStatue)
            } else {
                match r {
                    Ok(TownActionEffect::StatueBuilt(t)) => {
                        &&& is_first_statue_tile(before.pos, map_w, map_h, t)
                        &&& after.authority_ratings@ == ratings_with(before, company, clamp_rating_int(slot_rating(before, company) + BUILD_STATUE_AUTHORITY_RATING_BOOST))
                        &&& after == (Town { statues: if company.0 >= 16 { before.statues } else { before.statues | (1u16 << (company.0 as u16)) }, ..rest })
                    },
                    Err(TownActionError::NoStatuePlace) => {
                        &&& forall|ex: int, ey: int| ring(ex, ey) <= 4 ==> !#[trigger] on_map(before.pos, map_w, map_h, ex, ey)
                        &&& only_ratings_ensured(before, after)
                    },
                    _ => false,
                }
            }
        },
        TownAction::FundBuildings => {
            &&& after.authority_ratings@ == ratings_with(before, company, clamp_rating_int(slot_rating(before, company) + FUND_BUILDINGS_RATING_BOOST))
            &&& after == (Town {
                growth_funded: sat_add_u32(before.growth_funded, 1),
                fund_buildings_months: FUND_BUILDINGS_MONTHS,
                ..rest
            })
            &&& r == Ok::<TownActionEffect, TownActionError>(TownActionEffect::Nothing)
        },
        TownAction::BuyRights => {
            if before.exclusive_counter != 0 || before.exclusivity is Some {
                only_ratings_ensured(before, after) && r == Err::<TownActionEffect, TownActionError>(TownActionError::NotAvailable)
            } else {
                &&& after.authority_ratings@ == ensured_ratings(before, 15)
                &&& after == (Town { exclusive_counter: EXCLUSIVE_RIGHTS_MONTHS, exclusivity: Some(company), ..rest })
                &&& r == Ok::<TownActionEffect, TownActionError>(TownActionEffect::BoostStationRatings { radius: BUY_RIGHTS_RADIUS, boost: BUY_RIGHTS_RATING_BOOST })
            }
        },
        TownAction::Bribe => {
            let cur = slot_rating(before, company);
            if bribe_fails {
                &&& after.authority_ratings@ == if cur > RATING_BRIBE_DOWN_TO {
                    ratings_with(before, company, RATING_BRIBE_DOWN_TO as int)
                } else {
                    ensured_ratings(before, 15)
                }
                &&& after.unwanted@ == if (company.0 as int) < ensured_unwanted(before.unwanted@).len() {
                    ensured_unwanted(before.unwanted@).update(company.0 as int, BRIBE_UNWANTED_MONTHS)
                } else {
                    ensured_unwanted(before.unwanted@)
                }
                &&& after == (Town { unwanted: after.unwanted, ..rest })
                &&& r == Ok::<TownActionEffect, TownActionError>(TownActionEffect::ZeroStationRatings { radius: BRIBE_STATION_RADIUS })
            } else {
                let up = if cur + RATING_BRIBE_UP_STEP > i16::MAX { i16::MAX as int } else { cur + RATING_BRIBE_UP_STEP };
                let next = if up < RATING_BRIBE_MAXIMUM { up } else { RATING_BRIBE_MAXIMUM as int };
                let drop_rights = before.exclusivity matches Some(c) && c != company;
                &&& after.authority_ratings@ == ratings_with(before, company, next)
                &&& after == (Town {
                    exclusivity: if drop_rights { None } else { before.exclusivity },
                    exclusive_counter: if drop_rights { 0 } else { before.exclusive_counter },
                    ..rest
                })
                &&& r == Ok::<TownActionEffect, TownActionError>(TownActionEffect::Nothing)
            }
        },
    }
}

proof fn lemma_ensure_twice(t: Town, t1: Town, count: int)
    requires
        only_ratings_ensured(t, t1),
        count >= 1,
    ensures
        ensured_ratings(t1, count) == ensured_ratings(t, count),
{
    assert(ensured_ratings(t1, count) =~= ensured_ratings(t, count));
}

/// Carries out a paid-for action in the town and reports what it does to
/// stations or the map (`CmdDoTownAction`).
pub fn execute_town_action(
    town: &mut Town,
    map_w: i32,
    map_h: i32,
    company: CompanyId,
    action: TownAction,
    bribe_fails: bool,
) -> (r: Result<TownActionEffect, TownActionError>)
    ensures
        action_outcome(*old(town), *final(town), map_w, map_h, company, action, bribe_fails, r),
{
    let ghost t0 = *town;
    town.ensure_authority_ratings(MAX_TOWN_AUTHORITY_COMPANIES);
    let ghost t1 = *town;
    proof {
        lemma_ensure_twice(t0, t1, company.0 + 1);
    }
    match action {
        TownAction::AdvertiseSmall => Ok(TownActionEffect::BoostStationRatings { radius: ADVERTISE_SMALL_RADIUS, boost: ADVERTISE_SMALL_BOOST }),
        TownAction::AdvertiseMedium => Ok(TownActionEffect::BoostStationRatings { radius: ADVERTISE_MEDIUM_RADIUS, boost: ADVERTISE_MEDIUM_BOOST }),
        TownAction::AdvertiseLarge => Ok(TownActionEffect::BoostStationRatings { radius: ADVERTISE_LARGE_RADIUS, boost: ADVERTISE_LARGE_BOOST }),
        TownAction::RoadRebuild => {
            town.road_build_months = ROAD_REBUILD_MONTHS;
            Ok(TownActionEffect::Nothing)
        },
        TownAction::BuildStatue => {
            if town.has_statue(company) {
                return Err(TownActionError::AlreadyHasStatue);
            }
            let tile = match find_statue_tile(town.pos, map_w, map_h) {
                Some(t) => t,
                None => return Err(TownActionError::NoStatuePlace),
            };
            town.set_statue(company, true);
            let _ = town.adjust_rating(company, BUILD_STATUE_AUTHORITY_RATING_BOOST);
            Ok(TownActionEffect::StatueBuilt(tile))
        },
        TownAction::FundBuildings => {
            let _ = town.adjust_rating(company, FUND_BUILDINGS_RATING_BOOST);
            apply_fund_buildings_boost(town);
            Ok(TownActionEffect::Nothing)
        },
        TownAction::BuyRights => {
            if town.exclusive_counter != 0 || town.exclusivity.is_some() {
                return Err(TownActionError::NotAvailable);
            }
            town.exclusive_counter = EXCLUSIVE_RIGHTS_MONTHS;
            town.exclusivity = Some(company);
            Ok(TownActionEffect::BoostStationRatings { radius: BUY_RIGHTS_RADIUS, boost: BUY_RIGHTS_RATING_BOOST })
        },
        TownAction::Bribe => {
            if bribe_fails {
                town.set_unwanted(company, BRIBE_UNWANTED_MONTHS);
                let cur = town.authority_rating(company);
                if cur > RATING_BRIBE_DOWN_TO {
                    town.set_authority_rating(company, RATING_BRIBE_DOWN_TO);
                }
                Ok(TownActionEffect::ZeroStationRatings { radius: BRIBE_STATION_RADIUS })
            } else {
                let cur = town.authority_rating(company);
                let up: i16 = if cur as i32 + RATING_BRIBE_UP_STEP as i32 > i16::MAX as i32 {
                    i16::MAX
                } else {
                    cur + RATING_BRIBE_UP_STEP
                };
                let next = if up < RATING_BRIBE_MAXIMUM { up } else { RATING_BRIBE_MAXIMUM };
                town.set_authority_rating(company, next);
                let drop_rights = match town.exclusivity {
                    Some(c) => c != company,
                    None => false,
                };
                if drop_rights {
                    town.exclusivity = None;
                    town.exclusive_counter = 0;
                }
                Ok(TownActionEffect::Nothing)
            }
        },
    }
}

/// One month of the authority counters: road works and exclusive rights run
/// down (the rights lapse at zero), and so do the unwanted months.
pub open spec fn month_ticked(before: Town, after: Town) -> bool {
    let counter = if before.exclusive_counter > 0 { before.exclusive_counter - 1 } else { 0 };
    &&& after.unwanted@ == before.unwanted@.map_values(|m: u8| if m > 0 { (m - 1) as u8 } else { 0u8 })
    &&& after == (Town {
        road_build_months: if before.road_build_months > 0 { (before.road_build_months - 1) as u8 } else { 0 },
        exclusive_counter: counter as u8,
        exclusivity: if before.exclusive_counter > 0 && counter == 0 { None } else { before.exclusivity },
        unwanted: after.unwanted,
        ..before
    })
}

fn tick_town_authority_month(town: &mut Town)
    ensures
        month_ticked(*old(town), *final(town)),
{
    if town.road_build_months > 0 {
        town.road_build_months = town.road_build_months - 1;
    }
    if town.exclusive_counter > 0 {
        town.exclusive_counter = town.exclusive_counter - 1;
        if town.exclusive_counter == 0 {
            town.exclusivity = None;
        }
    }
    let ghost u0 = town.unwanted@;
    let ghost mid = *town;
    let mut i: usize = 0;
    while i < town.unwanted.len()
        invariant
            *town == (Town { unwanted: town.unwanted, ..mid }),
            i <= town.unwanted@.len(),
            town.unwanted@.len() == u0.len(),
            forall|j: int| 0 <= j < i ==> town.unwanted@[j] == (if u0[j] > 0 { (u0[j] - 1) as u8 } else { 0u8 }),
            forall|j: int| i <= j < u0.len() ==> town.unwanted@[j] == u0[j],
        decreases u0.len() - i,
    {
        let m = town.unwanted[i];
        if m > 0 {
            town.unwanted.set(i, m - 1);
        }
        i = i + 1;
    }
    assert(town.unwanted@ =~= u0.map_values(|m: u8| if m > 0 { (m - 1) as u8 } else { 0u8 }));
}

/// Runs one month of the authority counters for every town.
pub fn tick_town_authority_months(towns: &mut Vec<Town>)
    ensures
        final(towns)@.len() == old(towns)@.len(),
        forall|i: int| 0 <= i < old(towns)@.len() ==> month_ticked(#[trigger] old(towns)@[i], final(towns)@[i]),
{
    let ghost t0 = towns@;
    let mut i: usize = 0;
    while i < towns.len()
        invariant
            i <= towns@.len(),
            towns@.len() == t0.len(),
            forall|j: int| 0 <= j < i ==> month_ticked(#[trigger] t0[j], towns@[j]),
            forall|j: int| i <= j < t0.len() ==> towns@[j] == t0[j],
        decreases t0.len() - i,
    {
        tick_town_authority_month(&mut towns[i]);
        i = i + 1;
    }
}

/// The company with running exclusive rights, if any.
pub fn town_exclusivity_owner(town: &Town) -> (r: Option<CompanyId>)
    ensures
        r == if town.exclusive_counter > 0 { town.exclusivity } else { None },
{
    if town.exclusive_counter > 0 {
        town.exclusivity
    } else {
        None
    }
}

/// Exclusive rights can only be held by one company at a time: once a
/// purchase succeeded, buying them again (by anyone) is refused and the
/// action is no longer offered.
pub proof fn lemma_rights_cannot_be_bought_twice(
    t0: Town,
    t1: Town,
    t2: Town,
    map_w: i32,
    map_h: i32,
    first: CompanyId,
    second: CompanyId,
    bribe_fails: bool,
    settings: TownAuthoritySettings,
    r1: Result<TownActionEffect, TownActionError>,
    r2: Result<TownActionEffect, TownActionError>,
)
    requires
        action_outcome(t0, t1, map_w, map_h, first, TownAction::BuyRights, bribe_fails, r1),
        r1 is Ok,
        action_outcome(t1, t2, map_w, map_h, second, TownAction::BuyRights, bribe_fails, r2),
    ensures
        r2 == Err::<TownActionEffect, TownActionError>(TownActionError::NotAvailable),
        t1.exclusivity == Some(first),
        !spec_action_allowed(t1, second, TownAction::BuyRights, settings),
{
}

/// A company can build only one statue in a town: after a statue was built,
/// building another is refused (companies with a statue slot).
pub proof fn lemma_statue_built_once(
    t0: Town,
    t1: Town,
    t2: Town,
    map_w: i32,
    map_h: i32,
    company: CompanyId,
    bribe_fails: bool,
    r1: Result<TownActionEffect, TownActionError>,
    r2: Result<TownActionEffect, TownActionError>,
)
    requires
        company.0 < 16,
        action_outcome(t0, t1, map_w, map_h, company, TownAction::BuildStatue, bribe_fails, r1),
        r1 is Ok,
        action_outcome(t1, t2, map_w, map_h, company, TownAction::BuildStatue, bribe_fails, r2),
    ensures
        r2 == Err::<TownActionEffect, TownActionError>(TownActionError::AlreadyHasStatue),
        statue_bit(t1.statues, company.0),
{
    crate::town::lemma_statue_read_after_write(t0.statues, company.0, (company.0 + 1) as u8, true);
}

/// A company caught bribing is offered no town action at all while it is
/// unwanted (the bribe setting being on), whatever its money.
pub proof fn lemma_failed_bribe_bars_all_actions(
    t0: Town,
    t1: Town,
    map_w: i32,
    map_h: i32,
    company: CompanyId,
    r: Result<TownActionEffect, TownActionError>,
    money: i64,
    settings: TownAuthoritySettings,
)
    requires
        (company.0 as usize) < MAX_TOWN_AUTHORITY_COMPANIES,
        action_outcome(t0, t1, map_w, map_h, company, TownAction::Bribe, true, r),
        settings.bribe,
    ensures
        spec_mask(t1, company, money, settings) == 0,
        t1.unwanted@[company.0 as int] == BRIBE_UNWANTED_MONTHS,
        rating_in(t1.authority_ratings@, company.0 as int) <= RATING_BRIBE_DOWN_TO,
{
}

/// Town states `ts` where each is the month after the previous one.
pub open spec fn monthly_history(ts: Seq<Town>) -> bool {
    forall|i: int| 0 <= i < ts.len() - 1 ==> month_ticked(#[trigger] ts[i], ts[i + 1])
}

/// Exclusive rights run for `EXCLUSIVE_RIGHTS_MONTHS` months: after a
/// purchase the buyer holds them through every month before the last, and
/// they lapse at the end of it.
pub proof fn lemma_exclusive_rights_lapse(
    t0: Town,
    map_w: i32,
    map_h: i32,
    company: CompanyId,
    bribe_fails: bool,
    r: Result<TownActionEffect, TownActionError>,
    ts: Seq<Town>,
)
    requires
        action_outcome(t0, ts[0], map_w, map_h, company, TownAction::BuyRights, bribe_fails, r),
        r is Ok,
        ts.len() == EXCLUSIVE_RIGHTS_MONTHS + 1,
        monthly_history(ts),
    ensures
        forall|k: int| 0 <= k < EXCLUSIVE_RIGHTS_MONTHS ==> (#[trigger] ts[k]).exclusivity == Some(company)
            && ts[k].exclusive_counter == EXCLUSIVE_RIGHTS_MONTHS - k,
        ts[EXCLUSIVE_RIGHTS_MONTHS as int].exclusivity is None,
        ts[EXCLUSIVE_RIGHTS_MONTHS as int].exclusive_counter == 0,
{
    lemma_rights_countdown(ts, company, EXCLUSIVE_RIGHTS_MONTHS as int);
}

proof fn lemma_rights_countdown(ts: Seq<Town>, company: CompanyId, k: int)
    requires
        ts.len() == EXCLUSIVE_RIGHTS_MONTHS + 1,
        0 <= k <= EXCLUSIVE_RIGHTS_MONTHS,
        monthly_history(ts),
        ts[0].exclusive_counter == EXCLUSIVE_RIGHTS_MONTHS,
        ts[0].exclusivity == Some(company),
    ensures
        ts[k].exclusive_counter == EXCLUSIVE_RIGHTS_MONTHS - k,
        k < EXCLUSIVE_RIGHTS_MONTHS ==> ts[k].exclusivity == Some(company),
        k == EXCLUSIVE_RIGHTS_MONTHS ==> ts[k].exclusivity is None,
        forall|j: int| 0 <= j <= k && j < EXCLUSIVE_RIGHTS_MONTHS ==> (#[trigger] ts[j]).exclusivity == Some(
            company,
        ) && ts[j].exclusive_counter == EXCLUSIVE_RIGHTS_MONTHS - j,
    decreases k,
{
    if k > 0 {
        lemma_rights_countdown(ts, company, k - 1);
        assert(month_ticked(ts[k - 1], ts[k]));
    }
}

/// The cargo ratings of a station as a town action touches them: per
/// cargo, whether the station has a rating for it yet, and the rating.
#[derive(Debug, Clone)]
pub struct StationCargoRatings {
    pub owner: CompanyId,
    pub pos: TileCoord,
    pub ratings: Vec<(bool, u8)>,
}

/// A cargo rating after an action's effect on its station.
pub open spec fn rating_after(effect: TownActionEffect, entry: (bool, u8)) -> (bool, u8) {
    match effect {
        TownActionEffect::BoostStationRatings { boost, .. } => if entry.0 {
            (true, if entry.1 + boost > 255 { 255u8 } else { (entry.1 + boost) as u8 })
        } else {
            entry
        },
        TownActionEffect::ZeroStationRatings { .. } => (entry.0, 0u8),
        _ => entry,
    }
}

/// The effect reaches station `st`: one of `company`'s stations within the
/// effect's radius (Manhattan) of the town.
pub open spec fn effect_reaches(effect: TownActionEffect, town_pos: TileCoord, company: CompanyId, st: StationCargoRatings) -> bool {
    match effect {
        TownActionEffect::BoostStationRatings { radius, .. } => st.owner == company && manhattan(st.pos, town_pos) <= radius,
        TownActionEffect::ZeroStationRatings { radius } => st.owner == company && manhattan(st.pos, town_pos) <= radius,
        _ => false,
    }
}

fn within_radius(a: TileCoord, b: TileCoord, radius: i32) -> (r: bool)
    ensures
        r == (manhattan(a, b) <= radius),
{
    let dx: i64 = if a.x >= b.x { a.x as i64 - b.x as i64 } else { b.x as i64 - a.x as i64 };
    let dy: i64 = if a.y >= b.y { a.y as i64 - b.y as i64 } else { b.y as i64 - a.y as i64 };
    dx + dy <= radius as i64
}

fn rate_station(st: &mut StationCargoRatings, effect: TownActionEffect)
    ensures
        final(st).owner == old(st).owner,
        final(st).pos == old(st).pos,
        final(st).ratings@ == old(st).ratings@.map_values(|e: (bool, u8)| rating_after(effect, e)),
{
    let mut out: Vec<(bool, u8)> = Vec::new();
    let mut k: usize = 0;
    while k < st.ratings.len()
        invariant
            k <= st.ratings@.len(),
            out@ == st.ratings@.subrange(0, k as int).map_values(|e: (bool, u8)| rating_after(effect, e)),
        decreases st.ratings@.len() - k,
    {
        let (has, rating) = st.ratings[k];
        let next: (bool, u8) = match effect {
            TownActionEffect::BoostStationRatings { boost, .. } => if has {
                (true, if rating as u16 + boost as u16 > 255 { 255u8 } else { rating + boost })
            } else {
                (has, rating)
            },
            TownActionEffect::ZeroStationRatings { .. } => (has, 0u8),
            _ => (has, rating),
        };
        out.push(next);
        k = k + 1;
        assert(out@ =~= st.ratings@.subrange(0, k as int).map_values(|e: (bool, u8)| rating_after(effect, e)));
    }
    assert(st.ratings@.subrange(0, st.ratings@.len() as int) =~= st.ratings@);
    st.ratings = out;
}

/// Applies a town action's effect on stations (`ModifyStationRatingAround`,
/// or zeroing after a failed bribe) to the stations of `company` near the
/// town at `town_pos`: a boost raises each cargo rating the station has
/// (up to 255), a failed bribe zeroes every cargo rating.
pub fn apply_town_action_effect(
    stations: &mut Vec<StationCargoRatings>,
    town_pos: TileCoord,
    company: CompanyId,
    effect: TownActionEffect,
)
    ensures
        final(stations)@.len() == old(stations)@.len(),
        forall|j: int| 0 <= j < old(stations)@.len() ==> {
            let before = old(stations)@[j];
            let after = #[trigger] final(stations)@[j];
            &&& after.owner == before.owner
            &&& after.pos == before.pos
            &&& after.ratings@ == if effect_reaches(effect, town_pos, company, before) {
                before.ratings@.map_values(|e: (bool, u8)| rating_after(effect, e))
            } else {
                before.ratings@
            }
        },
{
    let radius: i32 = match effect {
        TownActionEffect::BoostStationRatings { radius, .. } => radius,
        TownActionEffect::ZeroStationRatings { radius } => radius,
        _ => {
            return;
        },
    };
    let ghost s0 = stations@;
    let mut j: usize = 0;
    while j < stations.len()
        invariant
            j <= stations@.len(),
            stations@.len() == s0.len(),
            match effect {
                TownActionEffect::BoostStationRatings { radius: r, .. } => r == radius,
                TownActionEffect::ZeroStationRatings { radius: r } => r == radius,
                _ => false,
            },
            forall|i: int| 0 <= i < j ==> {
                let before = s0[i];
                let after = #[trigger] stations@[i];
                &&& after.owner == before.owner
                &&& after.pos == before.pos
                &&& after.ratings@ == if effect_reaches(effect, town_pos, company, before) {
                    before.ratings@.map_values(|e: (bool, u8)| rating_after(effect, e))
                } else {
                    before.ratings@
                }
            },
            forall|i: int| j <= i < s0.len() ==> #[trigger] stations@[i] == s0[i],
        decreases s0.len() - j,
    {
        if stations[j].owner == company && within_radius(stations[j].pos, town_pos, radius) {
            rate_station(&mut stations[j], effect);
        }
        j = j + 1;
    }
}

/// A successful bribe clears the way for the briber: afterwards no other
/// company holds exclusive rights in the town. Rights a rival held are
/// revoked (no holder, counter zero); the briber's own rights stay as they
/// were.
pub proof fn lemma_bribe_revokes_rival_rights(
    t0: Town,
    t1: Town,
    map_w: i32,
    map_h: i32,
    company: CompanyId,
    r: Result<TownActionEffect, TownActionError>,
)
    requires
        action_outcome(t0, t1, map_w, map_h, company, TownAction::Bribe, false, r),
    ensures
        r is Ok,
        t1.exclusivity == None::<CompanyId> || t1.exclusivity == Some(company),
        (t0.exclusivity matches Some(c) && c != company) ==> t1.exclusivity == None::<CompanyId>
            && t1.exclusive_counter == 0,
        t0.exclusivity == Some(company) ==> t1.exclusivity == Some(company) && t1.exclusive_counter
            == t0.exclusive_counter,
{
}

} // verus!
