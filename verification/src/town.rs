//! Towns: local-authority ratings per company, growth goals and counters,
//! zone radii, and the deliveries that feed growth.

use vstd::prelude::*;
use crate::common::{abs_int, CargoType, CompanyId, TileCoord, manhattan, manhattan_distance};
use crate::random::{random_step, Randomizer};

verus! {

/// House zones by distance from the centre (`HouseZone`), then climate zones.
#[derive(Debug, Clone, Copy, PartialEq, Eq, Hash, Structural)]
pub enum HouseZone {
    TownEdge,
    TownOutskirt,
    TownOuterSuburb,
    TownInnerSuburb,
    TownCentre,
    ClimateSubarcticAboveSnow,
    ClimateTemperate,
    ClimateSubarcticBelowSnow,
    ClimateSubtropic,
    ClimateToyland,
}

/// Number of radius zones (edge ... centre).
pub const NUM_HOUSE_ZONES: usize = 5;

impl HouseZone {
    /// Zone `0..=4` (edge ... centre); `None` out of range.
    pub fn from_zone_index(i: usize) -> (r: Option<HouseZone>)
        ensures
            i == 0 ==> r == Some(HouseZone::TownEdge),
            i == 1 ==> r == Some(HouseZone::TownOutskirt),
            i == 2 ==> r == Some(HouseZone::TownOuterSuburb),
            i == 3 ==> r == Some(HouseZone::TownInnerSuburb),
            i == 4 ==> r == Some(HouseZone::TownCentre),
            i >= 5 ==> r is None,
    {
        match i {
            0 => Some(HouseZone::TownEdge),
            1 => Some(HouseZone::TownOutskirt),
            2 => Some(HouseZone::TownOuterSuburb),
            3 => Some(HouseZone::TownInnerSuburb),
            4 => Some(HouseZone::TownCentre),
            _ => None,
        }
    }
}

/// Street layout of a town (`TownLayout`).
#[derive(Debug, Clone, Copy, PartialEq, Eq, Structural)]
pub enum TownLayout {
    Original,
    BetterRoads,
    Grid2x2,
    Grid3x3,
    Random,
}

impl Default for TownLayout {
    fn default() -> (r: TownLayout)
        ensures
            r == TownLayout::Original,
    {
        TownLayout::Original
    }
}

/// Landscape climate.
#[derive(Debug, Clone, Copy, PartialEq, Eq, Structural)]
pub enum Climate {
    Temperate,
    SubArctic,
    SubTropical,
    Toyland,
}

/// Cargo effects that feed the growth goals (`TownEffect`).
#[derive(Debug, Clone, Copy, PartialEq, Eq, Structural)]
pub enum TownGrowthEffect {
    Passengers,
    Mail,
    Goods,
    Food,
    Water,
}

pub open spec fn effect_index(e: TownGrowthEffect) -> int {
    match e {
        TownGrowthEffect::Passengers => 0,
        TownGrowthEffect::Mail => 1,
        TownGrowthEffect::Goods => 2,
        TownGrowthEffect::Food => 3,
        TownGrowthEffect::Water => 4,
    }
}

fn effect_slot(e: TownGrowthEffect) -> (r: usize)
    ensures
        r == effect_index(e),
{
    match e {
        TownGrowthEffect::Passengers => 0,
        TownGrowthEffect::Mail => 1,
        TownGrowthEffect::Goods => 2,
        TownGrowthEffect::Food => 3,
        TownGrowthEffect::Water => 4,
    }
}

pub const TOWN_GROWTH_EFFECT_COUNT: usize = 5;
/// Goal: food needed in winter only (`TOWN_GROWTH_WINTER`).
pub const TOWN_GROWTH_WINTER: u32 = 0xFFFF_FFFE;
/// Goal: food/water needed in the desert (`TOWN_GROWTH_DESERT`).
pub const TOWN_GROWTH_DESERT: u32 = 0xFFFF_FFFF;
/// Population up to which the winter goal does not apply.
pub const TOWN_GROWTH_WINTER_POP_THRESHOLD: u32 = 90;
/// Population up to which the desert goal does not apply.
pub const TOWN_GROWTH_DESERT_POP_THRESHOLD: u32 = 60;
/// Months of forced growth bought by funding buildings.
pub const FUND_BUILDINGS_MONTHS: u8 = 3;
/// Starting local-authority rating (`RATING_INITIAL`).
pub const TOWN_RATING_INITIAL: i16 = 500;
/// Ceiling of the monthly automatic recovery (`RATING_GROWTH_MAXIMUM`).
pub const RATING_GROWTH_MAXIMUM: i16 = 200;
/// Monthly recovery step towards `RATING_GROWTH_MAXIMUM`.
pub const RATING_GROWTH_UP_STEP: i8 = 5;
/// Monthly bonus for a well-served station.
pub const RATING_STATION_UP_STEP: i8 = 12;
/// Monthly penalty for a badly served station.
pub const RATING_STATION_DOWN_STEP: i8 = -15;
/// Days without pickup after which a station counts as inactive.
pub const STATION_ACTIVE_DAYS: u8 = 20;
/// Rating slots per town (`ratings[MAX_COMPANIES]`).
pub const MAX_TOWN_AUTHORITY_COMPANIES: usize = 15;
/// No growth (`TOWN_GROWTH_RATE_NONE`).
pub const TOWN_GROWTH_RATE_NONE: u16 = 0xFFFF;
/// Cap of town ticks in `TownTicksToGameTicks`.
pub const MAX_TOWN_GROWTH_SOURCE_TICKS: u16 = 930;
/// Game ticks per town growth tick (`TOWN_GROWTH_TICKS`).
pub const TOWN_GROWTH_TICKS: u64 = 70;
/// Period of town cargo generation, in ticks.
pub const TOWN_PRODUCE_TICKS: u64 = 256;
/// Population added when a growth step only extended a road.
pub const TOWN_GROWTH_POPULATION_STEP: u32 = 10;
pub const PASSENGERS_PER_HOUSE: u32 = 2;
pub const MAIL_PER_HOUSE: u32 = 1;
/// Scales a house's population to one generation cycle.
pub const TOWN_CARGO_RATE_DIVISOR: u32 = 94;
/// Cap of town cargo waiting at a stop.
pub const STATION_TOWN_CARGO_CAPACITY: u32 = 500;
/// Radius of a local authority's say over new stations.
pub const TOWN_AUTHORITY_RADIUS: u32 = 20;
/// Lowest rating at which a station may still be built near a town.
pub const AUTHORITY_MIN_STATION: i16 = -200;
pub const TOWN_ADVERTISE_COST: i64 = 1_000;
pub const TOWN_ADVERTISE_RATING_BOOST: i8 = 25;
pub const FUND_BUILDINGS_COST: i64 = 5_000;
pub const FUND_BUILDINGS_RATING_BOOST: i8 = 50;
/// Rating change for building a station near a town.
pub const STATION_BUILD_RATING_PENALTY: i8 = -15;
/// Chance of a house rebuild per tile-loop visit (`20/256`).
pub const HOUSE_REBUILD_CHANCE_NUM: u32 = 20;
pub const HOUSE_REBUILD_CHANCE_DEN: u32 = 256;

/// Council tolerance towards demolition (`town_council_tolerance`).
#[derive(Debug, Clone, Copy, PartialEq, Eq, Structural)]
pub enum TownCouncilTolerance {
    Lenient,
    Neutral,
    Hostile,
    Permissive,
}

impl Default for TownCouncilTolerance {
    fn default() -> (r: TownCouncilTolerance)
        ensures
            r == TownCouncilTolerance::Neutral,
    {
        TownCouncilTolerance::Neutral
    }
}

/// What is being demolished (`TownRatingCheckType`).
#[derive(Debug, Clone, Copy, PartialEq, Eq, Structural)]
pub enum TownRatingCheckType {
    RoadRemove,
    TunnelBridgeRemove,
}

/// One month of cargo supplied by a town.
#[derive(Debug, Clone, Copy, PartialEq, Eq, Default, Structural)]
pub struct TownSuppliedHistory {
    pub production: u32,
    pub transported: u32,
}

/// Supply history of one cargo produced by a town.
#[derive(Debug, Clone, PartialEq, Eq, Default)]
pub struct TownSuppliedCargo {
    /// Native cargo id.
    pub cargo: u8,
    pub history: Vec<TownSuppliedHistory>,
}

/// Statistics of a cargo received by a town.
#[derive(Debug, Clone, Copy, PartialEq, Eq, Default, Structural)]
pub struct TownReceivedCargo {
    pub old_max: u16,
    pub new_max: u16,
    pub old_act: u16,
    pub new_act: u16,
}

/// A town.
#[derive(Debug, Clone, PartialEq, Eq)]
pub struct Town {
    pub id: u32,
    pub pos: TileCoord,
    pub name: String,
    /// Native town-name generator identity.
    pub townnamegrfid: u32,
    pub townnametype: u16,
    pub townnameparts: u32,
    pub population: u32,
    /// Native `TownFlag` bits.
    pub native_flags: u8,
    /// Local-authority rating per company slot.
    pub authority_ratings: Vec<i16>,
    /// Native mask of companies that have a rating.
    pub have_ratings: u16,
    /// Single rating of old saves, moved into `authority_ratings` on first use.
    pub legacy_local_authority_rating: Option<i16>,
    /// Passengers delivered near the town.
    pub passengers_served: u32,
    /// Mail delivered near the town.
    pub mail_served: u32,
    /// How many times buildings were funded.
    pub growth_funded: u32,
    /// Monthly goal per growth effect.
    pub goals: [u32; 5],
    pub supplied_cargo: Vec<TownSuppliedCargo>,
    pub received_cargo: Vec<TownReceivedCargo>,
    /// Deliveries of the current month per growth effect.
    pub received_new: [u32; 5],
    /// Deliveries of the previous month per growth effect.
    pub received_old: [u32; 5],
    /// Months of funded growth left.
    pub fund_buildings_months: u8,
    pub is_growing: bool,
    /// Game ticks between growth attempts.
    pub growth_rate: u16,
    /// Countdown to the next growth attempt.
    pub grow_counter: u16,
    pub noise_reached: u16,
    pub num_houses: u16,
    /// Squared radius of each house zone.
    pub squared_town_zone_radius: [u32; 5],
    pub layout: TownLayout,
    pub has_church: bool,
    pub has_stadium: bool,
    /// Countdown to the next house renovation.
    pub time_until_rebuild: u16,
    /// Months of funded road reconstruction left.
    pub road_build_months: u8,
    pub larger_town: bool,
    pub valid_history: u64,
    pub native_text: String,
    /// Months of exclusive transport rights left.
    pub exclusive_counter: u8,
    /// Company holding the exclusive rights.
    pub exclusivity: Option<CompanyId>,
    /// One bit per company that has a statue here.
    pub statues: u16,
    /// Months a company is unwanted after a failed bribe, per slot.
    pub unwanted: Vec<u8>,
}

impl Default for Town {
    fn default() -> (t: Town)
        ensures
            t.id == 0,
            t.pos == (TileCoord { x: 0, y: 0 }),
            t.population == 0,
            t.authority_ratings@ == Seq::new(15, |i: int| TOWN_RATING_INITIAL),
            t.legacy_local_authority_rating is None,
            t.passengers_served == 0,
            t.mail_served == 0,
            t.growth_funded == 0,
            t.goals@ == seq![0u32, 0, 0, 0, 0],
            t.received_new@ == seq![0u32, 0, 0, 0, 0],
            t.received_old@ == seq![0u32, 0, 0, 0, 0],
            t.fund_buildings_months == 0,
            !t.is_growing,
            t.growth_rate == 0,
            t.grow_counter == 0,
            t.num_houses == 0,
            t.squared_town_zone_radius@ == seq![0u32, 0, 0, 0, 0],
            t.layout == TownLayout::Original,
            !t.has_church,
            !t.has_stadium,
            t.time_until_rebuild == 10,
            t.road_build_months == 0,
            !t.larger_town,
            t.exclusive_counter == 0,
            t.exclusivity is None,
            t.statues == 0,
            t.unwanted@ == Seq::new(15, |i: int| 0u8),
    {
        let ratings: Vec<i16> = vec![TOWN_RATING_INITIAL; MAX_TOWN_AUTHORITY_COMPANIES];
        let unwanted: Vec<u8> = vec![0u8; MAX_TOWN_AUTHORITY_COMPANIES];
        assert(ratings@ =~= Seq::new(15, |i: int| TOWN_RATING_INITIAL));
        assert(unwanted@ =~= Seq::new(15, |i: int| 0u8));
        let t = Town {
            id: 0,
            pos: TileCoord { x: 0, y: 0 },
            name: String::new(),
            townnamegrfid: 0,
            townnametype: 0,
            townnameparts: 0,
            population: 0,
            native_flags: 0,
            authority_ratings: ratings,
            have_ratings: 0,
            legacy_local_authority_rating: None,
            passengers_served: 0,
            mail_served: 0,
            growth_funded: 0,
            goals: [0, 0, 0, 0, 0],
            supplied_cargo: Vec::new(),
            received_cargo: Vec::new(),
            received_new: [0, 0, 0, 0, 0],
            received_old: [0, 0, 0, 0, 0],
            fund_buildings_months: 0,
            is_growing: false,
            growth_rate: 0,
            grow_counter: 0,
            noise_reached: 0,
            num_houses: 0,
            squared_town_zone_radius: [0, 0, 0, 0, 0],
            layout: TownLayout::Original,
            has_church: false,
            has_stadium: false,
            time_until_rebuild: 10,
            road_build_months: 0,
            larger_town: false,
            valid_history: 0,
            native_text: String::new(),
            exclusive_counter: 0,
            exclusivity: None,
            statues: 0,
            unwanted,
        };
        assert(t.goals@ =~= seq![0u32, 0, 0, 0, 0]);
        assert(t.received_new@ =~= seq![0u32, 0, 0, 0, 0]);
        assert(t.received_old@ =~= seq![0u32, 0, 0, 0, 0]);
        assert(t.squared_town_zone_radius@ =~= seq![0u32, 0, 0, 0, 0]);
        t
    }
}

// ---------------------------------------------------------------------------
// Per-company authority state
// ---------------------------------------------------------------------------

/// The ratings once a legacy single rating has been spread over every slot.
pub open spec fn migrated_ratings(t: Town) -> Seq<i16> {
    match t.legacy_local_authority_rating {
        Some(l) => Seq::new(15, |i: int| l),
        None => t.authority_ratings@,
    }
}

/// The ratings after making room for `count` companies (at least the
/// standard number of slots); new slots start at the initial rating.
pub open spec fn ensured_ratings(t: Town, count: int) -> Seq<i16> {
    let base = migrated_ratings(t);
    let need = if count > 15 { count } else { 15 };
    if base.len() < need {
        base + Seq::new((need - base.len()) as nat, |i: int| TOWN_RATING_INITIAL)
    } else {
        base
    }
}

/// Rating in slot `idx`, or the initial rating for a missing slot.
pub open spec fn rating_in(ratings: Seq<i16>, idx: int) -> i16 {
    if 0 <= idx < ratings.len() {
        ratings[idx]
    } else {
        TOWN_RATING_INITIAL
    }
}

/// `v` clamped to the rating range `-1000..=1000`.
pub open spec fn clamp_rating(v: int) -> int {
    if v < -1000 {
        -1000
    } else if v > 1000 {
        1000
    } else {
        v
    }
}

/// Unwanted months after making room for every standard slot.
pub open spec fn ensured_unwanted(u: Seq<u8>) -> Seq<u8> {
    if u.len() < 15 {
        u + Seq::new((15 - u.len()) as nat, |i: int| 0u8)
    } else {
        u
    }
}

/// Bit of company `c` in the statue mask, when it has one.
pub open spec fn statue_bit(statues: u16, c: u8) -> bool {
    c < 16 && statues & (1u16 << (c as u16)) != 0
}

/// Index in `0..4` of the layout a town picks from its position.
pub open spec fn layout_hash_index(pos: TileCoord) -> int {
    (((pos.x as u32) as int * 3 + (pos.y as u32) as int * 5) % 0x1_0000_0000) % 4
}

pub open spec fn layout_of_index(i: int) -> TownLayout {
    if i == 0 {
        TownLayout::Original
    } else if i == 1 {
        TownLayout::BetterRoads
    } else if i == 2 {
        TownLayout::Grid2x2
    } else {
        TownLayout::Grid3x3
    }
}

/// Goals at game start for a climate.
pub open spec fn initial_goals(c: Climate) -> Seq<u32> {
    match c {
        Climate::SubArctic => seq![0u32, 0, 0, TOWN_GROWTH_WINTER, 0],
        Climate::SubTropical => seq![0u32, 0, 0, TOWN_GROWTH_DESERT, TOWN_GROWTH_DESERT],
        _ => seq![0u32, 0, 0, 0, 0],
    }
}

/// The growth effect a delivered cargo counts for, if any.
pub open spec fn cargo_effect(c: CargoType) -> Option<TownGrowthEffect> {
    match c {
        CargoType::Passengers => Some(TownGrowthEffect::Passengers),
        CargoType::Mail => Some(TownGrowthEffect::Mail),
        CargoType::Goods | CargoType::Candy => Some(TownGrowthEffect::Goods),
        CargoType::Food | CargoType::FizzyDrinks => Some(TownGrowthEffect::Food),
        CargoType::Water => Some(TownGrowthEffect::Water),
        _ => None,
    }
}

pub open spec fn sat_add_u32(a: u32, b: u32) -> u32 {
    if a + b > u32::MAX { u32::MAX } else { (a + b) as u32 }
}

/// `after` is `before` once `delta` has been added to the rating of
/// `company` (see `Town::adjust_rating`), which returned `r`.
pub open spec fn rating_adjusted(before: Town, after: Town, company: CompanyId, delta: i8, r: i8) -> bool {
    let base = ensured_ratings(before, company.0 + 1);
    let old_r = base[company.0 as int];
    let new_r = clamp_rating(old_r + delta);
    &&& after.authority_ratings@ == base.update(company.0 as int, new_r as i16)
    &&& r == if -128 <= new_r - old_r <= 127 { (new_r - old_r) as i8 } else { delta }
    &&& after == (Town {
        authority_ratings: after.authority_ratings,
        legacy_local_authority_rating: None,
        ..before
    })
}

/// `after` is `before` once a delivery of `amount` of `cargo` has been counted
/// (see `Town::record_town_cargo_delivery`).
pub open spec fn delivery_recorded(before: Town, after: Town, cargo: CargoType, amount: u32) -> bool {
    &&& after == (Town {
        passengers_served: after.passengers_served,
        mail_served: after.mail_served,
        received_new: after.received_new,
        ..before
    })
    &&& after.passengers_served == if cargo == CargoType::Passengers {
        sat_add_u32(before.passengers_served, amount)
    } else {
        before.passengers_served
    }
    &&& after.mail_served == if cargo == CargoType::Mail {
        sat_add_u32(before.mail_served, amount)
    } else {
        before.mail_served
    }
    &&& after.received_new@ == match cargo_effect(cargo) {
        Some(e) => before.received_new@.update(
            effect_index(e),
            sat_add_u32(before.received_new@[effect_index(e)], amount),
        ),
        None => before.received_new@,
    }
}

impl Town {
    /// Picks the street layout: the preferred one unless it is `Random`,
    /// otherwise one of the first four from a hash of the position.
    pub fn initialize_layout(&mut self, preferred: Option<TownLayout>)
        ensures
            *final(self) == (Town { layout: final(self).layout, ..*old(self) }),
            match preferred {
                Some(l) => if l != TownLayout::Random {
                    final(self).layout == l
                } else {
                    final(self).layout == layout_of_index(layout_hash_index(old(self).pos))
                },
                None => final(self).layout == layout_of_index(layout_hash_index(old(self).pos)),
            },
    {
        match preferred {
            Some(l) => {
                if l != TownLayout::Random {
                    self.layout = l;
                    return;
                }
            },
            None => {},
        }
        let xu = self.pos.x as u32;
        let yu = self.pos.y as u32;
        let hash = xu.wrapping_mul(3).wrapping_add(yu.wrapping_mul(5));
        proof {
            let a = (xu as int * 3) % 0x1_0000_0000;
            let b = (yu as int * 5) % 0x1_0000_0000;
            assert((a + b) % 0x1_0000_0000 == (xu as int * 3 + yu as int * 5) % 0x1_0000_0000) by (nonlinear_arith)
                requires
                    a == (xu as int * 3) % 0x1_0000_0000,
                    b == (yu as int * 5) % 0x1_0000_0000,
            {
                vstd::arithmetic::div_mod::lemma_add_mod_noop(xu as int * 3, yu as int * 5, 0x1_0000_0000);
            }
        }
        let h = hash % 4;
        self.layout = if h == 0 {
            TownLayout::Original
        } else if h == 1 {
            TownLayout::BetterRoads
        } else if h == 2 {
            TownLayout::Grid2x2
        } else {
            TownLayout::Grid3x3
        };
    }

    /// Rating of `company`; the initial rating when it has no slot.
    pub fn authority_rating(&self, company: CompanyId) -> (r: i16)
        ensures
            r == rating_in(self.authority_ratings@, company.0 as int),
    {
        let idx = company.index();
        if idx < self.authority_ratings.len() {
            self.authority_ratings[idx]
        } else {
            TOWN_RATING_INITIAL
        }
    }

    /// Folds the rating of an old save into one slot per company.
    pub fn migrate_legacy_authority_rating(&mut self)
        ensures
            final(self).authority_ratings@ == migrated_ratings(*old(self)),
            *final(self) == (Town {
                authority_ratings: final(self).authority_ratings,
                legacy_local_authority_rating: None,
                ..*old(self)
            }),
    {
        match self.legacy_local_authority_rating {
            Some(legacy) => {
                let v: Vec<i16> = vec![legacy; MAX_TOWN_AUTHORITY_COMPANIES];
                assert(v@ =~= Seq::new(15, |i: int| legacy));
                self.authority_ratings = v;
                self.legacy_local_authority_rating = None;
            },
            None => {},
        }
    }

    /// Makes sure there is a rating slot for `company_count` companies (and
    /// at least for the standard number); new slots get the initial rating.
    pub fn ensure_authority_ratings(&mut self, company_count: usize)
        ensures
            final(self).authority_ratings@ == ensured_ratings(*old(self), company_count as int),
            *final(self) == (Town {
                authority_ratings: final(self).authority_ratings,
                legacy_local_authority_rating: None,
                ..*old(self)
            }),
    {
        self.migrate_legacy_authority_rating();
        let need = if company_count > MAX_TOWN_AUTHORITY_COMPANIES {
            company_count
        } else {
            MAX_TOWN_AUTHORITY_COMPANIES
        };
        if self.authority_ratings.len() < need {
            let ghost before = self.authority_ratings@;
            self.authority_ratings.resize(need, TOWN_RATING_INITIAL);
            assert(self.authority_ratings@ =~= before + Seq::new((need - before.len()) as nat, |i: int| TOWN_RATING_INITIAL)) by {
                assert forall|i: int| 0 <= i < need implies #[trigger] self.authority_ratings@[i] == (before + Seq::new((need - before.len()) as nat, |i: int| TOWN_RATING_INITIAL))[i] by {
                    if i < before.len() {
                        assert(self.authority_ratings@.subrange(0, before.len() as int)[i] == before[i]);
                    }
                }
            }
        }
    }

    /// Sets the rating of `company`, making room for its slot first.
    pub fn set_authority_rating(&mut self, company: CompanyId, rating: i16)
        ensures
            final(self).authority_ratings@ == ensured_ratings(*old(self), company.0 + 1).update(company.0 as int, rating),
            *final(self) == (Town {
                authority_ratings: final(self).authority_ratings,
                legacy_local_authority_rating: None,
                ..*old(self)
            }),
    {
        self.ensure_authority_ratings(company.index() + 1);
        let idx = company.index();
        self.authority_ratings.set(idx, rating);
    }

    /// Whether `company` has a statue in this town.
    pub fn has_statue(&self, company: CompanyId) -> (r: bool)
        ensures
            r == statue_bit(self.statues, company.0),
    {
        let bit = company.0 as u16;
        if bit >= 16 {
            return false;
        }
        self.statues & (1u16 << bit) != 0
    }

    /// Records or clears the statue of `company` (companies past the
    /// sixteenth have no bit and are ignored).
    pub fn set_statue(&mut self, company: CompanyId, present: bool)
        ensures
            *final(self) == (Town { statues: final(self).statues, ..*old(self) }),
            final(self).statues == if company.0 >= 16 {
                old(self).statues
            } else if present {
                old(self).statues | (1u16 << (company.0 as u16))
            } else {
                old(self).statues & !(1u16 << (company.0 as u16))
            },
    {
        let bit = company.0 as u16;
        if bit >= 16 {
            return;
        }
        if present {
            self.statues = self.statues | (1u16 << bit);
        } else {
            self.statues = self.statues & !(1u16 << bit);
        }
    }

    /// Months `company` is still unwanted (0 without a slot).
    pub fn unwanted_months(&self, company: CompanyId) -> (r: u8)
        ensures
            r == if (company.0 as int) < self.unwanted@.len() { self.unwanted@[company.0 as int] } else { 0 },
    {
        let idx = company.index();
        if idx < self.unwanted.len() {
            self.unwanted[idx]
        } else {
            0
        }
    }

    /// Sets the unwanted months of `company` (slots are made for the
    /// standard number of companies; a company past them is ignored).
    pub fn set_unwanted(&mut self, company: CompanyId, months: u8)
        ensures
            *final(self) == (Town { unwanted: final(self).unwanted, ..*old(self) }),
            final(self).unwanted@ == if (company.0 as int) < ensured_unwanted(old(self).unwanted@).len() {
                ensured_unwanted(old(self).unwanted@).update(company.0 as int, months)
            } else {
                ensured_unwanted(old(self).unwanted@)
            },
    {
        if self.unwanted.len() < MAX_TOWN_AUTHORITY_COMPANIES {
            let ghost before = self.unwanted@;
            self.unwanted.resize(MAX_TOWN_AUTHORITY_COMPANIES, 0);
            assert(self.unwanted@ =~= ensured_unwanted(before)) by {
                assert forall|i: int| 0 <= i < 15 implies #[trigger] self.unwanted@[i] == ensured_unwanted(before)[i] by {
                    if i < before.len() {
                        assert(self.unwanted@.subrange(0, before.len() as int)[i] == before[i]);
                    }
                }
            }
        }
        let idx = company.index();
        if idx < self.unwanted.len() {
            self.unwanted.set(idx, months);
        }
    }

    /// Spreads the first growth attempt of each town over the growth cycle.
    pub fn init_grow_counter(&mut self)
        ensures
            *final(self) == (Town { grow_counter: final(self).grow_counter, ..*old(self) }),
            final(self).grow_counter == old(self).id % 70,
    {
        self.grow_counter = (self.id % 70) as u16;
    }

    /// Growth goals for the climate: food in the sub-arctic, food and water
    /// in the sub-tropics, nothing elsewhere.
    pub fn init_growth_goals(&mut self, climate: Climate)
        ensures
            *final(self) == (Town { goals: final(self).goals, ..*old(self) }),
            final(self).goals@ == initial_goals(climate),
    {
        let mut goals: [u32; 5] = [0, 0, 0, 0, 0];
        match climate {
            Climate::SubArctic => {
                goals[3] = TOWN_GROWTH_WINTER;
            },
            Climate::SubTropical => {
                goals[3] = TOWN_GROWTH_DESERT;
                goals[4] = TOWN_GROWTH_DESERT;
            },
            _ => {},
        }
        assert(goals@ =~= initial_goals(climate));
        self.goals = goals;
    }

    /// Adds `delta` to the rating of `company`, clamped to `-1000..=1000`,
    /// and returns the change applied (or `delta` when that change does not
    /// fit in an `i8`).
    pub fn adjust_rating(&mut self, company: CompanyId, delta: i8) -> (r: i8)
        ensures
            rating_adjusted(*old(self), *final(self), company, delta, r),
    {
        self.ensure_authority_ratings(company.index() + 1);
        let idx = company.index();
        let before = self.authority_ratings[idx];
        let next: i32 = before as i32 + delta as i32;
        let clamped: i32 = if next < -1000 {
            -1000
        } else if next > 1000 {
            1000
        } else {
            next
        };
        self.authority_ratings.set(idx, clamped as i16);
        let diff: i32 = clamped - before as i32;
        if -128 <= diff && diff <= 127 {
            diff as i8
        } else {
            delta
        }
    }

    /// Counts a delivery near the town towards its growth: passengers and
    /// mail also add to their served counters (all sums saturate).
    pub fn record_town_cargo_delivery(&mut self, cargo: CargoType, amount: u32)
        ensures
            delivery_recorded(*old(self), *final(self), cargo, amount),
    {
        match cargo {
            CargoType::Passengers => {
                self.passengers_served = self.passengers_served.saturating_add(amount);
                self.add_received(TownGrowthEffect::Passengers, amount);
            },
            CargoType::Mail => {
                self.mail_served = self.mail_served.saturating_add(amount);
                self.add_received(TownGrowthEffect::Mail, amount);
            },
            CargoType::Goods | CargoType::Candy => {
                self.add_received(TownGrowthEffect::Goods, amount);
            },
            CargoType::Food | CargoType::FizzyDrinks => {
                self.add_received(TownGrowthEffect::Food, amount);
            },
            CargoType::Water => {
                self.add_received(TownGrowthEffect::Water, amount);
            },
            _ => {},
        }
    }

    fn add_received(&mut self, effect: TownGrowthEffect, amount: u32)
        ensures
            *final(self) == (Town { received_new: final(self).received_new, ..*old(self) }),
            final(self).received_new@ == old(self).received_new@.update(
                effect_index(effect),
                sat_add_u32(old(self).received_new@[effect_index(effect)], amount),
            ),
    {
        let i = effect_slot(effect);
        let v = self.received_new[i].saturating_add(amount);
        self.received_new[i] = v;
    }
}

// ---------------------------------------------------------------------------
// Zones, goals and growth counters
// ---------------------------------------------------------------------------

/// Row `i` of the squared zone radius table (`_town_squared_town_zone_radius_data`).
pub open spec fn zone_radius_row(i: int) -> Seq<u32> {
    if i == 0 {
        seq![4u32, 0, 0, 0, 0]
    }     else if i == 1 {
        seq![16u32, 0, 0, 0, 0]
    }     else if i == 2 {
        seq![25u32, 0, 0, 0, 0]
    }     else if i == 3 {
        seq![36u32, 0, 0, 0, 0]
    }     else if i == 4 {
        seq![49u32, 0, 4, 0, 0]
    }     else if i == 5 {
        seq![64u32, 0, 4, 0, 0]
    }     else if i == 6 {
        seq![64u32, 0, 9, 0, 1]
    }     else if i == 7 {
        seq![64u32, 0, 9, 0, 4]
    }     else if i == 8 {
        seq![64u32, 0, 16, 0, 4]
    }     else if i == 9 {
        seq![81u32, 0, 16, 0, 4]
    }     else if i == 10 {
        seq![81u32, 0, 16, 0, 4]
    }     else if i == 11 {
        seq![81u32, 0, 25, 0, 9]
    }     else if i == 12 {
        seq![81u32, 36, 25, 0, 9]
    }     else if i == 13 {
        seq![81u32, 36, 25, 16, 9]
    }     else if i == 14 {
        seq![81u32, 49, 0, 25, 9]
    }     else if i == 15 {
        seq![81u32, 64, 0, 25, 9]
    }     else if i == 16 {
        seq![81u32, 64, 0, 36, 9]
    }     else if i == 17 {
        seq![81u32, 64, 0, 36, 16]
    }     else if i == 18 {
        seq![100u32, 81, 0, 49, 16]
    }     else if i == 19 {
        seq![100u32, 81, 0, 49, 25]
    }     else if i == 20 {
        seq![121u32, 81, 0, 49, 25]
    }     else if i == 21 {
        seq![121u32, 81, 0, 49, 25]
    }     else {
        seq![121u32, 81, 0, 49, 36]
    }
}

fn zone_radius_row_exec(i: usize) -> (r: [u32; 5])
    requires
        i < 23,
    ensures
        r@ == zone_radius_row(i as int),
{
    let r: [u32; 5] = match i {
        0 => [4, 0, 0, 0, 0],
        1 => [16, 0, 0, 0, 0],
        2 => [25, 0, 0, 0, 0],
        3 => [36, 0, 0, 0, 0],
        4 => [49, 0, 4, 0, 0],
        5 => [64, 0, 4, 0, 0],
        6 => [64, 0, 9, 0, 1],
        7 => [64, 0, 9, 0, 4],
        8 => [64, 0, 16, 0, 4],
        9 => [81, 0, 16, 0, 4],
        10 => [81, 0, 16, 0, 4],
        11 => [81, 0, 25, 0, 9],
        12 => [81, 36, 25, 0, 9],
        13 => [81, 36, 25, 16, 9],
        14 => [81, 49, 0, 25, 9],
        15 => [81, 64, 0, 25, 9],
        16 => [81, 64, 0, 36, 9],
        17 => [81, 64, 0, 36, 16],
        18 => [100, 81, 0, 49, 16],
        19 => [100, 81, 0, 49, 25],
        20 => [121, 81, 0, 49, 25],
        21 => [121, 81, 0, 49, 25],
        _ => [121, 81, 0, 49, 36],
    };
    assert(r@ =~= zone_radius_row(i as int));
    r
}

/// `max(v, 0)` as a `u32` value.
pub open spec fn nonneg(v: int) -> u32 {
    if v < 0 { 0 } else { v as u32 }
}

/// Squared zone radii for a house count (`UpdateTownRadius`): from the table
/// up to 91 houses, from a mass formula beyond.
pub open spec fn zone_radii_for(num_houses: u16) -> Seq<u32> {
    if num_houses < 92 {
        zone_radius_row((num_houses / 4) as int)
    } else {
        let mass: int = (num_houses / 8) as int;
        seq![nonneg(mass * 15 - 40), nonneg(mass * 9 - 15), 0u32, nonneg(mass * 5 - 5), nonneg(mass * 3 + 5)]
    }
}

/// Recomputes the zone radii from the house count.
pub fn update_town_radius(town: &mut Town)
    ensures
        *final(town) == (Town { squared_town_zone_radius: final(town).squared_town_zone_radius, ..*old(town) }),
        final(town).squared_town_zone_radius@ == zone_radii_for(old(town).num_houses),
{
    let n = town.num_houses as usize;
    if n < 92 {
        town.squared_town_zone_radius = zone_radius_row_exec(n / 4);
    } else {
        let mass: i32 = (town.num_houses / 8) as i32;
        let a: i32 = mass * 15 - 40;
        let b: i32 = mass * 9 - 15;
        let d: i32 = mass * 5 - 5;
        let e: i32 = mass * 3 + 5;
        let r: [u32; 5] = [
            if a < 0 { 0 } else { a as u32 },
            if b < 0 { 0 } else { b as u32 },
            0,
            if d < 0 { 0 } else { d as u32 },
            if e < 0 { 0 } else { e as u32 },
        ];
        assert(r@ =~= zone_radii_for(town.num_houses));
        town.squared_town_zone_radius = r;
    }
}

/// Half-width of the square searched for houses around the centre: the
/// innermost zone radius plus four, at least 64.
pub open spec fn house_search_radius(r0: u32) -> int {
    let a: int = if r0 as int + 4 > u32::MAX as int { u32::MAX as int } else { r0 + 4 };
    let b: int = if a < 64 { 64 } else { a };
    if b > i32::MAX as int { 64 } else { b }
}

/// The map dimension as a signed coordinate bound.
pub open spec fn coord_bound(d: u32) -> int {
    if d as int > i32::MAX as int { i32::MAX as int } else { d as int }
}

/// `t` lies on the map and within `search` tiles of `centre` on both axes.
pub open spec fn in_house_window(t: TileCoord, centre: TileCoord, search: int, w: u32, h: u32) -> bool {
    &&& 0 <= t.x < coord_bound(w)
    &&& 0 <= t.y < coord_bound(h)
    &&& abs_int(t.x - centre.x) <= search
    &&& abs_int(t.y - centre.y) <= search
}

/// House tiles among the first `k` that lie in the window.
pub open spec fn houses_in_window(tiles: Seq<TileCoord>, centre: TileCoord, search: int, w: u32, h: u32, k: int) -> int
    decreases k,
{
    if k <= 0 {
        0
    } else {
        houses_in_window(tiles, centre, search, w, h, k - 1) + if in_house_window(tiles[k - 1], centre, search, w, h) {
            1int
        } else {
            0int
        }
    }
}

/// Recounts the town's houses on the map around its centre and updates its
/// zone radii. `house_tiles` lists each house tile of a `map_width` by
/// `map_height` map once; the count saturates at `u16::MAX`.
pub fn recount_town_houses(map_width: u32, map_height: u32, house_tiles: &Vec<TileCoord>, town: &mut Town)
    ensures
        *final(town) == (Town {
            num_houses: final(town).num_houses,
            squared_town_zone_radius: final(town).squared_town_zone_radius,
            ..*old(town)
        }),
        final(town).num_houses == ({
            let c = houses_in_window(
                house_tiles@,
                old(town).pos,
                house_search_radius(old(town).squared_town_zone_radius[0]),
                map_width,
                map_height,
                house_tiles@.len() as int,
            );
            if c > u16::MAX as int { u16::MAX as int } else { c }
        }),
        final(town).squared_town_zone_radius@ == zone_radii_for(final(town).num_houses),
{
    let r0 = town.squared_town_zone_radius[0];
    let a: u32 = r0.saturating_add(4);
    let b: u32 = if a < 64 { 64 } else { a };
    let search: i64 = if b > 2147483647 { 64 } else { b as i64 };
    let w: i64 = if map_width > 2147483647 { 2147483647 } else { map_width as i64 };
    let h: i64 = if map_height > 2147483647 { 2147483647 } else { map_height as i64 };
    let cx = town.pos.x as i64;
    let cy = town.pos.y as i64;
    let ghost centre = town.pos;
    let mut count: u16 = 0;
    let mut k: usize = 0;
    while k < house_tiles.len()
        invariant
            k <= house_tiles@.len(),
            search == house_search_radius(r0),
            w == coord_bound(map_width),
            h == coord_bound(map_height),
            cx == centre.x,
            cy == centre.y,
            count == ({
                let c = houses_in_window(house_tiles@, centre, search as int, map_width, map_height, k as int);
                if c > u16::MAX as int { u16::MAX as int } else { c }
            }),
            houses_in_window(house_tiles@, centre, search as int, map_width, map_height, k as int) >= 0,
        decreases house_tiles@.len() - k,
    {
        let t = house_tiles[k];
        let tx = t.x as i64;
        let ty = t.y as i64;
        let dx = if tx >= cx { tx - cx } else { cx - tx };
        let dy = if ty >= cy { ty - cy } else { cy - ty };
        if 0 <= tx && tx < w && 0 <= ty && ty < h && dx <= search && dy <= search {
            count = count.saturating_add(1);
        }
        k = k + 1;
    }
    town.num_houses = count;
    update_town_radius(town);
}

/// Whether a goal is met by last month's deliveries: no goal always is; the
/// winter and desert goals only bind above their population thresholds and
/// then need any delivery; a plain goal needs at least that amount.
pub open spec fn spec_goal_satisfied(goal: u32, received: u32, population: u32) -> bool {
    if goal == 0 {
        true
    } else if goal == TOWN_GROWTH_WINTER {
        population <= TOWN_GROWTH_WINTER_POP_THRESHOLD || received > 0
    } else if goal == TOWN_GROWTH_DESERT {
        population <= TOWN_GROWTH_DESERT_POP_THRESHOLD || received > 0
    } else {
        received >= goal
    }
}

pub fn town_goal_satisfied(goal: u32, received: u32, population: u32) -> (r: bool)
    ensures
        r == spec_goal_satisfied(goal, received, population),
{
    if goal == 0 {
        return true;
    }
    if goal == TOWN_GROWTH_WINTER {
        if population <= TOWN_GROWTH_WINTER_POP_THRESHOLD {
            return true;
        }
        return received > 0;
    }
    if goal == TOWN_GROWTH_DESERT {
        if population <= TOWN_GROWTH_DESERT_POP_THRESHOLD {
            return true;
        }
        return received > 0;
    }
    received >= goal
}

/// Town ticks to game ticks (`TownTicksToGameTicks`): `(min(t, 930) + 1) * 70 - 1`.
pub fn town_ticks_to_game_ticks(ticks: u16) -> (r: u16)
    ensures
        r == (if ticks < MAX_TOWN_GROWTH_SOURCE_TICKS { ticks as int } else { MAX_TOWN_GROWTH_SOURCE_TICKS as int } + 1) * 70 - 1,
{
    let capped = if ticks < MAX_TOWN_GROWTH_SOURCE_TICKS { ticks } else { MAX_TOWN_GROWTH_SOURCE_TICKS };
    (capped + 1) * 70 - 1
}

/// Units of passengers or mail a house makes per cycle from its rate:
/// none for rate 0, otherwise `ceil(rate / 94)` and at least one.
pub fn town_cargo_amount_per_cycle(rate: u16) -> (r: u32)
    ensures
        rate == 0 ==> r == 0,
        rate != 0 ==> r == if (rate as int + 93) / 94 < 1 { 1 } else { (rate as int + 93) / 94 },
{
    if rate == 0 {
        return 0;
    }
    let q = (rate as u32 + 93) / TOWN_CARGO_RATE_DIVISOR;
    if q < 1 { 1 } else { q }
}

/// The cap on the growth countdown after funding buildings
/// (`TownActionFundBuildings`): `140 - (rate - counter % rate) % 70`.
pub open spec fn fund_counter_cap(growth_rate: u16, grow_counter: u16) -> int {
    let modulo = if growth_rate > 0 {
        (growth_rate - grow_counter % growth_rate) % 70
    } else {
        0
    };
    140 - modulo
}

pub fn cap_grow_counter_after_fund(town: &mut Town)
    ensures
        *final(town) == (Town { grow_counter: final(town).grow_counter, ..*old(town) }),
        final(town).grow_counter == if old(town).grow_counter < fund_counter_cap(old(town).growth_rate, old(town).grow_counter) {
            old(town).grow_counter as int
        } else {
            fund_counter_cap(old(town).growth_rate, old(town).grow_counter)
        },
{
    let modulo: u16 = if town.growth_rate > 0 {
        (town.growth_rate - (town.grow_counter % town.growth_rate)) % 70
    } else {
        0
    };
    let cap: u16 = 140 - modulo;
    if cap < town.grow_counter {
        town.grow_counter = cap;
    }
}

/// Starts the three-month funded-buildings programme and counts it.
pub fn apply_fund_buildings_boost(town: &mut Town)
    ensures
        *final(town) == (Town {
            growth_funded: final(town).growth_funded,
            fund_buildings_months: FUND_BUILDINGS_MONTHS,
            ..*old(town)
        }),
        final(town).growth_funded == sat_add_u32(old(town).growth_funded, 1),
{
    town.growth_funded = town.growth_funded.saturating_add(1);
    town.fund_buildings_months = FUND_BUILDINGS_MONTHS;
}

// ---------------------------------------------------------------------------
// Nearest town and the local authority's say
// ---------------------------------------------------------------------------

/// Distance used to find the nearest town (Manhattan, saturating).
pub open spec fn town_distance(t: Town, pos: TileCoord) -> int {
    if manhattan(t.pos, pos) > u32::MAX { u32::MAX as int } else { manhattan(t.pos, pos) }
}

pub proof fn lemma_town_distance_is_u32(t: Town, pos: TileCoord)
    ensures
        0 <= town_distance(t, pos) <= u32::MAX,
{
}

/// Index of the first town at the least distance among the first `k`.
pub open spec fn nearest_upto(towns: Seq<Town>, pos: TileCoord, k: int) -> Option<int>
    decreases k,
{
    if k <= 0 {
        None
    } else {
        match nearest_upto(towns, pos, k - 1) {
            None => Some(k - 1),
            Some(i) => if town_distance(towns[k - 1], pos) < town_distance(towns[i], pos) {
                Some(k - 1)
            } else {
                Some(i)
            },
        }
    }
}

pub open spec fn spec_nearest(towns: Seq<Town>, pos: TileCoord) -> Option<int> {
    nearest_upto(towns, pos, towns.len() as int)
}

/// The nearest town is at least as close as every town, and strictly closer
/// than every town listed before it.
pub proof fn lemma_nearest_is_first_minimum(towns: Seq<Town>, pos: TileCoord, k: int)
    requires
        0 <= k <= towns.len(),
    ensures
        k == 0 <==> nearest_upto(towns, pos, k) is None,
        nearest_upto(towns, pos, k) matches Some(i) ==> {
            &&& 0 <= i < k
            &&& forall|j: int| 0 <= j < k ==> town_distance(towns[i], pos) <= #[trigger] town_distance(towns[j], pos)
            &&& forall|j: int| 0 <= j < i ==> town_distance(towns[i], pos) < #[trigger] town_distance(towns[j], pos)
        },
    decreases k,
{
    if k > 0 {
        lemma_nearest_is_first_minimum(towns, pos, k - 1);
    }
}

/// The nearest town and its distance; the first one on ties, `None` when
/// there are no towns.
pub fn nearest_town_index(towns: &[Town], pos: TileCoord) -> (r: Option<(usize, u32)>)
    ensures
        match spec_nearest(towns@, pos) {
            None => r is None,
            Some(i) => r matches Some((j, d)) && j == i && d == town_distance(towns@[i], pos),
        },
{
    let mut best: Option<(usize, u32)> = None;
    let mut k: usize = 0;
    while k < towns.len()
        invariant
            k <= towns@.len(),
            match nearest_upto(towns@, pos, k as int) {
                None => best is None,
                Some(i) => best matches Some((j, d)) && j == i && d == town_distance(towns@[i], pos),
            },
        decreases towns@.len() - k,
    {
        proof {
            lemma_nearest_is_first_minimum(towns@, pos, k as int);
        }
        let d = manhattan_distance(towns[k].pos, pos);
        match best {
            None => {
                best = Some((k, d));
            },
            Some((_, bd)) => {
                if d < bd {
                    best = Some((k, d));
                }
            },
        }
        k = k + 1;
    }
    best
}

/// Rating a company needs for a demolition (`CheckforTownRating`).
pub open spec fn spec_needed_rating(tolerance: TownCouncilTolerance, check: TownRatingCheckType) -> i16 {
    let road = check == TownRatingCheckType::RoadRemove;
    match tolerance {
        TownCouncilTolerance::Permissive => -1000i16,
        TownCouncilTolerance::Lenient => if road { 16 } else { 144 },
        TownCouncilTolerance::Neutral => if road { 64 } else { 208 },
        TownCouncilTolerance::Hostile => if road { 112 } else { 400 },
    }
}

pub fn needed_rating_for_demolition(tolerance: TownCouncilTolerance, check_type: TownRatingCheckType) -> (r: i16)
    ensures
        r == spec_needed_rating(tolerance, check_type),
{
    match tolerance {
        TownCouncilTolerance::Permissive => -1000,
        TownCouncilTolerance::Lenient => match check_type {
            TownRatingCheckType::RoadRemove => 16,
            TownRatingCheckType::TunnelBridgeRemove => 144,
        },
        TownCouncilTolerance::Neutral => match check_type {
            TownRatingCheckType::RoadRemove => 64,
            TownRatingCheckType::TunnelBridgeRemove => 208,
        },
        TownCouncilTolerance::Hostile => match check_type {
            TownRatingCheckType::RoadRemove => 112,
            TownRatingCheckType::TunnelBridgeRemove => 400,
        },
    }
}

/// Whether the council allows a destructive action: always when permissive,
/// otherwise when the company's rating reaches the needed rating.
pub fn check_town_rating(
    town: &Town,
    company: CompanyId,
    check_type: TownRatingCheckType,
    tolerance: TownCouncilTolerance,
) -> (r: bool)
    ensures
        r == (tolerance == TownCouncilTolerance::Permissive || rating_in(town.authority_ratings@, company.0 as int)
            >= spec_needed_rating(tolerance, check_type)),
{
    if tolerance == TownCouncilTolerance::Permissive {
        return true;
    }
    town.authority_rating(company) >= needed_rating_for_demolition(tolerance, check_type)
}

/// Whether the nearest town lets `company` build a station at `pos`: yes
/// with no town, or when the nearest is farther than the authority radius,
/// or when the company's rating there is at least the minimum.
pub open spec fn spec_allows_station(towns: Seq<Town>, pos: TileCoord, company: CompanyId) -> bool {
    match spec_nearest(towns, pos) {
        None => true,
        Some(i) => town_distance(towns[i], pos) > TOWN_AUTHORITY_RADIUS || rating_in(
            towns[i].authority_ratings@,
            company.0 as int,
        ) >= AUTHORITY_MIN_STATION,
    }
}

pub fn authority_allows_new_station(towns: &[Town], pos: TileCoord, company: CompanyId) -> (r: bool)
    ensures
        r == spec_allows_station(towns@, pos, company),
{
    proof {
        lemma_nearest_is_first_minimum(towns@, pos, towns@.len() as int);
    }
    match nearest_town_index(towns, pos) {
        None => true,
        Some((idx, dist)) => {
            if dist > TOWN_AUTHORITY_RADIUS {
                return true;
            }
            towns[idx].authority_rating(company) >= AUTHORITY_MIN_STATION
        },
    }
}

/// Applies the rating penalty for a new station at `pos` to the nearest
/// town within the authority radius, returning that town's id and the change.
pub fn apply_station_build_rating_penalty(towns: &mut Vec<Town>, pos: TileCoord, company: CompanyId) -> (r: Option<(u32, i8)>)
    ensures
        final(towns)@.len() == old(towns)@.len(),
        match spec_nearest(old(towns)@, pos) {
            Some(i) if town_distance(old(towns)@[i], pos) <= TOWN_AUTHORITY_RADIUS => {
                &&& r matches Some((id, d)) && id == old(towns)@[i].id
                    && rating_adjusted(old(towns)@[i], final(towns)@[i], company, STATION_BUILD_RATING_PENALTY, d)
                &&& forall|j: int| 0 <= j < old(towns)@.len() && j != i ==> final(towns)@[j] == old(towns)@[j]
            },
            _ => r is None && final(towns)@ == old(towns)@,
        },
{
    proof {
        lemma_nearest_is_first_minimum(towns@, pos, towns@.len() as int);
    }
    let (idx, dist) = match nearest_town_index(towns.as_slice(), pos) {
        None => return None,
        Some(p) => p,
    };
    if dist > TOWN_AUTHORITY_RADIUS {
        return None;
    }
    let town_id = towns[idx].id;
    let delta = towns[idx].adjust_rating(company, STATION_BUILD_RATING_PENALTY);
    Some((town_id, delta))
}

/// Counts a delivery at `station_pos` for the nearest town within the
/// authority radius; other towns are left alone.
pub fn record_delivery_near_town(towns: &mut Vec<Town>, station_pos: TileCoord, cargo: CargoType, amount: u32)
    ensures
        final(towns)@.len() == old(towns)@.len(),
        match spec_nearest(old(towns)@, station_pos) {
            Some(i) if town_distance(old(towns)@[i], station_pos) <= TOWN_AUTHORITY_RADIUS => {
                &&& delivery_recorded(old(towns)@[i], final(towns)@[i], cargo, amount)
                &&& forall|j: int| 0 <= j < old(towns)@.len() && j != i ==> final(towns)@[j] == old(towns)@[j]
            },
            _ => final(towns)@ == old(towns)@,
        },
{
    proof {
        lemma_nearest_is_first_minimum(towns@, station_pos, towns@.len() as int);
    }
    let (idx, dist) = match nearest_town_index(towns.as_slice(), station_pos) {
        None => return,
        Some(p) => p,
    };
    if dist > TOWN_AUTHORITY_RADIUS {
        return;
    }
    towns[idx].record_town_cargo_delivery(cargo, amount);
}

// ---------------------------------------------------------------------------
// Laws
// ---------------------------------------------------------------------------

/// An adjusted rating always lies in `-1000..=1000`.
pub proof fn lemma_adjusted_rating_in_range(before: Town, after: Town, company: CompanyId, delta: i8, r: i8)
    requires
        rating_adjusted(before, after, company, delta, r),
    ensures
        -1000 <= rating_in(after.authority_ratings@, company.0 as int) <= 1000,
{
    let base = ensured_ratings(before, company.0 + 1);
    assert(base.len() >= company.0 + 1);
}

/// Ratings are per company: adjusting one company's rating leaves every
/// other company's rating as it read before.
pub proof fn lemma_adjust_rating_leaves_others(
    before: Town,
    after: Town,
    company: CompanyId,
    other: CompanyId,
    delta: i8,
    r: i8,
)
    requires
        rating_adjusted(before, after, company, delta, r),
        before.legacy_local_authority_rating is None,
        other != company,
    ensures
        rating_in(after.authority_ratings@, other.0 as int) == rating_in(before.authority_ratings@, other.0 as int),
{
}

/// After recording or clearing a statue, the town reports exactly that for
/// the company, and the other companies' statues are unchanged.
pub proof fn lemma_statue_read_after_write(statues: u16, c: u8, other: u8, present: bool)
    requires
        c < 16,
        other != c,
    ensures
        statue_bit(
            if present { statues | (1u16 << (c as u16)) } else { statues & !(1u16 << (c as u16)) },
            c,
        ) == present,
        statue_bit(
            if present { statues | (1u16 << (c as u16)) } else { statues & !(1u16 << (c as u16)) },
            other,
        ) == statue_bit(statues, other),
{
    let cc = c as u16;
    assert((statues | (1u16 << cc)) & (1u16 << cc) != 0) by (bit_vector)
        requires
            cc < 16,
    ;
    assert((statues & !(1u16 << cc)) & (1u16 << cc) == 0) by (bit_vector)
        requires
            cc < 16,
    ;
    if other < 16 {
        let oo = other as u16;
        assert(((statues | (1u16 << cc)) & (1u16 << oo) != 0) == (statues & (1u16 << oo) != 0)) by (bit_vector)
            requires
                cc < 16,
                oo < 16,
                cc != oo,
        ;
        assert(((statues & !(1u16 << cc)) & (1u16 << oo) != 0) == (statues & (1u16 << oo) != 0)) by (bit_vector)
            requires
                cc < 16,
                oo < 16,
                cc != oo,
        ;
    }
}

/// What the caller reads of the map and the house table for one tile-loop
/// visit of a house.
#[derive(Debug, Clone, Copy)]
pub struct HouseVisit {
    pub pos: TileCoord,
    /// The tile holds a completed house.
    pub completed_house: bool,
    /// The house's age in years.
    pub age: u8,
    /// The house type's minimum life, when its type is known.
    pub minimum_life: Option<u8>,
    pub is_church: bool,
    pub is_stadium: bool,
}

/// A draw of `random_range(limit)` from the state `st`.
pub open spec fn range_draw(st: (u32, u32), limit: u32) -> int {
    (random_step(st).1 as int * limit as int) / 0x1_0000_0000
}

/// The visited house may be renovated by its town: a completed house of a
/// known type past its minimum life.
pub open spec fn house_due_for_renewal(v: HouseVisit) -> bool {
    v.completed_house && match v.minimum_life {
        Some(m) => v.age >= m,
        None => false,
    }
}

/// `t` after its rebuild countdown ticks once.
pub open spec fn rebuild_counted_down(t: Town) -> Town {
    Town { time_until_rebuild: if t.time_until_rebuild > 0 { (t.time_until_rebuild - 1) as u16 } else { 0 }, ..t }
}

/// `after` is the town `t` (its countdown run out) once house `v` was
/// demolished, with the next rebuild `wait` visits away.
pub open spec fn house_demolished(t: Town, after: Town, v: HouseVisit, wait: int) -> bool {
    let houses: u16 = if t.num_houses > 0 { (t.num_houses - 1) as u16 } else { 0 };
    &&& after == (Town {
        time_until_rebuild: wait as u16,
        num_houses: houses,
        has_church: if v.is_church { false } else { t.has_church },
        has_stadium: if v.is_stadium { false } else { t.has_stadium },
        squared_town_zone_radius: after.squared_town_zone_radius,
        ..t
    })
    &&& after.squared_town_zone_radius@ == zone_radii_for(houses)
}

/// `after`, `s_out` and `r` are what one house visit (`house_renovation_step`)
/// makes of the towns `before` and the random state `s_in`.
pub open spec fn house_renovation_stepped(
    before: Seq<Town>,
    after: Seq<Town>,
    visit: HouseVisit,
    s_in: (u32, u32),
    s_out: (u32, u32),
    r: bool,
) -> bool {
    &&& after.len() == before.len()
    &&& {
            let due = house_due_for_renewal(visit);
            let near = spec_nearest(before, visit.pos);
            if !due || near is None || !before[near->Some_0].is_growing {
                &&& !r
                &&& after == before
                &&& s_out == s_in
            } else {
                let i = near->Some_0;
                let t = rebuild_counted_down(before[i]);
                let s0 = s_in;
                let wait = range_draw(random_step(s0), 256) + 192;
                &&& forall|j: int| 0 <= j < before.len() && j != i ==> #[trigger] after[j] == before[j]
                &&& if t.time_until_rebuild != 0 {
                    &&& !r
                    &&& after[i] == t
                    &&& s_out == s0
                } else {
                    &&& r == (range_draw(s0, 256) < HOUSE_REBUILD_CHANCE_NUM)
                    &&& s_out == if r { random_step(random_step(random_step(s0))) } else { random_step(random_step(s0)) }
                    &&& if r {
                        house_demolished(t, after[i], visit, wait)
                    } else {
                        after[i] == Town { time_until_rebuild: wait as u16, ..t }
                    }
                }
            }
        }
}

/// One house visit of the tile loop (`TileLoop_Town` renewal): for a house
/// due for renewal, the nearest town, when growing, counts its rebuild
/// countdown down; once it has run out the town draws a 20/256 chance to
/// demolish the house, and either way schedules the next rebuild 192 to 447
/// visits away. A demolished house leaves the town's house count and its
/// church or stadium, and the zone radii follow, and one more number is
/// drawn: the seed of the house built anew on the tile, which is the
/// second half of the random state after the call. Returns whether the
/// house is demolished (the caller clears the tile and builds anew on it).
pub fn house_renovation_step(towns: &mut Vec<Town>, visit: &HouseVisit, rng: &mut Randomizer) -> (r: bool)
    ensures
        house_renovation_stepped(old(towns)@, final(towns)@, *visit, old(rng).state, final(rng).state, r),
{
    let due = match visit.minimum_life {
        Some(m) => visit.completed_house && visit.age >= m,
        None => false,
    };
    if !due {
        return false;
    }
    proof {
        lemma_nearest_is_first_minimum(towns@, visit.pos, towns@.len() as int);
    }
    let i = match nearest_town_index(towns.as_slice(), visit.pos) {
        Some((i, _)) => i,
        None => {
            return false;
        },
    };
    if !towns[i].is_growing {
        return false;
    }
    count_down_rebuild(&mut towns[i]);
    if towns[i].time_until_rebuild != 0 {
        return false;
    }
    let draw = rng.random_range(HOUSE_REBUILD_CHANCE_DEN);
    let next_wait = rng.random_range(256);
    let wait: u16 = (next_wait + 192) as u16;
    if !(draw < HOUSE_REBUILD_CHANCE_NUM) {
        towns[i].time_until_rebuild = wait;
        return false;
    }
    demolish_house_of(&mut towns[i], visit, wait);
    let _rebuild_seed = rng.next();
    true
}

fn count_down_rebuild(t: &mut Town)
    ensures
        *final(t) == rebuild_counted_down(*old(t)),
{
    if t.time_until_rebuild > 0 {
        t.time_until_rebuild = t.time_until_rebuild - 1;
    }
}

fn demolish_house_of(t: &mut Town, visit: &HouseVisit, wait: u16)
    ensures
        house_demolished(*old(t), *final(t), *visit, wait as int),
{
    t.time_until_rebuild = wait;
    t.num_houses = if t.num_houses > 0 { t.num_houses - 1 } else { 0 };
    if visit.is_church {
        t.has_church = false;
    }
    if visit.is_stadium {
        t.has_stadium = false;
    }
    update_town_radius(t);
}

/// The visits of one tile-loop pass: the towns and random state pass
/// through `mid` and `states` visit after visit, `hits` records which house
/// each visit demolished, and `out` lists the demolished tiles in order.
pub open spec fn renovation_pass(
    visits: Seq<HouseVisit>,
    mid: Seq<Seq<Town>>,
    states: Seq<(u32, u32)>,
    hits: Seq<bool>,
    out: Seq<(TileCoord, u32)>,
) -> bool {
    &&& mid.len() == visits.len() + 1
    &&& states.len() == visits.len() + 1
    &&& hits.len() == visits.len()
    &&& forall|k: int| 0 <= k < visits.len() ==> #[trigger] house_renovation_stepped(
        mid[k],
        mid[k + 1],
        visits[k],
        states[k],
        states[k + 1],
        hits[k],
    )
    &&& out == demolished_tiles(visits, hits, states, visits.len() as int)
}

/// Tiles of the first `k` visits that demolished their house, each with
/// the seed drawn for the house built anew on it.
pub open spec fn demolished_tiles(visits: Seq<HouseVisit>, hits: Seq<bool>, states: Seq<(u32, u32)>, k: int) -> Seq<(TileCoord, u32)>
    decreases k,
{
    if k <= 0 {
        seq![]
    } else if hits[k - 1] {
        demolished_tiles(visits, hits, states, k - 1).push((visits[k - 1].pos, states[k].1))
    } else {
        demolished_tiles(visits, hits, states, k - 1)
    }
}

/// House renewal for the tile-loop visits of a tick, one visit after the
/// other (see `house_renovation_step`). Returns the demolished tiles with
/// the seed of the house to build on each, for the caller to clear the tile
/// and build anew.
pub fn tile_loop_town_house_renovation(towns: &mut Vec<Town>, visits: &Vec<HouseVisit>, rng: &mut Randomizer) -> (r: Vec<(TileCoord, u32)>)
    ensures
        exists|mid: Seq<Seq<Town>>, states: Seq<(u32, u32)>, hits: Seq<bool>| {
            &&& #[trigger] renovation_pass(visits@, mid, states, hits, r@)
            &&& mid[0] == old(towns)@
            &&& mid[visits@.len() as int] == final(towns)@
            &&& states[0] == old(rng).state
            &&& states[visits@.len() as int] == final(rng).state
        },
{
    let ghost mut mid: Seq<Seq<Town>> = seq![towns@];
    let ghost mut states: Seq<(u32, u32)> = seq![rng.state];
    let ghost mut hits: Seq<bool> = seq![];
    let ghost t0 = towns@;
    let ghost r0 = rng.state;
    let mut out: Vec<(TileCoord, u32)> = Vec::new();
    let mut k: usize = 0;
    while k < visits.len()
        invariant
            k <= visits@.len(),
            mid.len() == k + 1,
            states.len() == k + 1,
            hits.len() == k,
            mid[0] == t0,
            states[0] == r0,
            mid[k as int] == towns@,
            states[k as int] == rng.state,
            forall|j: int| 0 <= j < k ==> #[trigger] house_renovation_stepped(
                mid[j],
                mid[j + 1],
                visits@[j],
                states[j],
                states[j + 1],
                hits[j],
            ),
            out@ == demolished_tiles(visits@, hits, states, k as int),
        decreases visits@.len() - k,
    {
        let hit = house_renovation_step(towns, &visits[k], rng);
        if hit {
            out.push((visits[k].pos, rng.state.1));
        }
        proof {
            let old_hits = hits;
            let old_states = states;
            mid = mid.push(towns@);
            states = states.push(rng.state);
            hits = hits.push(hit);
            lemma_demolished_prefix(visits@, old_hits, hits, old_states, states, k as int);
            assert(hits[k as int] == hit);
            assert(states[k as int + 1] == rng.state);
            assert(out@ == demolished_tiles(visits@, hits, states, k as int + 1));
        }
        k = k + 1;
    }
    proof {
        assert(renovation_pass(visits@, mid, states, hits, out@));
    }
    out
}

proof fn lemma_demolished_prefix(visits: Seq<HouseVisit>, a: Seq<bool>, b: Seq<bool>, sa: Seq<(u32, u32)>, sb: Seq<(u32, u32)>, k: int)
    requires
        k <= a.len(),
        k <= b.len(),
        k < sa.len(),
        k < sb.len(),
        forall|j: int| 0 <= j < k ==> a[j] == b[j],
        forall|j: int| 0 <= j <= k ==> sa[j] == sb[j],
    ensures
        demolished_tiles(visits, a, sa, k) == demolished_tiles(visits, b, sb, k),
    decreases k,
{
    if k > 0 {
        lemma_demolished_prefix(visits, a, b, sa, sb, k - 1);
    }
}

/// Ratings read from a save's per-company list: an empty list reads as
/// the initial rating for every company slot.
pub fn authority_ratings_from_saved_list(saved: Vec<i16>) -> (r: Vec<i16>)
    ensures
        saved@.len() > 0 ==> r@ == saved@,
        saved@.len() == 0 ==> r@ == Seq::new(MAX_TOWN_AUTHORITY_COMPANIES as nat, |i: int| TOWN_RATING_INITIAL),
{
    if saved.len() > 0 {
        saved
    } else {
        uniform_ratings(TOWN_RATING_INITIAL)
    }
}

/// Ratings read from the single rating of old saves: every company slot
/// gets it.
pub fn authority_ratings_from_legacy_single(rating: i16) -> (r: Vec<i16>)
    ensures
        r@ == Seq::new(MAX_TOWN_AUTHORITY_COMPANIES as nat, |i: int| rating),
{
    uniform_ratings(rating)
}

fn uniform_ratings(rating: i16) -> (r: Vec<i16>)
    ensures
        r@ == Seq::new(MAX_TOWN_AUTHORITY_COMPANIES as nat, |i: int| rating),
{
    let mut r: Vec<i16> = Vec::new();
    let mut k: usize = 0;
    while k < MAX_TOWN_AUTHORITY_COMPANIES
        invariant
            k <= MAX_TOWN_AUTHORITY_COMPANIES,
            r@ == Seq::new(k as nat, |i: int| rating),
        decreases MAX_TOWN_AUTHORITY_COMPANIES - k,
    {
        r.push(rating);
        k = k + 1;
        assert(r@ =~= Seq::new(k as nat, |i: int| rating));
    }
    r
}

/// The stricter the council, the higher the rating it asks before a
/// company may demolish: lenient asks 16 (road) or 144 (tunnel or bridge),
/// neutral 64 or 208, hostile 112 or 400, and a permissive council allows
/// anything. Removing a road never asks more than removing a tunnel or
/// bridge. Delivering more never unmeets a growth goal.
pub proof fn lemma_stricter_councils_ask_more(check: TownRatingCheckType, goal: u32, received: u32, more: u32, population: u32)
    requires
        received <= more,
    ensures
        spec_needed_rating(TownCouncilTolerance::Lenient, TownRatingCheckType::RoadRemove) == 16,
        spec_needed_rating(TownCouncilTolerance::Lenient, TownRatingCheckType::TunnelBridgeRemove) == 144,
        spec_needed_rating(TownCouncilTolerance::Neutral, TownRatingCheckType::RoadRemove) == 64,
        spec_needed_rating(TownCouncilTolerance::Neutral, TownRatingCheckType::TunnelBridgeRemove) == 208,
        spec_needed_rating(TownCouncilTolerance::Hostile, TownRatingCheckType::RoadRemove) == 112,
        spec_needed_rating(TownCouncilTolerance::Hostile, TownRatingCheckType::TunnelBridgeRemove) == 400,
        spec_needed_rating(TownCouncilTolerance::Permissive, check) <= -1000,
        spec_needed_rating(TownCouncilTolerance::Permissive, check) < spec_needed_rating(TownCouncilTolerance::Lenient, check)
            < spec_needed_rating(TownCouncilTolerance::Neutral, check) < spec_needed_rating(TownCouncilTolerance::Hostile, check),
        spec_goal_satisfied(goal, received, population) ==> spec_goal_satisfied(goal, more, population),
        spec_goal_satisfied(0, received, population),
        goal != 0 && goal != TOWN_GROWTH_WINTER && goal != TOWN_GROWTH_DESERT ==> (spec_goal_satisfied(goal, received, population)
            <==> received >= goal),
{
}

} // verus!
