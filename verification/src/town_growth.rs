//! Monthly town evolution: the council's ratings of the companies serving
//! it, and the town's growth rate.

use vstd::prelude::*;
use crate::common::{manhattan, manhattan_distance, CompanyId, TileCoord};
use crate::town::{
    ensured_ratings, Town, MAX_TOWN_GROWTH_SOURCE_TICKS, RATING_GROWTH_MAXIMUM, RATING_GROWTH_UP_STEP,
    RATING_STATION_DOWN_STEP, RATING_STATION_UP_STEP, TOWN_AUTHORITY_RADIUS, TOWN_GROWTH_RATE_NONE,
};
use crate::town::{town_ticks_to_game_ticks, TOWN_GROWTH_DESERT, TOWN_GROWTH_DESERT_POP_THRESHOLD,
    TOWN_GROWTH_WINTER, TOWN_GROWTH_WINTER_POP_THRESHOLD};
use crate::random::{random_step, Randomizer};
use crate::town_action::{month_ticked, tick_town_authority_months};

verus! {

/// What the town's monthly update reads of a station.
#[derive(Debug, Clone, Copy, PartialEq, Eq, Structural)]
pub struct TownStation {
    pub owner: CompanyId,
    pub pos: TileCoord,
    /// Waypoints and buoys do not count as stations for the town.
    pub is_waypoint_or_buoy: bool,
    /// Some cargo was picked up recently enough (`STATION_ACTIVE_DAYS`).
    pub recently_active: bool,
}

/// A real station within the authority radius of the town.
pub open spec fn is_near_town(town: Town, st: TownStation) -> bool {
    !st.is_waypoint_or_buoy && (if manhattan(st.pos, town.pos) > u32::MAX {
        u32::MAX as int
    } else {
        manhattan(st.pos, town.pos)
    }) <= TOWN_AUTHORITY_RADIUS
}

/// Number of the first `k` stations near the town that were served recently.
pub open spec fn count_active_near(town: Town, stations: Seq<TownStation>, k: int) -> int
    decreases k,
{
    if k <= 0 {
        0
    } else {
        count_active_near(town, stations, k - 1) + if is_near_town(town, stations[k - 1])
            && stations[k - 1].recently_active {
            1int
        } else {
            0int
        }
    }
}

fn station_is_near_town(town: &Town, st: &TownStation) -> (r: bool)
    ensures
        r == is_near_town(*town, *st),
{
    !st.is_waypoint_or_buoy && manhattan_distance(st.pos, town.pos) <= TOWN_AUTHORITY_RADIUS
}

/// Indices, in order, of the first `k` stations that are near the town.
pub open spec fn near_indices(town: Town, stations: Seq<TownStation>, k: int) -> Seq<usize>
    decreases k,
{
    if k <= 0 {
        Seq::empty()
    } else if is_near_town(town, stations[k - 1]) {
        near_indices(town, stations, k - 1).push((k - 1) as usize)
    } else {
        near_indices(town, stations, k - 1)
    }
}

/// Indices of the stations near the town (not waypoints or buoys, within
/// the authority radius), in order.
pub fn stations_near_town(town: &Town, stations: &Vec<TownStation>) -> (r: Vec<usize>)
    ensures
        r@ == near_indices(*town, stations@, stations@.len() as int),
{
    let mut out: Vec<usize> = Vec::new();
    let mut i: usize = 0;
    while i < stations.len()
        invariant
            i <= stations@.len(),
            out@ == near_indices(*town, stations@, i as int),
        decreases stations@.len() - i,
    {
        if station_is_near_town(town, &stations[i]) {
            out.push(i);
        }
        i = i + 1;
    }
    out
}

/// Stations near the town with recent service.
pub fn count_active_stations_near_town(town: &Town, stations: &Vec<TownStation>) -> (r: usize)
    ensures
        r == count_active_near(*town, stations@, stations@.len() as int),
{
    let mut n: usize = 0;
    let mut i: usize = 0;
    while i < stations.len()
        invariant
            i <= stations@.len(),
            n == count_active_near(*town, stations@, i as int),
            n <= i,
        decreases stations@.len() - i,
    {
        if station_is_near_town(town, &stations[i]) && stations[i].recently_active {
            n = n + 1;
        }
        i = i + 1;
    }
    n
}

/// A rating's monthly recovery: below the recovery ceiling it rises by the
/// step, up to the ceiling.
pub open spec fn recovered_rating(r: i16) -> i16 {
    if r < RATING_GROWTH_MAXIMUM {
        if r + RATING_GROWTH_UP_STEP > RATING_GROWTH_MAXIMUM {
            RATING_GROWTH_MAXIMUM
        } else {
            (r + RATING_GROWTH_UP_STEP) as i16
        }
    } else {
        r
    }
}

/// The ratings after the monthly recovery of the first `company_count` slots.
pub open spec fn recovered_ratings(base: Seq<i16>, company_count: int) -> Seq<i16> {
    Seq::new(base.len(), |i: int| if i < company_count { recovered_rating(base[i]) } else { base[i] })
}

/// Rating change a station brings its owner: up when it was served
/// recently, down otherwise.
pub open spec fn station_rating_delta(st: TownStation) -> int {
    if st.recently_active {
        RATING_STATION_UP_STEP as int
    } else {
        RATING_STATION_DOWN_STEP as int
    }
}

/// The ratings after the station pass over the first `k` stations: each
/// station near the town sets its owner's rating to the recovered rating
/// plus its change, clamped; a later station of the same owner wins.
pub open spec fn rated_by_stations(town: Town, recovered: Seq<i16>, stations: Seq<TownStation>, k: int) -> Seq<i16>
    decreases k,
{
    if k <= 0 {
        recovered
    } else {
        let prev = rated_by_stations(town, recovered, stations, k - 1);
        let st = stations[k - 1];
        let idx = st.owner.0 as int;
        if is_near_town(town, st) && idx < recovered.len() {
            let v = recovered[idx] + station_rating_delta(st);
            prev.update(idx, (if v < -1000 { -1000 } else if v > 1000 { 1000 } else { v }) as i16)
        } else {
            prev
        }
    }
}

/// Rating after the monthly recovery step.
fn recover_rating(r: i16) -> (out: i16)
    ensures
        out == recovered_rating(r),
{
    if r < RATING_GROWTH_MAXIMUM {
        let up = r + RATING_GROWTH_UP_STEP as i16;
        if up > RATING_GROWTH_MAXIMUM {
            RATING_GROWTH_MAXIMUM
        } else {
            up
        }
    } else {
        r
    }
}

/// The council's monthly review (`UpdateTownRating`): every company's
/// rating recovers a little towards the ceiling, then each station near the
/// town moves its owner's rating up when served recently and down when not.
pub fn update_town_rating(town: &mut Town, stations: &Vec<TownStation>, company_count: usize)
    ensures
        ({
            let base = ensured_ratings(*old(town), company_count as int);
            let rec = recovered_ratings(base, company_count as int);
            final(town).authority_ratings@ == rated_by_stations(*old(town), rec, stations@, stations@.len() as int)
        }),
        *final(town) == (Town {
            authority_ratings: final(town).authority_ratings,
            legacy_local_authority_rating: None,
            ..*old(town)
        }),
{
    let ghost t0 = *town;
    town.ensure_authority_ratings(company_count);
    let ghost base = town.authority_ratings@;
    let n = town.authority_ratings.len();
    let limit = if company_count < n { company_count } else { n };
    let mut i: usize = 0;
    while i < limit
        invariant
            limit <= n,
            n == town.authority_ratings@.len(),
            base.len() == n,
            i <= limit,
            *town == (Town { authority_ratings: town.authority_ratings, legacy_local_authority_rating: None, ..t0 }),
            forall|j: int| 0 <= j < i ==> town.authority_ratings@[j] == recovered_rating(base[j]),
            forall|j: int| i <= j < n ==> town.authority_ratings@[j] == base[j],
        decreases limit - i,
    {
        let r = town.authority_ratings[i];
        town.authority_ratings.set(i, recover_rating(r));
        i = i + 1;
    }
    let ghost rec = recovered_ratings(base, company_count as int);
    assert(town.authority_ratings@ =~= rec);
    let recovered: Vec<i16> = town.authority_ratings.clone();
    assert(recovered@ =~= rec);
    let mut k: usize = 0;
    while k < stations.len()
        invariant
            k <= stations@.len(),
            recovered@ == rec,
            rec.len() == n,
            town.authority_ratings@ == rated_by_stations(t0, rec, stations@, k as int),
            town.authority_ratings@.len() == n,
            *town == (Town { authority_ratings: town.authority_ratings, legacy_local_authority_rating: None, ..t0 }),
            t0.pos == town.pos,
        decreases stations@.len() - k,
    {
        let st = stations[k];
        let idx = st.owner.0 as usize;
        if station_is_near_town(town, &st) && idx < n {
            let delta: i32 = if st.recently_active {
                RATING_STATION_UP_STEP as i32
            } else {
                RATING_STATION_DOWN_STEP as i32
            };
            let v: i32 = recovered[idx] as i32 + delta;
            let clamped: i16 = if v < -1000 {
                -1000
            } else if v > 1000 {
                1000
            } else {
                v as i16
            };
            town.authority_ratings.set(idx, clamped);
        }
        k = k + 1;
    }
}

/// Growth periods in town ticks by the number of active stations (0..=5),
/// without and with funded buildings.
pub open spec fn grow_count_value(funded: bool, active: int) -> u16 {
    let i = if active > 5 { 5 } else { active };
    if funded {
        if i <= 2 { 120 } else if i == 3 { 100 } else if i == 4 { 80 } else { 60 }
    } else {
        if i == 0 { 320 } else if i == 1 { 420 } else if i == 2 { 300 } else if i == 3 { 220 } else if i == 4 { 160 } else { 100 }
    }
}

/// Divisor of the growth period by the houses in the town's reach: one more
/// per fifty houses (1 when that does not fit in 16 bits).
pub open spec fn house_divisor(house_tiles: u32) -> int {
    let d = house_tiles / 50 + 1;
    if d > u16::MAX { 1 } else { d }
}

/// The normal growth rate in game ticks (`GetNormalGrowthRate`), from the
/// number of recently served stations near the town and the houses around it.
pub open spec fn spec_normal_growth_rate(funded: bool, active_stations: int, house_tiles: u32) -> int {
    let ticks: int = (grow_count_value(funded, active_stations) as int) / house_divisor(house_tiles);
    (if ticks < MAX_TOWN_GROWTH_SOURCE_TICKS { ticks } else { MAX_TOWN_GROWTH_SOURCE_TICKS as int } + 1) * 70 - 1
}

fn grow_count_of(funded: bool, active: usize) -> (r: u16)
    ensures
        r == grow_count_value(funded, active as int),
{
    let i = if active > 5 { 5 } else { active };
    if funded {
        if i <= 2 { 120 } else if i == 3 { 100 } else if i == 4 { 80 } else { 60 }
    } else {
        if i == 0 { 320 } else if i == 1 { 420 } else if i == 2 { 300 } else if i == 3 { 220 } else if i == 4 { 160 } else { 100 }
    }
}

/// Growth rate of `town` given its recently served stations and the houses
/// its stations reach; funded buildings speed growth up.
pub fn get_normal_growth_rate(town: &Town, active_stations: usize, house_tiles: u32) -> (r: u16)
    ensures
        r == spec_normal_growth_rate(town.fund_buildings_months > 0, active_stations as int, house_tiles),
{
    let m = grow_count_of(town.fund_buildings_months > 0, active_stations);
    let d32: u32 = house_tiles / 50 + 1;
    let divisor: u16 = if d32 > u16::MAX as u32 { 1 } else { d32 as u16 };
    town_ticks_to_game_ticks(m / divisor)
}

/// The growth counter carried over a change of growth rate: kept in
/// proportion to the new rate (capped to the rate when growth was off).
pub open spec fn spec_rescaled_grow_counter(counter: u16, rate: u16, prev_rate: u16) -> u16 {
    if rate == TOWN_GROWTH_RATE_NONE {
        counter
    } else if prev_rate == TOWN_GROWTH_RATE_NONE {
        if rate < counter { rate } else { counter }
    } else {
        let next = counter as int * (rate as int + 1) / (prev_rate as int + 1);
        if next > u16::MAX { rate } else { next as u16 }
    }
}

/// Rescales the grow counter after the growth rate changed from `prev_growth_rate`.
pub fn update_town_grow_counter(town: &mut Town, prev_growth_rate: u16)
    ensures
        *final(town) == (Town {
            grow_counter: spec_rescaled_grow_counter(old(town).grow_counter, old(town).growth_rate, prev_growth_rate),
            ..*old(town)
        }),
{
    if town.growth_rate == TOWN_GROWTH_RATE_NONE {
        return;
    }
    if prev_growth_rate == TOWN_GROWTH_RATE_NONE {
        if town.growth_rate < town.grow_counter {
            town.grow_counter = town.growth_rate;
        }
        return;
    }
    let c = town.grow_counter as u32;
    let g = town.growth_rate as u32 + 1;
    proof {
        vstd::arithmetic::mul::lemma_mul_upper_bound(c as int, 65535, g as int, 65536);
    }
    let next: u32 = c * g / (prev_growth_rate as u32 + 1);
    town.grow_counter = if next > u16::MAX as u32 { town.growth_rate } else { next as u16 };
}

/// Sets the normal growth rate and carries the grow counter over.
pub fn update_town_growth_rate(town: &mut Town, active_stations: usize, house_tiles: u32)
    ensures
        ({
            let rate = spec_normal_growth_rate(old(town).fund_buildings_months > 0, active_stations as int, house_tiles) as u16;
            *final(town) == (Town {
                growth_rate: rate,
                grow_counter: spec_rescaled_grow_counter(old(town).grow_counter, rate, old(town).growth_rate),
                ..*old(town)
            })
        }),
{
    let old_rate = town.growth_rate;
    town.growth_rate = get_normal_growth_rate(town, active_stations, house_tiles);
    update_town_grow_counter(town, old_rate);
}

/// The monthly recovery never lowers a rating and never lifts one past the
/// recovery ceiling it was below.
pub proof fn lemma_recovery_is_bounded(r: i16)
    ensures
        recovered_rating(r) >= r,
        r < RATING_GROWTH_MAXIMUM ==> recovered_rating(r) <= RATING_GROWTH_MAXIMUM,
        r >= RATING_GROWTH_MAXIMUM ==> recovered_rating(r) == r,
{
}

/// The station pass keeps every rating in the rating range when it started there.
pub proof fn lemma_station_pass_keeps_range(town: Town, recovered: Seq<i16>, stations: Seq<TownStation>, k: int)
    requires
        forall|i: int| 0 <= i < recovered.len() ==> -1000 <= #[trigger] recovered[i] <= 1000,
    ensures
        rated_by_stations(town, recovered, stations, k).len() == recovered.len(),
        forall|i: int| 0 <= i < recovered.len() ==> -1000 <= #[trigger] rated_by_stations(town, recovered, stations, k)[i] <= 1000,
    decreases k,
{
    if k > 0 {
        lemma_station_pass_keeps_range(town, recovered, stations, k - 1);
    }
}

/// Whether a growth goal is met (`UpdateTownGrowth`): none, or enough
/// cargo received; the winter goal only binds a town above the snow line
/// with more than 90 inhabitants, the desert goal only a town in the desert
/// with more than 60, and then any delivery meets them.
pub open spec fn spec_goal_satisfied_here(
    goal: u32,
    received: u32,
    population: u32,
    above_snow_line: bool,
    in_desert: bool,
) -> bool {
    if goal == 0 {
        true
    } else if goal == TOWN_GROWTH_WINTER {
        population <= TOWN_GROWTH_WINTER_POP_THRESHOLD || !above_snow_line || received > 0
    } else if goal == TOWN_GROWTH_DESERT {
        population <= TOWN_GROWTH_DESERT_POP_THRESHOLD || !in_desert || received > 0
    } else {
        received >= goal
    }
}

/// A growth goal with the town's place on the map known: whether its tile
/// is at or above the snow line and whether it lies in the desert.
pub fn town_goal_satisfied_with_context(
    goal: u32,
    received: u32,
    population: u32,
    above_snow_line: bool,
    in_desert: bool,
) -> (r: bool)
    ensures
        r == spec_goal_satisfied_here(goal, received, population, above_snow_line, in_desert),
{
    if goal == 0 {
        return true;
    }
    if goal == TOWN_GROWTH_WINTER {
        if population <= TOWN_GROWTH_WINTER_POP_THRESHOLD {
            return true;
        }
        if !above_snow_line {
            return true;
        }
        return received > 0;
    }
    if goal == TOWN_GROWTH_DESERT {
        if population <= TOWN_GROWTH_DESERT_POP_THRESHOLD {
            return true;
        }
        if !in_desert {
            return true;
        }
        return received > 0;
    }
    received >= goal
}

/// Every growth goal of the town is met by last month's deliveries.
pub open spec fn all_goals_met(t: Town, above_snow_line: bool, in_desert: bool) -> bool {
    forall|i: int| 0 <= i < 5 ==> #[trigger] spec_goal_satisfied_here(
        t.goals[i],
        t.received_old[i],
        t.population,
        above_snow_line,
        in_desert,
    )
}

/// The growth gate draws a one-in-twelve chance only for a served town
/// with goals met but no recently active station.
pub open spec fn needs_growth_roll(t: Town, stations: Seq<TownStation>, above_snow_line: bool, in_desert: bool) -> bool {
    &&& t.fund_buildings_months == 0
    &&& near_indices(t, stations, stations.len() as int).len() > 0
    &&& all_goals_met(t, above_snow_line, in_desert)
    &&& count_active_near(t, stations, stations.len() as int) == 0
}

/// Whether the town grows this month (`UpdateTownGrowth`): always while
/// funded; otherwise it needs a station nearby and every goal met, and then
/// either a recently active station or, without one, the roll `roll_ok`.
pub open spec fn spec_town_grows(
    t: Town,
    stations: Seq<TownStation>,
    above_snow_line: bool,
    in_desert: bool,
    roll_ok: bool,
) -> bool {
    if t.fund_buildings_months > 0 {
        true
    } else if near_indices(t, stations, stations.len() as int).len() == 0 {
        false
    } else if !all_goals_met(t, above_snow_line, in_desert) {
        false
    } else {
        count_active_near(t, stations, stations.len() as int) > 0 || roll_ok
    }
}

/// One roll of the generator wins a one-in-twelve chance.
pub open spec fn growth_roll_wins(state: (u32, u32)) -> bool {
    (random_step(state).1 as int * 12) / 0x1_0000_0000 < 1
}

fn all_goals_met_exec(t: &Town, above_snow_line: bool, in_desert: bool) -> (r: bool)
    ensures
        r == all_goals_met(*t, above_snow_line, in_desert),
{
    let mut i: usize = 0;
    while i < 5
        invariant
            i <= 5,
            forall|j: int| 0 <= j < i ==> #[trigger] spec_goal_satisfied_here(
                t.goals[j],
                t.received_old[j],
                t.population,
                above_snow_line,
                in_desert,
            ),
        decreases 5 - i,
    {
        if !town_goal_satisfied_with_context(t.goals[i], t.received_old[i], t.population, above_snow_line, in_desert) {
            return false;
        }
        i = i + 1;
    }
    true
}

/// `n` is `o` after the monthly growth update with the random state going
/// from `r0` to `r1`: the growth rate is refreshed from the active stations
/// and houses, the counter rescaled to it, and the growth decision taken
/// (one random draw when it needs a roll).
pub open spec fn growth_updated(
    o: Town,
    n: Town,
    stations: Seq<TownStation>,
    house_tiles: u32,
    above_snow_line: bool,
    in_desert: bool,
    r0: (u32, u32),
    r1: (u32, u32),
) -> bool {
    let active = count_active_near(o, stations, stations.len() as int);
    let rate = spec_normal_growth_rate(o.fund_buildings_months > 0, active, house_tiles) as u16;
    let roll = needs_growth_roll(o, stations, above_snow_line, in_desert);
    &&& n == (Town {
        growth_rate: rate,
        grow_counter: spec_rescaled_grow_counter(o.grow_counter, rate, o.growth_rate),
        is_growing: spec_town_grows(o, stations, above_snow_line, in_desert, growth_roll_wins(r0)),
        ..o
    })
    &&& r1 == if roll { random_step(r0) } else { r0 }
}

/// The monthly growth update (`UpdateTownGrowth`): refreshes the growth
/// rate from the recently served stations and the houses around, then
/// decides whether the town grows (see `spec_town_grows`).
pub fn update_town_growth_state(
    town: &mut Town,
    stations: &Vec<TownStation>,
    house_tiles: u32,
    above_snow_line: bool,
    in_desert: bool,
    rng: &mut Randomizer,
)
    ensures
        growth_updated(
            *old(town),
            *final(town),
            stations@,
            house_tiles,
            above_snow_line,
            in_desert,
            old(rng).state,
            final(rng).state,
        ),
        old(town).fund_buildings_months > 0 ==> final(town).is_growing,
        old(town).fund_buildings_months == 0 && (forall|j: int|
            0 <= j < stations@.len() ==> !is_near_town(*old(town), #[trigger] stations@[j])) ==> !final(town).is_growing,
        old(town).fund_buildings_months == 0 && (exists|i: int| 0 <= i < 5 && !#[trigger] spec_goal_satisfied_here(
            old(town).goals[i],
            old(town).received_old[i],
            old(town).population,
            above_snow_line,
            in_desert,
        )) ==> !final(town).is_growing,
{
    let ghost o = *town;
    let ghost r0 = rng.state;
    update_growth_state_of(town, stations, house_tiles, above_snow_line, in_desert, rng);
    proof {
        lemma_growth_gate(o, *town, stations@, house_tiles, above_snow_line, in_desert, r0, rng.state);
    }
}

fn update_growth_state_of(
    town: &mut Town,
    stations: &Vec<TownStation>,
    house_tiles: u32,
    above_snow_line: bool,
    in_desert: bool,
    rng: &mut Randomizer,
)
    ensures
        growth_updated(
            *old(town),
            *final(town),
            stations@,
            house_tiles,
            above_snow_line,
            in_desert,
            old(rng).state,
            final(rng).state,
        ),
{
    let ghost o = *town;
    let active = count_active_stations_near_town(town, stations);
    let near = stations_near_town(town, stations);
    update_town_growth_rate(town, active, house_tiles);
    town.is_growing = false;
    if town.fund_buildings_months > 0 {
        town.is_growing = true;
        return;
    }
    if near.len() == 0 {
        return;
    }
    if !all_goals_met_exec(town, above_snow_line, in_desert) {
        return;
    }
    if active == 0 {
        let draw = rng.random_range(12);
        if !(draw < 1) {
            return;
        }
    }
    town.is_growing = true;
}

/// What the caller reads of the map around one town for its monthly
/// update.
#[derive(Debug, Clone, Copy)]
pub struct TownMapFacts {
    /// House tiles counted for the growth rate.
    pub house_tiles: u32,
    /// The town centre lies above the snow line (arctic climate).
    pub above_snow_line: bool,
    /// The town centre lies in desert (tropic climate).
    pub in_desert: bool,
}

/// The month's delivery totals become last month's, and funded building
/// has one month less to run.
pub open spec fn deliveries_rolled_over(b: Town, c: Town) -> bool {
    c == (Town {
        received_old: b.received_new,
        received_new: [0u32, 0u32, 0u32, 0u32, 0u32],
        fund_buildings_months: if b.fund_buildings_months > 0 { (b.fund_buildings_months - 1) as u8 } else { 0u8 },
        ..b
    })
}

/// The stages of one town's month: `e` with ratings extended to every
/// company, `b` with ratings moved by the nearby stations, `c` with the
/// deliveries rolled over, and `n` after the growth update.
pub open spec fn month_stages(
    t: Town,
    e: Town,
    b: Town,
    c: Town,
    n: Town,
    stations: Seq<TownStation>,
    company_count: int,
    facts: TownMapFacts,
    r0: (u32, u32),
    r1: (u32, u32),
) -> bool {
    &&& e == (Town { authority_ratings: e.authority_ratings, legacy_local_authority_rating: None, ..t })
    &&& e.authority_ratings@ == ensured_ratings(t, company_count)
    &&& b == (Town { authority_ratings: b.authority_ratings, legacy_local_authority_rating: None, ..e })
    &&& b.authority_ratings@ == rated_by_stations(
        e,
        recovered_ratings(ensured_ratings(e, company_count), company_count),
        stations,
        stations.len() as int,
    )
    &&& deliveries_rolled_over(b, c)
    &&& growth_updated(c, n, stations, facts.house_tiles, facts.above_snow_line, facts.in_desert, r0, r1)
}

/// `n` is `t` after its monthly update, before the authority counters
/// tick (see `month_stages`).
pub open spec fn town_month_grown(
    t: Town,
    n: Town,
    stations: Seq<TownStation>,
    company_count: int,
    facts: TownMapFacts,
    r0: (u32, u32),
    r1: (u32, u32),
) -> bool {
    exists|e: Town, b: Town, c: Town|
        #[trigger] month_stages(t, e, b, c, n, stations, company_count, facts, r0, r1)
}

/// `mid` holds the towns of `before` after their monthly update, the
/// random state passing from `r0` through `states` to `r1` town after
/// town, and `after`
/// holds them once their authority counters ticked.
pub open spec fn town_months_passed(
    before: Seq<Town>,
    mid: Seq<Town>,
    after: Seq<Town>,
    states: Seq<(u32, u32)>,
    stations: Seq<TownStation>,
    company_count: int,
    facts: Seq<TownMapFacts>,
    r0: (u32, u32),
    r1: (u32, u32),
) -> bool {
    &&& mid.len() == before.len()
    &&& after.len() == before.len()
    &&& states.len() == before.len() + 1
    &&& states[0] == r0
    &&& states[before.len() as int] == r1
    &&& forall|i: int| 0 <= i < mid.len() ==> #[trigger] town_month_grown(
        before[i],
        mid[i],
        stations,
        company_count,
        facts[i],
        states[i],
        states[i + 1],
    )
    &&& forall|i: int| 0 <= i < mid.len() ==> month_ticked(#[trigger] mid[i], after[i])
}

fn grow_town_for_month(
    town: &mut Town,
    stations: &Vec<TownStation>,
    company_count: usize,
    facts: &TownMapFacts,
    rng: &mut Randomizer,
)
    ensures
        town_month_grown(*old(town), *final(town), stations@, company_count as int, *facts, old(rng).state, final(rng).state),
{
    let ghost t = *town;
    town.ensure_authority_ratings(company_count);
    let ghost e = *town;
    update_town_rating(town, stations, company_count);
    let ghost b = *town;
    town.received_old = town.received_new;
    town.received_new = [0, 0, 0, 0, 0];
    if town.fund_buildings_months > 0 {
        town.fund_buildings_months = town.fund_buildings_months - 1;
    }
    let ghost c = *town;
    let ghost r0 = rng.state;
    update_town_growth_state(town, stations, facts.house_tiles, facts.above_snow_line, facts.in_desert, rng);
    proof {
        assert(e.authority_ratings@ == ensured_ratings(t, company_count as int));
        assert(b.authority_ratings@ == rated_by_stations(
            e,
            recovered_ratings(ensured_ratings(e, company_count as int), company_count as int),
            stations@,
            stations@.len() as int,
        ));
        assert(deliveries_rolled_over(b, c));
        assert(growth_updated(c, *town, stations@, facts.house_tiles, facts.above_snow_line, facts.in_desert, r0, rng.state));
        assert(month_stages(t, e, b, c, *town, stations@, company_count as int, *facts, r0, rng.state));
    }
}

/// The monthly town pass: each town's ratings, deliveries and growth are
/// updated in turn (drawing from one random stream, town after town), then
/// the authority counters of every town tick. `facts` holds one entry per
/// town.
pub fn process_town_monthly_growth(
    towns: &mut Vec<Town>,
    stations: &Vec<TownStation>,
    facts: &Vec<TownMapFacts>,
    rng: &mut Randomizer,
    company_count: usize,
)
    requires
        facts@.len() == old(towns)@.len(),
    ensures
        final(towns)@.len() == old(towns)@.len(),
        exists|mid: Seq<Town>, states: Seq<(u32, u32)>| #[trigger] town_months_passed(
            old(towns)@,
            mid,
            final(towns)@,
            states,
            stations@,
            company_count as int,
            facts@,
            old(rng).state,
            final(rng).state,
        ),
{
    let ghost t0 = towns@;
    let ghost mut states: Seq<(u32, u32)> = seq![rng.state];
    let mut i: usize = 0;
    while i < towns.len()
        invariant
            i <= towns@.len(),
            towns@.len() == t0.len(),
            facts@.len() == t0.len(),
            states.len() == i + 1,
            states[0] == old(rng).state,
            states[i as int] == rng.state,
            forall|j: int| 0 <= j < i ==> #[trigger] town_month_grown(
                t0[j],
                towns@[j],
                stations@,
                company_count as int,
                facts@[j],
                states[j],
                states[j + 1],
            ),
            forall|j: int| i <= j < t0.len() ==> towns@[j] == t0[j],
        decreases t0.len() - i,
    {
        grow_town_for_month(&mut towns[i], stations, company_count, &facts[i], rng);
        proof {
            states = states.push(rng.state);
        }
        i = i + 1;
    }
    let ghost mid = towns@;
    tick_town_authority_months(towns);
    proof {
        assert(town_months_passed(t0, mid, towns@, states, stations@, company_count as int, facts@, old(rng).state, rng.state));
    }
}

/// No station is near exactly when none of the first `k` is.
proof fn lemma_near_indices_empty(town: Town, stations: Seq<TownStation>, k: int)
    requires
        0 <= k <= stations.len(),
    ensures
        near_indices(town, stations, k).len() == 0 <==> forall|j: int| 0 <= j < k ==> !is_near_town(town, #[trigger] stations[j]),
    decreases k,
{
    if k > 0 {
        lemma_near_indices_empty(town, stations, k - 1);
    }
}

/// Law of the monthly growth update: a funded town grows; an unfunded town
/// with no station nearby, or with a growth goal unmet, does not.
pub proof fn lemma_growth_gate(
    o: Town,
    n: Town,
    stations: Seq<TownStation>,
    house_tiles: u32,
    above_snow_line: bool,
    in_desert: bool,
    r0: (u32, u32),
    r1: (u32, u32),
)
    requires
        growth_updated(o, n, stations, house_tiles, above_snow_line, in_desert, r0, r1),
    ensures
        o.fund_buildings_months > 0 ==> n.is_growing,
        o.fund_buildings_months == 0 && (forall|j: int| 0 <= j < stations.len() ==> !is_near_town(o, #[trigger] stations[j]))
            ==> !n.is_growing,
        o.fund_buildings_months == 0 && (exists|i: int| 0 <= i < 5 && !#[trigger] spec_goal_satisfied_here(
            o.goals[i],
            o.received_old[i],
            o.population,
            above_snow_line,
            in_desert,
        )) ==> !n.is_growing,
{
    lemma_near_indices_empty(o, stations, stations.len() as int);
}

/// The normal growth rate follows the period table: a town with `n` recently
/// served stations waits `P[min(n, 5)]` town ticks between growth steps, each
/// town tick being 70 game ticks, with P = 320, 420, 300, 220, 160, 100 town
/// ticks unfunded and 120, 120, 120, 100, 80, 60 with funded buildings; every
/// fifty houses in reach divide the period once more (e.g. two stations and
/// no houses give 21069 game ticks).
pub proof fn lemma_normal_growth_rate_table(funded: bool, active_stations: int, house_tiles: u32)
    requires
        0 <= active_stations,
        house_tiles / 50 + 1 <= u16::MAX,
    ensures
        ({
            let i = if active_stations > 5 { 5 } else { active_stations };
            let p: int = if funded {
                seq![120int, 120, 120, 100, 80, 60][i]
            } else {
                seq![320int, 420, 300, 220, 160, 100][i]
            };
            spec_normal_growth_rate(funded, active_stations, house_tiles)
                == (p / (house_tiles / 50 + 1) + 1) * 70 - 1
        }),
        house_tiles < 50 ==> spec_normal_growth_rate(false, active_stations, house_tiles) == if active_stations
            == 0 {
            22469int
        } else if active_stations == 1 {
            29469
        } else if active_stations == 2 {
            21069
        } else if active_stations == 3 {
            15469
        } else if active_stations == 4 {
            11269
        } else {
            7069
        },
        house_tiles < 50 ==> spec_normal_growth_rate(true, active_stations, house_tiles) == if active_stations
            <= 2 {
            8469int
        } else if active_stations == 3 {
            7069
        } else if active_stations == 4 {
            5669
        } else {
            4269
        },
        spec_normal_growth_rate(funded, active_stations + 1, house_tiles) <= spec_normal_growth_rate(
            funded,
            active_stations,
            house_tiles,
        ) || active_stations == 0,
{
    let d: int = house_tiles / 50 + 1;
    assert(d >= 1);
    let i = if active_stations > 5 { 5 } else { active_stations };
    let p: int = grow_count_value(funded, active_stations) as int;
    assert(p <= 420);
    assert(p / d <= p) by (nonlinear_arith)
        requires p >= 0, d >= 1;
    if house_tiles < 50 {
        assert(house_tiles / 50 == 0);
        let pu: int = grow_count_value(false, active_stations) as int;
        let pf: int = grow_count_value(true, active_stations) as int;
        assert(pu / 1 == pu) by (nonlinear_arith);
        assert(pf / 1 == pf) by (nonlinear_arith);
    }
    let q: int = grow_count_value(funded, active_stations + 1) as int;
    if active_stations > 0 {
        assert(q <= p);
        assert(q / d <= p / d) by (nonlinear_arith)
            requires 0 <= q <= p, d >= 1;
    }
}

} // verus!
