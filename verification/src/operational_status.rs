//! Tallies of vehicles with operational problems, kept apart from how they
//! are shown.

use vstd::prelude::*;
use crate::common::{abs_int, TileCoord, VehicleKind};
use crate::order::VehicleOrder;
use crate::vehicle::Vehicle;

verus! {

/// One kind of problem: how many vehicles have it, and the first of them.
#[derive(Debug, Clone, PartialEq, Eq)]
pub struct VehicleIssueDetail {
    /// Number of vehicles affected.
    pub count: usize,
    /// Ids of affected vehicles kept as examples (only the first one).
    pub example_vehicle_ids: Vec<u32>,
}

impl VehicleIssueDetail {
    /// No vehicle affected.
    pub fn new() -> (r: VehicleIssueDetail)
        ensures
            r.count == 0,
            r.example_vehicle_ids@ == Seq::<u32>::empty(),
    {
        VehicleIssueDetail { count: 0, example_vehicle_ids: Vec::new() }
    }

    /// Counts one more affected vehicle; the first one counted is kept as
    /// the example.
    pub fn add_vehicle(&mut self, vehicle_id: u32)
        requires
            old(self).count < usize::MAX,
        ensures
            final(self).count == old(self).count + 1,
            final(self).example_vehicle_ids@ == if old(self).example_vehicle_ids@.len() == 0 {
                seq![vehicle_id]
            } else {
                old(self).example_vehicle_ids@
            },
    {
        self.count = self.count + 1;
        if self.example_vehicle_ids.len() == 0 {
            self.example_vehicle_ids.push(vehicle_id);
            assert(self.example_vehicle_ids@ =~= seq![vehicle_id]);
        }
    }
}

impl Default for VehicleIssueDetail {
    fn default() -> (r: VehicleIssueDetail)
        ensures
            r.count == 0,
            r.example_vehicle_ids@ == Seq::<u32>::empty(),
    {
        VehicleIssueDetail::new()
    }
}

/// Vehicles with operational problems, by kind of problem.
#[derive(Debug, Clone, PartialEq, Eq)]
pub struct VehicleOperationalSummary {
    /// No route over the network to the current order.
    pub no_network_route: VehicleIssueDetail,
    /// Running without orders.
    pub no_orders: VehicleIssueDetail,
    /// Ordered to a stop that cannot serve the vehicle.
    pub incompatible_stop: VehicleIssueDetail,
    /// Waiting for cargo that is not there.
    pub waiting_cargo: VehicleIssueDetail,
    /// Trains waiting at a path signal.
    pub pbs_stuck: VehicleIssueDetail,
}

impl Default for VehicleOperationalSummary {
    fn default() -> (r: VehicleOperationalSummary)
        ensures
            r.no_network_route.count == 0,
            r.no_orders.count == 0,
            r.incompatible_stop.count == 0,
            r.waiting_cargo.count == 0,
            r.pbs_stuck.count == 0,
            r.no_network_route.example_vehicle_ids@.len() == 0,
            r.no_orders.example_vehicle_ids@.len() == 0,
            r.incompatible_stop.example_vehicle_ids@.len() == 0,
            r.waiting_cargo.example_vehicle_ids@.len() == 0,
            r.pbs_stuck.example_vehicle_ids@.len() == 0,
    {
        VehicleOperationalSummary {
            no_network_route: VehicleIssueDetail::new(),
            no_orders: VehicleIssueDetail::new(),
            incompatible_stop: VehicleIssueDetail::new(),
            waiting_cargo: VehicleIssueDetail::new(),
            pbs_stuck: VehicleIssueDetail::new(),
        }
    }
}

impl VehicleOperationalSummary {
    /// Whether any kind of problem has at least one vehicle.
    pub fn has_any_issues(&self) -> (r: bool)
        ensures
            r == (self.no_network_route.count > 0 || self.no_orders.count > 0 || self.incompatible_stop.count > 0
                || self.waiting_cargo.count > 0 || self.pbs_stuck.count > 0),
    {
        self.no_network_route.count > 0 || self.no_orders.count > 0 || self.incompatible_stop.count > 0
            || self.waiting_cargo.count > 0 || self.pbs_stuck.count > 0
    }
}

/// What the analysis reads of a stop (a station, waypoint or buoy).
#[derive(Debug, Clone, Copy)]
pub struct StopFacts {
    pub pos: TileCoord,
    pub is_waypoint: bool,
    /// Whether the stop can serve each vehicle kind, in the order of
    /// `VehicleKind` (truck, bus, tram, train, ship, aircraft).
    pub serves: [bool; 6],
    /// Passengers or mail are waiting.
    pub has_passengers_or_mail: bool,
    /// Freight that a vehicle could load is waiting.
    pub has_freight: bool,
    /// An industry in the stop's coverage holds cargo that the stop takes.
    pub industry_supply: bool,
}

pub open spec fn kind_index(k: VehicleKind) -> int {
    match k {
        VehicleKind::Truck => 0,
        VehicleKind::Bus => 1,
        VehicleKind::Tram => 2,
        VehicleKind::Train => 3,
        VehicleKind::Ship => 4,
        VehicleKind::Aircraft => 5,
    }
}

fn kind_index_exec(k: VehicleKind) -> (r: usize)
    ensures
        r == kind_index(k),
        r < 6,
{
    match k {
        VehicleKind::Truck => 0,
        VehicleKind::Bus => 1,
        VehicleKind::Tram => 2,
        VehicleKind::Train => 3,
        VehicleKind::Ship => 4,
        VehicleKind::Aircraft => 5,
    }
}

/// First of the first `k` stops standing on `pos`.
pub open spec fn stop_at_upto(stops: Seq<StopFacts>, pos: TileCoord, k: int) -> Option<int>
    decreases k,
{
    if k <= 0 {
        None
    } else {
        match stop_at_upto(stops, pos, k - 1) {
            Some(i) => Some(i),
            None => if stops[k - 1].pos == pos { Some(k - 1) } else { None },
        }
    }
}

pub open spec fn stop_at(stops: Seq<StopFacts>, pos: TileCoord) -> Option<int> {
    stop_at_upto(stops, pos, stops.len() as int)
}

/// The current order of a running vehicle with orders names a stop that
/// cannot serve it: a station that does not serve its kind or is only a
/// waypoint, or a waypoint missing or not serving its kind.
pub open spec fn has_incompatible_stop(v: Vehicle, stops: Seq<StopFacts>) -> bool {
    if !v.running || v.orders@.len() == 0 || v.current_order >= v.orders@.len() {
        false
    } else {
        match v.orders@[v.current_order as int] {
            VehicleOrder::Station { station, .. } => match stop_at(stops, station) {
                Some(i) => !stops[i].serves[kind_index(v.kind)] || stops[i].is_waypoint,
                None => false,
            },
            VehicleOrder::Waypoint { waypoint, .. } => match stop_at(stops, waypoint) {
                Some(i) => !stops[i].serves[kind_index(v.kind)],
                None => true,
            },
            _ => false,
        }
    }
}

/// `tile` lies within one tile of `stop` (or on it).
pub open spec fn within_one_tile(stop: TileCoord, tile: TileCoord) -> bool {
    abs_int(stop.x - tile.x) <= 1 && abs_int(stop.y - tile.y) <= 1
}

/// An empty running vehicle with a route, at the station of its current
/// order, which serves it but has nothing for it to load and no industry
/// supplying it.
pub open spec fn waiting_for_missing_cargo(v: Vehicle, stops: Seq<StopFacts>) -> bool {
    if !v.running || v.cargo > 0 || v.no_network_route_to_order || v.orders@.len() == 0
        || v.current_order >= v.orders@.len() {
        false
    } else {
        match v.orders@[v.current_order as int] {
            VehicleOrder::Station { station, .. } => if !within_one_tile(station, v.pos) {
                false
            } else {
                match stop_at(stops, station) {
                    None => false,
                    Some(i) => {
                        let st = stops[i];
                        let station_has = match v.kind {
                            VehicleKind::Bus | VehicleKind::Tram => st.has_passengers_or_mail,
                            VehicleKind::Truck | VehicleKind::Train | VehicleKind::Ship => st.has_freight,
                            VehicleKind::Aircraft => false,
                        };
                        st.serves[kind_index(v.kind)] && !st.industry_supply && !station_has
                    },
                }
            },
            _ => false,
        }
    }
}

/// The five problems the summary tracks, by position.
pub open spec fn issue_of(which: int, v: Vehicle, stops: Seq<StopFacts>) -> bool {
    if which == 0 {
        v.running && v.no_network_route_to_order
    } else if which == 1 {
        v.running && v.orders@.len() == 0
    } else if which == 2 {
        has_incompatible_stop(v, stops)
    } else if which == 3 {
        waiting_for_missing_cargo(v, stops)
    } else {
        v.running && v.pbs_stuck
    }
}

/// Vehicles among the first `k` with problem `which`.
pub open spec fn issue_count(vs: Seq<Vehicle>, stops: Seq<StopFacts>, which: int, k: int) -> int
    decreases k,
{
    if k <= 0 {
        0
    } else {
        issue_count(vs, stops, which, k - 1) + if issue_of(which, vs[k - 1], stops) { 1int } else { 0int }
    }
}

/// Id of the first of the first `k` vehicles with problem `which`.
pub open spec fn first_with_issue(vs: Seq<Vehicle>, stops: Seq<StopFacts>, which: int, k: int) -> Option<u32>
    decreases k,
{
    if k <= 0 {
        None
    } else {
        match first_with_issue(vs, stops, which, k - 1) {
            Some(id) => Some(id),
            None => if issue_of(which, vs[k - 1], stops) { Some(vs[k - 1].id) } else { None },
        }
    }
}

/// `d` tallies problem `which` over the first `k` vehicles.
pub open spec fn tallied(d: VehicleIssueDetail, vs: Seq<Vehicle>, stops: Seq<StopFacts>, which: int, k: int) -> bool {
    &&& d.count == issue_count(vs, stops, which, k)
    &&& d.example_vehicle_ids@ == match first_with_issue(vs, stops, which, k) {
        Some(id) => seq![id],
        None => Seq::<u32>::empty(),
    }
}

fn stop_index(stops: &Vec<StopFacts>, pos: TileCoord) -> (r: Option<usize>)
    ensures
        match r {
            Some(i) => stop_at(stops@, pos) == Some(i as int) && i < stops@.len(),
            None => stop_at(stops@, pos) is None,
        },
{
    let mut k: usize = 0;
    while k < stops.len()
        invariant
            k <= stops@.len(),
            stop_at_upto(stops@, pos, k as int) is None,
        decreases stops@.len() - k,
    {
        if stops[k].pos == pos {
            proof {
                lemma_stop_at_found(stops@, pos, k as int + 1, stops@.len() as int);
            }
            return Some(k);
        }
        k = k + 1;
    }
    None
}

proof fn lemma_stop_at_found(stops: Seq<StopFacts>, pos: TileCoord, k: int, m: int)
    requires
        k <= m,
        stop_at_upto(stops, pos, k) is Some,
    ensures
        stop_at_upto(stops, pos, m) == stop_at_upto(stops, pos, k),
    decreases m - k,
{
    if k < m {
        lemma_stop_at_found(stops, pos, k, m - 1);
    }
}

fn vehicle_has_incompatible_stop(v: &Vehicle, stops: &Vec<StopFacts>) -> (r: bool)
    ensures
        r == has_incompatible_stop(*v, stops@),
{
    if !v.running || v.orders.len() == 0 || v.current_order >= v.orders.len() {
        return false;
    }
    let ki = kind_index_exec(v.kind);
    match v.orders[v.current_order] {
        VehicleOrder::Station { station, .. } => match stop_index(stops, station) {
            Some(i) => !stops[i].serves[ki] || stops[i].is_waypoint,
            None => false,
        },
        VehicleOrder::Waypoint { waypoint, .. } => match stop_index(stops, waypoint) {
            Some(i) => !stops[i].serves[ki],
            None => true,
        },
        _ => false,
    }
}

fn vehicle_waiting_for_cargo(v: &Vehicle, stops: &Vec<StopFacts>) -> (r: bool)
    ensures
        r == waiting_for_missing_cargo(*v, stops@),
{
    if !v.running || v.cargo > 0 || v.no_network_route_to_order || v.orders.len() == 0
        || v.current_order >= v.orders.len() {
        return false;
    }
    let station = match v.orders[v.current_order] {
        VehicleOrder::Station { station, .. } => station,
        _ => {
            return false;
        },
    };
    let dx = crate::common::abs_diff_i32(station.x, v.pos.x);
    let dy = crate::common::abs_diff_i32(station.y, v.pos.y);
    if dx > 1 || dy > 1 {
        return false;
    }
    let i = match stop_index(stops, station) {
        None => {
            return false;
        },
        Some(i) => i,
    };
    let st = stops[i];
    if !st.serves[kind_index_exec(v.kind)] {
        return false;
    }
    let station_has = match v.kind {
        VehicleKind::Bus | VehicleKind::Tram => st.has_passengers_or_mail,
        VehicleKind::Truck | VehicleKind::Train | VehicleKind::Ship => st.has_freight,
        VehicleKind::Aircraft => false,
    };
    !st.industry_supply && !station_has
}

fn tally(d: &mut VehicleIssueDetail, hit: bool, id: u32)
    requires
        old(d).count < usize::MAX,
    ensures
        final(d).count == old(d).count + if hit { 1int } else { 0int },
        final(d).example_vehicle_ids@ == if hit && old(d).example_vehicle_ids@.len() == 0 {
            seq![id]
        } else {
            old(d).example_vehicle_ids@
        },
{
    if hit {
        d.add_vehicle(id);
    }
}

impl VehicleOperationalSummary {
    /// Tallies the problems of all vehicles against the stops they serve.
    pub fn analyze(vehicles: &Vec<Vehicle>, stops: &Vec<StopFacts>) -> (r: VehicleOperationalSummary)
        requires
            vehicles@.len() < usize::MAX,
        ensures
            tallied(r.no_network_route, vehicles@, stops@, 0, vehicles@.len() as int),
            tallied(r.no_orders, vehicles@, stops@, 1, vehicles@.len() as int),
            tallied(r.incompatible_stop, vehicles@, stops@, 2, vehicles@.len() as int),
            tallied(r.waiting_cargo, vehicles@, stops@, 3, vehicles@.len() as int),
            tallied(r.pbs_stuck, vehicles@, stops@, 4, vehicles@.len() as int),
    {
        let mut summary = VehicleOperationalSummary::default();
        proof {
            assert(summary.no_network_route.example_vehicle_ids@ =~= Seq::<u32>::empty());
            assert(summary.no_orders.example_vehicle_ids@ =~= Seq::<u32>::empty());
            assert(summary.incompatible_stop.example_vehicle_ids@ =~= Seq::<u32>::empty());
            assert(summary.waiting_cargo.example_vehicle_ids@ =~= Seq::<u32>::empty());
            assert(summary.pbs_stuck.example_vehicle_ids@ =~= Seq::<u32>::empty());
        }
        let mut k: usize = 0;
        while k < vehicles.len()
            invariant
                k <= vehicles@.len(),
                vehicles@.len() < usize::MAX,
                tallied(summary.no_network_route, vehicles@, stops@, 0, k as int),
                tallied(summary.no_orders, vehicles@, stops@, 1, k as int),
                tallied(summary.incompatible_stop, vehicles@, stops@, 2, k as int),
                tallied(summary.waiting_cargo, vehicles@, stops@, 3, k as int),
                tallied(summary.pbs_stuck, vehicles@, stops@, 4, k as int),
                forall|w: int| 0 <= w < 5 ==> #[trigger] issue_count(vehicles@, stops@, w, k as int) <= k,
            decreases vehicles@.len() - k,
        {
            let v = &vehicles[k];
            proof {
                assert forall|w: int| 0 <= w < 5 implies #[trigger] issue_count(vehicles@, stops@, w, k + 1) <= k + 1 by {
                    assert(issue_count(vehicles@, stops@, w, k as int) <= k);
                }
                assert(issue_count(vehicles@, stops@, 0, k as int) <= k);
                assert(issue_count(vehicles@, stops@, 1, k as int) <= k);
                assert(issue_count(vehicles@, stops@, 2, k as int) <= k);
                assert(issue_count(vehicles@, stops@, 3, k as int) <= k);
                assert(issue_count(vehicles@, stops@, 4, k as int) <= k);
            }
            tally(&mut summary.no_network_route, v.running && v.no_network_route_to_order, v.id);
            tally(&mut summary.no_orders, v.running && v.orders.len() == 0, v.id);
            let incompatible = vehicle_has_incompatible_stop(v, stops);
            tally(&mut summary.incompatible_stop, incompatible, v.id);
            let waiting = vehicle_waiting_for_cargo(v, stops);
            tally(&mut summary.waiting_cargo, waiting, v.id);
            tally(&mut summary.pbs_stuck, v.running && v.pbs_stuck, v.id);
            k = k + 1;
        }
        summary
    }
}

/// The problem tally counts vehicles: between none and all of them; some
/// vehicle is given as an example exactly when the count is positive, and the
/// example is a vehicle with that problem; stopped vehicles are never counted
/// as lacking a route, lacking orders, or stuck at a signal.
pub proof fn lemma_issue_tally_counts_vehicles(vs: Seq<Vehicle>, stops: Seq<StopFacts>, which: int, k: int)
    requires
        0 <= k <= vs.len(),
    ensures
        0 <= issue_count(vs, stops, which, k) <= k,
        issue_count(vs, stops, which, k) > 0 <==> first_with_issue(vs, stops, which, k) is Some,
        first_with_issue(vs, stops, which, k) matches Some(id) ==> exists|i: int|
            0 <= i < k && (#[trigger] vs[i]).id == id && issue_of(which, vs[i], stops),
        (which == 0 || which == 1 || which == 4) && (forall|i: int| 0 <= i < k ==> !(#[trigger] vs[i]).running)
            ==> issue_count(vs, stops, which, k) == 0,
    decreases k,
{
    if k > 0 {
        lemma_issue_tally_counts_vehicles(vs, stops, which, k - 1);
        if (which == 0 || which == 1 || which == 4) && (forall|i: int| 0 <= i < k ==> !(#[trigger] vs[i]).running) {
            assert(!vs[k - 1].running);
            assert(forall|i: int| 0 <= i < k - 1 ==> !(#[trigger] vs[i]).running);
        }
        match first_with_issue(vs, stops, which, k) {
            Some(id) => {
                match first_with_issue(vs, stops, which, k - 1) {
                    Some(id0) => {},
                    None => {
                        assert(vs[k - 1].id == id && issue_of(which, vs[k - 1], stops));
                    },
                }
            },
            None => {},
        }
    }
}

} // verus!
