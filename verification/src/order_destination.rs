//! Resolving where the current order sends a vehicle (`ProcessOrders` /
//! `UpdateOrderDest`): optional depot visits are skipped when no service is
//! due, missing depots fall back to the nearest one, and conditional orders
//! are followed, at most once per order in the list.

use vstd::prelude::*;
use crate::common::{TileCoord, VehicleKind};
use crate::order::VehicleOrder;
use crate::order_execution::{conditional_target, lemma_first_real_in_range, real_order_from, sanitized};
use crate::vehicle::{sanitized_index, Vehicle};

verus! {

/// What the map answers about each order of a vehicle, by order index.
pub struct OrderMapFacts {
    /// The tile each order sends the vehicle to (for an aircraft at a
    /// station order, the airport's loading tile).
    pub destination: Vec<TileCoord>,
    /// Whether the depot tile of each depot order holds a depot.
    pub depot_present: Vec<bool>,
    /// Whether the vehicle's current destination is a platform tile of the
    /// rail station of each station order.
    pub dest_on_platform: Vec<bool>,
    /// The depot nearest the vehicle that it can use, if any.
    pub nearest_depot: Option<TileCoord>,
}

/// The facts cover `n` orders.
pub open spec fn facts_cover(f: OrderMapFacts, n: int) -> bool {
    &&& f.destination@.len() == n
    &&& f.depot_present@.len() == n
    &&& f.dest_on_platform@.len() == n
}

/// `v` with the real order index moved past implicit orders.
pub open spec fn real_index_updated(v: Vehicle) -> Vehicle {
    let n = v.orders@.len() as int;
    if n == 0 {
        v
    } else {
        Vehicle {
            current_order: real_order_from(v.orders@, sanitized_index(v.current_order, n)) as usize,
            cur_implicit_order_index: sanitized_index(v.cur_implicit_order_index, n) as usize,
            ..v
        }
    }
}

/// `v` moved on to the real order after the current one.
pub open spec fn real_index_incremented(v: Vehicle) -> Vehicle {
    let n = v.orders@.len() as int;
    if n == 0 {
        v
    } else {
        Vehicle {
            current_order: real_order_from(v.orders@, (v.current_order + 1) % n) as usize,
            cur_implicit_order_index: sanitized_index(v.cur_implicit_order_index, n) as usize,
            ..v
        }
    }
}

/// `v` heading for the destination of order `idx`, except an aircraft
/// already holding a stand, or a train with a path that already heads for a
/// platform tile of the station.
pub open spec fn with_order_destination(v: Vehicle, f: OrderMapFacts, idx: int) -> Vehicle {
    if v.kind == VehicleKind::Aircraft && v.awaiting_load_window {
        v
    } else if v.kind == VehicleKind::Train && v.path@.len() > 0 && v.orders@[idx] is Station
        && f.dest_on_platform@[idx] {
        v
    } else {
        Vehicle { dest: f.destination@[idx], ..v }
    }
}

/// `v` heading for `t`.
pub open spec fn heading_for(v: Vehicle, t: TileCoord) -> Vehicle {
    Vehicle { dest: t, ..v }
}

/// `v` after following the conditional order at `idx` to the order it
/// selects, with the time at the order restarted.
pub open spec fn conditional_jumped(v: Vehicle, idx: int) -> Vehicle {
    let next = conditional_target(v, idx) as usize;
    let j = real_index_updated(Vehicle { cur_implicit_order_index: next, current_order: next, ..v });
    Vehicle { current_order_time: 0, ..j }
}

/// The vehicle after resolving the destination of its current order, with
/// `depth` orders already passed over, and whether a destination was set.
pub open spec fn order_dest_outcome(v: Vehicle, f: OrderMapFacts, depth: int) -> (Vehicle, bool)
    decreases v.orders@.len() + 1 - depth,
{
    let n = v.orders@.len() as int;
    if n == 0 || depth > n {
        (v, false)
    } else {
        let s = sanitized(v);
        let idx = s.current_order as int;
        match s.orders@[idx] {
            VehicleOrder::Conditional { .. } => order_dest_outcome(conditional_jumped(s, idx), f, depth + 1),
            VehicleOrder::Depot { stop, .. } => if !stop {
                if !s.needs_servicing {
                    order_dest_outcome(real_index_incremented(s), f, depth + 1)
                } else {
                    (with_order_destination(s, f, idx), true)
                }
            } else if !f.depot_present@[idx] {
                match f.nearest_depot {
                    Some(t) => (heading_for(s, t), true),
                    None => order_dest_outcome(real_index_incremented(s), f, depth + 1),
                }
            } else {
                (with_order_destination(s, f, idx), true)
            },
            _ => (with_order_destination(s, f, idx), true),
        }
    }
}

/// An order that gives the vehicle a destination of its own.
pub open spec fn is_manual_order(o: VehicleOrder) -> bool {
    match o {
        VehicleOrder::Station { implicit, .. } => !implicit,
        VehicleOrder::Depot { .. } | VehicleOrder::Waypoint { .. } | VehicleOrder::Tile(_) => true,
        VehicleOrder::Conditional { .. } => false,
    }
}

/// The vehicle after `ProcessOrders`, and whether it may reverse: a train
/// standing at the end of its path whose destination was updated.
pub open spec fn process_orders_outcome(v: Vehicle, f: OrderMapFacts) -> (Vehicle, bool) {
    if v.orders@.len() == 0 || v.cargo_loading || v.cargo_unloading || v.awaiting_load_window {
        (v, false)
    } else {
        let may_reverse = v.path@.len() == 0 && v.progress == 255;
        let u = real_index_updated(sanitized(v));
        let o = u.orders@[u.current_order as int];
        if o is Station && o->implicit && !(exists|k: int| 0 <= k < u.orders@.len() && is_manual_order(#[trigger] u.orders@[k])) {
            (u, false)
        } else {
            let (w, updated) = order_dest_outcome(u, f, 0);
            (w, updated && may_reverse)
        }
    }
}

/// The vehicle after its destination is brought in line with its orders.
pub open spec fn order_destination_synced(v: Vehicle, f: OrderMapFacts) -> Vehicle {
    if v.orders@.len() == 0 {
        v
    } else {
        order_dest_outcome(real_index_updated(sanitized(v)), f, 0).0
    }
}

/// Resolving a destination never edits the order list.
pub proof fn lemma_outcome_keeps_orders(v: Vehicle, f: OrderMapFacts, depth: int)
    ensures
        order_dest_outcome(v, f, depth).0.orders == v.orders,
    decreases v.orders@.len() + 1 - depth,
{
    let n = v.orders@.len() as int;
    if n == 0 || depth > n {
    } else {
        let s = sanitized(v);
        let idx = s.current_order as int;
        match s.orders@[idx] {
            VehicleOrder::Conditional { .. } => {
                lemma_outcome_keeps_orders(conditional_jumped(s, idx), f, depth + 1);
            },
            VehicleOrder::Depot { .. } => {
                lemma_outcome_keeps_orders(real_index_incremented(s), f, depth + 1);
            },
            _ => {},
        }
    }
}

proof fn lemma_real_index_in_range(v: Vehicle)
    requires
        v.orders@.len() > 0,
    ensures
        real_index_updated(v).current_order < v.orders@.len(),
        real_index_incremented(v).current_order < v.orders@.len(),
{
    let n = v.orders@.len() as int;
    vstd::arithmetic::div_mod::lemma_mod_pos_bound(v.current_order + 1, n);
    lemma_first_real_in_range(v.orders@, sanitized_index(v.current_order, n), 0);
    lemma_first_real_in_range(v.orders@, (v.current_order + 1) % n, 0);
}

impl Vehicle {
    fn apply_order_destination(&mut self, facts: &OrderMapFacts, idx: usize)
        requires
            idx < old(self).orders@.len(),
            facts_cover(*facts, old(self).orders@.len() as int),
        ensures
            *final(self) == with_order_destination(*old(self), *facts, idx as int),
    {
        if self.kind == VehicleKind::Aircraft && self.awaiting_load_window {
            return;
        }
        let is_station = match self.orders[idx] {
            VehicleOrder::Station { .. } => true,
            _ => false,
        };
        if self.kind == VehicleKind::Train && self.path.len() > 0 && is_station && facts.dest_on_platform[idx] {
            return;
        }
        self.dest = facts.destination[idx];
    }

    fn jump_conditional(&mut self, idx: usize)
        requires
            idx == old(self).current_order,
            idx < old(self).orders@.len(),
            old(self).orders@[idx as int] is Conditional,
        ensures
            *final(self) == conditional_jumped(*old(self), idx as int),
    {
        let order = self.orders[idx];
        let n = self.orders.len();
        assert(idx < n);
        let next = order.evaluate_conditional(self);
        self.cur_implicit_order_index = next;
        self.current_order = next;
        self.update_real_order_index();
        self.current_order_time = 0;
    }

    fn step_to_next_real_order(&mut self)
        ensures
            *final(self) == real_index_incremented(*old(self)),
    {
        self.increment_real_order_index();
    }

    fn head_for(&mut self, t: TileCoord)
        ensures
            *final(self) == heading_for(*old(self), t),
    {
        self.dest = t;
    }

    fn sanitize_orders(&mut self)
        ensures
            *final(self) == sanitized(*old(self)),
    {
        self.sanitize_current_order();
    }

    /// `UpdateOrderDest`: sets the destination of the current order, passing
    /// over optional depot visits that no service calls for, depots that are
    /// gone when no other depot can be found, and conditional orders, at most
    /// once per order in the list. Returns whether a destination was set.
    #[verifier::rlimit(50)]
    pub fn update_order_dest(&mut self, facts: &OrderMapFacts, conditional_depth: usize) -> (r: bool)
        requires
            facts_cover(*facts, old(self).orders@.len() as int),
            old(self).orders@.len() < usize::MAX,
        ensures
            (*final(self), r) == order_dest_outcome(*old(self), *facts, conditional_depth as int),
        decreases old(self).orders@.len() + 1 - conditional_depth,
    {
        let n = self.orders.len();
        if n == 0 || conditional_depth > n {
            return false;
        }
        self.sanitize_orders();
        let idx = self.current_order;
        let order = self.orders[idx];
        match order {
            VehicleOrder::Conditional { .. } => {
                self.jump_conditional(idx);
                self.update_order_dest(facts, conditional_depth + 1)
            },
            VehicleOrder::Depot { stop, .. } => {
                if !stop {
                    if !self.needs_servicing {
                        self.step_to_next_real_order();
                        return self.update_order_dest(facts, conditional_depth + 1);
                    }
                    self.apply_order_destination(facts, idx);
                    true
                } else if !facts.depot_present[idx] {
                    match facts.nearest_depot {
                        Some(t) => {
                            self.head_for(t);
                            true
                        },
                        None => {
                            self.step_to_next_real_order();
                            self.update_order_dest(facts, conditional_depth + 1)
                        },
                    }
                } else {
                    self.apply_order_destination(facts, idx);
                    true
                }
            },
            _ => {
                self.apply_order_destination(facts, idx);
                true
            },
        }
    }

    /// `ProcessOrders`: refreshes the destination unless the vehicle is
    /// loading or has only implicit orders. Returns whether a train standing
    /// at the end of its path may reverse.
    #[verifier::rlimit(50)]
    pub fn process_orders(&mut self, facts: &OrderMapFacts) -> (r: bool)
        requires
            facts_cover(*facts, old(self).orders@.len() as int),
            old(self).orders@.len() < usize::MAX,
        ensures
            (*final(self), r) == process_orders_outcome(*old(self), *facts),
    {
        if self.orders.len() == 0 {
            return false;
        }
        if self.cargo_loading || self.cargo_unloading || self.awaiting_load_window {
            return false;
        }
        let may_reverse = self.path.len() == 0 && self.progress == 255;
        self.sanitize_current_order();
        self.update_real_order_index();
        proof {
            lemma_real_index_in_range(sanitized(*old(self)));
        }
        let order = self.orders[self.current_order];
        if order.is_implicit() && !has_manual_order(&self.orders) {
            return false;
        }
        let updated = self.update_order_dest(facts, 0);
        updated && may_reverse
    }

    /// Brings the destination in line with the current order.
    pub fn sync_order_destination(&mut self, facts: &OrderMapFacts)
        requires
            facts_cover(*facts, old(self).orders@.len() as int),
            old(self).orders@.len() < usize::MAX,
        ensures
            *final(self) == order_destination_synced(*old(self), *facts),
    {
        if self.orders.len() == 0 {
            return;
        }
        self.sanitize_current_order();
        self.update_real_order_index();
        let _ = self.update_order_dest(facts, 0);
    }

    /// Appends an order; a vehicle that had none starts on it afresh, with
    /// its path dropped and its destination set from it.
    #[verifier::rlimit(50)]
    pub fn append_order(&mut self, order: VehicleOrder, facts: &OrderMapFacts)
        requires
            facts_cover(*facts, old(self).orders@.len() + 1int),
            old(self).orders@.len() + 1 < usize::MAX,
        ensures
            final(self).orders@ == old(self).orders@.push(order),
            old(self).orders@.len() > 0 ==> *final(self) == (Vehicle { orders: final(self).orders, ..*old(self) }),
            old(self).orders@.len() == 0 ==> exists|started: Vehicle| {
                &&& started == (Vehicle {
                    orders: started.orders,
                    path: started.path,
                    current_order: 0,
                    cur_implicit_order_index: 0,
                    no_network_route_to_order: false,
                    ..*old(self)
                })
                &&& started.orders@ == seq![order]
                &&& started.path@.len() == 0
                &&& *final(self) == order_destination_synced(started, *facts)
            },
    {
        let was_empty = self.orders.len() == 0;
        self.orders.push(order);
        if was_empty {
            self.current_order = 0;
            self.cur_implicit_order_index = 0;
            self.path.clear();
            self.no_network_route_to_order = false;
            let ghost started = *self;
            self.sync_order_destination(facts);
            proof {
                assert(started.orders@ =~= seq![order]);
                lemma_outcome_keeps_orders(real_index_updated(sanitized(started)), *facts, 0);
            }
        }
    }
}

fn has_manual_order(orders: &Vec<VehicleOrder>) -> (r: bool)
    ensures
        r == exists|k: int| 0 <= k < orders@.len() && is_manual_order(#[trigger] orders@[k]),
{
    let mut k: usize = 0;
    while k < orders.len()
        invariant
            k <= orders@.len(),
            forall|j: int| 0 <= j < k ==> !is_manual_order(#[trigger] orders@[j]),
        decreases orders@.len() - k,
    {
        let manual = match orders[k] {
            VehicleOrder::Station { implicit, .. } => !implicit,
            VehicleOrder::Conditional { .. } => false,
            _ => true,
        };
        if manual {
            assert(is_manual_order(orders@[k as int]));
            return true;
        }
        k = k + 1;
    }
    false
}

} // verus!
