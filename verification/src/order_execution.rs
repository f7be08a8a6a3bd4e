//! Order execution: moving on to the next real order after a stop, and the
//! timetable waits that hold a vehicle at its stop.

use vstd::prelude::*;
use crate::common::VehicleKind;
use crate::common::{direction_from_tile_step, reverse_direction, spec_direction_from_tile_step};
use crate::order::{
    spec_destination, spec_travel_ticks, spec_waits_for_loading, spec_wait_ticks, OrderUnloadType,
    VehicleOrder,
};
use crate::vehicle::{
    dest_offset_fits, implicit_visit_current, implicit_visit_implicit_index, implicit_visit_orders,
    sanitized_index, serviced, spec_condition_holds, spec_movement_target, timetable_updated,
    TimetableWaitKind, Vehicle,
};

verus! {

/// An implicit order (`OT_IMPLICIT`), inserted when visiting an unscheduled stop.
pub open spec fn is_implicit_order(o: VehicleOrder) -> bool {
    o is Station && o->implicit
}

/// Index of the first non-implicit order met when walking the list
/// cyclically from `start`, beginning at offset `k`; `start` when none is
/// met before the walk has gone round the list.
pub open spec fn first_real_from(orders: Seq<VehicleOrder>, start: int, k: int) -> int
    decreases orders.len() - k,
{
    if k < 0 || k >= orders.len() {
        start
    } else if !is_implicit_order(orders[(start + k) % (orders.len() as int)]) {
        (start + k) % (orders.len() as int)
    } else {
        first_real_from(orders, start, k + 1)
    }
}

/// The real order index reached from `start`: `start` itself when it is a
/// real order or when every order is implicit, else the next real one.
pub open spec fn real_order_from(orders: Seq<VehicleOrder>, start: int) -> int {
    first_real_from(orders, start, 0)
}

/// The walk stays inside the list.
pub proof fn lemma_first_real_in_range(orders: Seq<VehicleOrder>, start: int, k: int)
    requires
        0 <= start < orders.len(),
    ensures
        0 <= first_real_from(orders, start, k) < orders.len(),
    decreases orders.len() - k,
{
    if k < 0 || k >= orders.len() {
    } else {
        vstd::arithmetic::div_mod::lemma_mod_pos_bound(start + k, orders.len() as int);
        if is_implicit_order(orders[(start + k) % (orders.len() as int)]) {
            lemma_first_real_in_range(orders, start, k + 1);
        }
    }
}

/// The walk ends on a real order whenever the list holds one.
pub proof fn lemma_first_real_is_real(orders: Seq<VehicleOrder>, start: int, k: int, j: int)
    requires
        0 <= start < orders.len(),
        0 <= k <= j < orders.len(),
        !is_implicit_order(orders[(start + j) % (orders.len() as int)]),
    ensures
        !is_implicit_order(orders[first_real_from(orders, start, k)]),
    decreases j - k,
{
    if is_implicit_order(orders[(start + k) % (orders.len() as int)]) {
        lemma_first_real_is_real(orders, start, k + 1, j);
    }
}

/// Moving on from any position ends on a real order whenever the list holds
/// one: implicit orders are never the target of a vehicle.
pub proof fn lemma_real_order_index_is_real(orders: Seq<VehicleOrder>, start: int, i: int)
    requires
        0 <= start < orders.len(),
        0 <= i < orders.len(),
        !is_implicit_order(orders[i]),
    ensures
        0 <= real_order_from(orders, start) < orders.len(),
        !is_implicit_order(orders[real_order_from(orders, start)]),
{
    let n = orders.len() as int;
    let j = if i >= start { i - start } else { i + n - start };
    assert((start + j) % n == i) by {
        if i >= start {
            vstd::arithmetic::div_mod::lemma_small_mod(i as nat, n as nat);
        } else {
            vstd::arithmetic::div_mod::lemma_mod_add_multiples_vanish(i, n);
            vstd::arithmetic::div_mod::lemma_small_mod(i as nat, n as nat);
        }
    }
    lemma_first_real_in_range(orders, start, 0);
    lemma_first_real_is_real(orders, start, 0, j);
}

fn real_order_index(orders: &Vec<VehicleOrder>, start: usize) -> (r: usize)
    requires
        start < orders@.len(),
    ensures
        r == real_order_from(orders@, start as int),
{
    let n = orders.len();
    let mut k: usize = 0;
    while k < n
        invariant
            n == orders@.len(),
            start < n,
            k <= n,
            first_real_from(orders@, start as int, 0) == first_real_from(orders@, start as int, k as int),
        decreases n - k,
    {
        let idx = if k < n - start { start + k } else { k - (n - start) };
        assert(idx as int == (start + k) % (n as int)) by {
            if k < n - start {
                vstd::arithmetic::div_mod::lemma_small_mod((start + k) as nat, n as nat);
            } else {
                vstd::arithmetic::div_mod::lemma_mod_add_multiples_vanish(idx as int, n as int);
                vstd::arithmetic::div_mod::lemma_small_mod(idx as nat, n as nat);
            }
        }
        if !orders[idx].is_implicit() {
            return idx;
        }
        k += 1;
    }
    start
}

/// `(c + 1) % n`, computed without overflow.
fn next_cyclic(c: usize, n: usize) -> (r: usize)
    requires
        n > 0,
    ensures
        r == (c + 1) % (n as int),
{
    let m = c % n;
    proof {
        vstd::arithmetic::div_mod::lemma_add_mod_noop(c as int, 1, n as int);
        vstd::arithmetic::div_mod::lemma_mod_pos_bound(c as int, n as int);
        if n > 1 {
            vstd::arithmetic::div_mod::lemma_small_mod(1, n as nat);
        }
    }
    if m + 1 == n {
        proof {
            vstd::arithmetic::div_mod::lemma_mod_self_0(n as int);
        }
        0
    } else {
        proof {
            vstd::arithmetic::div_mod::lemma_small_mod((m + 1) as nat, n as nat);
        }
        m + 1
    }
}

impl Vehicle {
    /// Moves the real order index past implicit orders to the next real one
    /// (out-of-range indices are reset to 0 first). A list without real
    /// orders keeps its index.
    pub fn update_real_order_index(&mut self)
        ensures
            *final(self) == (Vehicle {
                current_order: final(self).current_order,
                cur_implicit_order_index: final(self).cur_implicit_order_index,
                ..*old(self)
            }),
            old(self).orders@.len() == 0 ==> *final(self) == *old(self),
            old(self).orders@.len() > 0 ==> {
                let n = old(self).orders@.len() as int;
                &&& final(self).current_order == real_order_from(
                    old(self).orders@,
                    sanitized_index(old(self).current_order, n),
                )
                &&& final(self).cur_implicit_order_index == sanitized_index(
                    old(self).cur_implicit_order_index,
                    n,
                )
            },
    {
        if self.orders.len() == 0 {
            return;
        }
        self.sanitize_current_order();
        let idx = real_order_index(&self.orders, self.current_order);
        self.current_order = idx;
    }

    /// Steps the real order index to the following order, then past implicit
    /// orders to the next real one.
    pub fn increment_real_order_index(&mut self)
        ensures
            *final(self) == (Vehicle {
                current_order: final(self).current_order,
                cur_implicit_order_index: final(self).cur_implicit_order_index,
                ..*old(self)
            }),
            old(self).orders@.len() == 0 ==> *final(self) == *old(self),
            old(self).orders@.len() > 0 ==> {
                let n = old(self).orders@.len() as int;
                &&& final(self).current_order == real_order_from(
                    old(self).orders@,
                    (old(self).current_order + 1) % n,
                )
                &&& final(self).cur_implicit_order_index == sanitized_index(
                    old(self).cur_implicit_order_index,
                    n,
                )
            },
    {
        if self.orders.len() == 0 {
            return;
        }
        let n = self.orders.len();
        self.current_order = next_cyclic(self.current_order, n);
        self.update_real_order_index();
    }
}

/// The order that moving on from the current one reaches.
pub open spec fn next_order_index(v: Vehicle) -> int {
    real_order_from(v.orders@, (v.current_order + 1) % (v.orders@.len() as int))
}

/// `new` is `old` after moving on to the next order: the load window
/// closes; with orders, both indices point at the next real order, the trip
/// starts here and now, and a non-rail vehicle heads for the new order.
#[verifier::opaque]
pub open spec fn moved_to_next_order(old: Vehicle, new: Vehicle) -> bool {
    if old.orders@.len() == 0 {
        new == Vehicle { awaiting_load_window: false, ..old }
    } else {
        let idx = next_order_index(old);
        &&& new == Vehicle {
            awaiting_load_window: false,
            current_order: idx as usize,
            cur_implicit_order_index: idx as usize,
            origin: old.pos,
            timetable_leg_start_tick: old.sim_tick,
            current_order_time: 0,
            dest: if old.kind != VehicleKind::Train {
                spec_destination(old.orders@[idx])
            } else {
                old.dest
            },
            ..old
        }
    }
}

/// `new` is `old` after leaving its stop: the path is dropped, the turn
/// animation reset, progress set to `progress`, and the vehicle moved on to
/// the next order.
pub open spec fn departed(old: Vehicle, new: Vehicle, progress: u8) -> bool {
    &&& new.path@.len() == 0
    &&& moved_to_next_order(Vehicle { path: new.path, depart_turn: 0, progress, ..old }, new)
}

/// Wait that the current order asks of a timetabled vehicle (0 = none).
pub open spec fn timetabled_wait(v: Vehicle) -> u32 {
    if v.timetable_active && v.current_order < v.orders@.len() {
        spec_wait_ticks(v.orders@[v.current_order as int])
    } else {
        0
    }
}

impl Vehicle {
    /// Moves on to the next real order and starts the trip towards it.
    #[verifier::spinoff_prover]
    #[verifier::rlimit(50)]
    pub fn advance_to_next_order(&mut self)
        ensures
            moved_to_next_order(*old(self), *final(self)),
            final(self).path == old(self).path,
    {
        self.awaiting_load_window = false;
        if self.orders.len() == 0 {
            proof {
                reveal(moved_to_next_order);
            }
            return;
        }
        proof {
            reveal(moved_to_next_order);
            let n = self.orders@.len() as int;
            vstd::arithmetic::div_mod::lemma_mod_pos_bound(self.current_order + 1, n);
            lemma_first_real_in_range(self.orders@, (self.current_order + 1) % n, 0);
        }
        self.increment_real_order_index();
        self.cur_implicit_order_index = self.current_order;
        self.origin = self.pos;
        self.timetable_leg_start_tick = self.sim_tick;
        self.current_order_time = 0;
        if self.kind != VehicleKind::Train {
            let d = match self.current_order_ref() {
                Some(o) => Some(o.destination()),
                None => None,
            };
            if let Some(d) = d {
                self.dest = d;
            }
        }
    }

    /// Starts the timetabled wait of the current order, recording why;
    /// `false` (and nothing changed) when the order asks for none.
    pub fn schedule_timetable_wait(&mut self, kind: TimetableWaitKind) -> (r: bool)
        ensures
            r == (timetabled_wait(*old(self)) != 0),
            r ==> *final(self) == (Vehicle {
                timetable_wait_remaining: timetabled_wait(*old(self)),
                timetable_wait_kind: kind,
                ..*old(self)
            }),
            !r ==> *final(self) == *old(self),
    {
        if !self.timetable_active {
            return false;
        }
        let wait = match self.current_order_ref() {
            Some(o) => o.wait_ticks(),
            None => 0,
        };
        if wait == 0 {
            return false;
        }
        self.timetable_wait_remaining = wait;
        self.timetable_wait_kind = kind;
        true
    }

    fn leave_stop(&mut self, progress: u8)
        ensures
            departed(*old(self), *final(self), progress),
    {
        self.path.clear();
        self.depart_turn = 0;
        self.progress = progress;
        self.advance_to_next_order();
    }

    fn do_advance_after_unloading(&mut self)
        ensures
            departed(*old(self), *final(self), 255),
    {
        self.leave_stop(255);
    }

    fn do_advance_after_loading(&mut self)
        ensures
            departed(*old(self), *final(self), 255),
    {
        self.leave_stop(255);
    }

    /// Leaves the stop after an arrival: a pass-through order keeps moving
    /// from the tile's start, a stop leaves from its end.
    pub fn do_advance_after_arrival(&mut self, pass_through: bool)
        ensures
            moved_to_next_order(
                Vehicle { progress: if pass_through { 0 } else { 255 }, ..*old(self) },
                *final(self),
            ),
            final(self).path == old(self).path,
    {
        if pass_through {
            self.progress = 0;
        } else {
            self.progress = 255;
        }
        self.advance_to_next_order();
    }

    /// After unloading: waits out the timetable if the order asks for it,
    /// otherwise leaves for the next order.
    pub fn advance_after_unloading(&mut self)
        ensures
            old(self).orders@.len() == 0 ==> *final(self) == *old(self),
            old(self).orders@.len() > 0 && timetabled_wait(*old(self)) != 0 ==> *final(self) == (Vehicle {
                timetable_wait_remaining: timetabled_wait(*old(self)),
                timetable_wait_kind: TimetableWaitKind::AfterUnload,
                progress: 255,
                ..*old(self)
            }),
            old(self).orders@.len() > 0 && timetabled_wait(*old(self)) == 0 ==> departed(
                *old(self),
                *final(self),
                255,
            ),
    {
        if self.orders.len() == 0 {
            return;
        }
        if self.schedule_timetable_wait(TimetableWaitKind::AfterUnload) {
            self.progress = 255;
            return;
        }
        self.do_advance_after_unloading();
    }
}

/// `v` with out-of-range order indices reset to 0.
pub open spec fn sanitized(v: Vehicle) -> Vehicle {
    Vehicle {
        current_order: sanitized_index(v.current_order, v.orders@.len() as int) as usize,
        cur_implicit_order_index: sanitized_index(v.cur_implicit_order_index, v.orders@.len() as int) as usize,
        ..v
    }
}

/// The current order is a full load that the vehicle has not completed.
pub open spec fn waits_for_cargo(v: Vehicle) -> bool {
    v.current_order < v.orders@.len() && spec_waits_for_loading(
        v.orders@[v.current_order as int],
        v.cargo,
        v.capacity,
    )
}

/// `new` is `v` after its loading phase: a vehicle without orders is left
/// alone; otherwise (indices reset into range) it stays while a full load is
/// incomplete, waits out a timetabled wait, or leaves for the next order.
pub open spec fn loading_finished(v: Vehicle, new: Vehicle) -> bool {
    if v.orders@.len() == 0 {
        new == v
    } else {
        let s = sanitized(v);
        if waits_for_cargo(s) {
            new == s
        } else if timetabled_wait(s) != 0 {
            new == Vehicle {
                timetable_wait_remaining: timetabled_wait(s),
                timetable_wait_kind: TimetableWaitKind::AfterLoad,
                progress: 255,
                ..s
            }
        } else {
            departed(s, new, 255)
        }
    }
}

impl Vehicle {
    /// After loading: stays while a full-load order is not complete, then
    /// waits out the timetable if the order asks for it, otherwise leaves
    /// for the next order.
    pub fn advance_after_loading(&mut self)
        ensures
            loading_finished(*old(self), *final(self)),
    {
        if self.orders.len() == 0 {
            return;
        }
        self.sanitize_current_order();
        let waits = match self.current_order_ref() {
            Some(o) => o.should_wait_for_loading(self.cargo, self.capacity),
            None => false,
        };
        if waits {
            return;
        }
        if self.schedule_timetable_wait(TimetableWaitKind::AfterLoad) {
            self.progress = 255;
            return;
        }
        self.do_advance_after_loading();
    }
}

/// Ticks a timetabled vehicle that arrived ahead of its travel time still
/// waits before its arrival counts (0 = none).
pub open spec fn travel_early_wait(v: Vehicle) -> u32 {
    let travel = if v.current_order < v.orders@.len() {
        spec_travel_ticks(v.orders@[v.current_order as int])
    } else {
        0
    };
    let elapsed: int = if v.sim_tick >= v.timetable_leg_start_tick {
        v.sim_tick - v.timetable_leg_start_tick
    } else {
        0
    };
    if !v.timetable_active || travel == 0 || v.timetable_leg_start_tick == 0 || elapsed >= travel {
        0
    } else {
        (travel - elapsed) as u32
    }
}

/// Where the conditional order at `idx` sends the vehicle: its jump target
/// when the condition holds, else the following order.
pub open spec fn conditional_target(v: Vehicle, idx: int) -> int {
    match v.orders@[idx] {
        VehicleOrder::Conditional { condition, comparator, value, jump_to } => if spec_condition_holds(
            condition,
            comparator,
            value,
            v,
        ) {
            jump_to as int
        } else {
            (idx + 1) % (v.orders@.len() as int)
        },
        _ => idx,
    }
}

/// The order index reached from `idx` by following conditional orders, at
/// most `fuel` jumps.
pub open spec fn resolved_index(v: Vehicle, idx: int, fuel: nat) -> int
    decreases fuel,
{
    if fuel == 0 || idx < 0 || idx >= v.orders@.len() || !(v.orders@[idx] is Conditional) {
        idx
    } else {
        resolved_index(v, conditional_target(v, idx), (fuel - 1) as nat)
    }
}

/// `new` is `o` after following the conditional orders met from the
/// current one: unchanged when the current order is not conditional, else
/// at the order reached, with the path dropped and the tile restarted.
pub open spec fn conditionals_resolved(o: Vehicle, new: Vehicle) -> bool {
    let jumped = o.current_order < o.orders@.len() && o.orders@[o.current_order as int] is Conditional;
    &&& !jumped ==> new == o
    &&& jumped ==> new == (Vehicle {
        current_order: resolved_index(o, o.current_order as int, MAX_CONDITIONAL_JUMPS as nat) as usize,
        path: new.path,
        progress: 0,
        ..o
    })
    &&& jumped ==> new.path@.len() == 0
}

/// Most conditional jumps followed in one resolution.
pub const MAX_CONDITIONAL_JUMPS: u8 = 64;

impl Vehicle {
    /// A timetable wait is holding the vehicle.
    pub fn holding_for_timetable(&self) -> (r: bool)
        ensures
            r == (self.timetable_active && self.timetable_wait_remaining > 0),
    {
        self.timetable_active && self.timetable_wait_remaining > 0
    }

    /// Ticks still to wait when the vehicle arrived before its timetabled
    /// travel time was up.
    pub fn travel_early_wait_ticks(&self) -> (r: u32)
        ensures
            r == travel_early_wait(*self),
    {
        if !self.timetable_active {
            return 0;
        }
        let travel = match self.current_order_ref() {
            Some(o) => o.travel_ticks(),
            None => 0,
        };
        if travel == 0 || self.timetable_leg_start_tick == 0 {
            return 0;
        }
        let elapsed = self.sim_tick.saturating_sub(self.timetable_leg_start_tick);
        if elapsed >= travel as u64 {
            return 0;
        }
        (travel as u64 - elapsed) as u32
    }

    /// A road vehicle leaving in the direction it came from turns round on
    /// the spot first.
    pub fn needs_depart_turnaround(&self) -> (r: bool)
        requires
            dest_offset_fits(*self),
            self.direction + 4 <= u8::MAX,
        ensures
            r == (self.kind != VehicleKind::Train && self.kind != VehicleKind::Ship && self.kind
                != VehicleKind::Aircraft && match spec_movement_target(*self) {
                Some(next) => spec_direction_from_tile_step(self.pos, next) == (self.direction + 4)
                    % 8,
                None => false,
            }),
    {
        match self.kind {
            VehicleKind::Train | VehicleKind::Ship | VehicleKind::Aircraft => {
                return false;
            },
            _ => {},
        }
        match self.movement_target() {
            Some(next) => direction_from_tile_step(self.pos, next) == reverse_direction(
                self.direction,
            ),
            None => false,
        }
    }

    /// Follows conditional orders from the current one (at most
    /// `MAX_CONDITIONAL_JUMPS` jumps); a jump drops the path and restarts
    /// the tile.
    pub fn resolve_conditional_orders(&mut self)
        ensures
            conditionals_resolved(*old(self), *final(self)),
    {
        let ghost v0 = *self;
        let mut steps: u8 = 0;
        let mut done = false;
        while steps < MAX_CONDITIONAL_JUMPS && !done
            invariant
                steps <= MAX_CONDITIONAL_JUMPS,
                *self == (Vehicle {
                    current_order: self.current_order,
                    path: self.path,
                    progress: self.progress,
                    ..v0
                }),
                resolved_index(v0, v0.current_order as int, MAX_CONDITIONAL_JUMPS as nat)
                    == resolved_index(v0, self.current_order as int, (MAX_CONDITIONAL_JUMPS - steps) as nat),
                done ==> resolved_index(v0, self.current_order as int, (MAX_CONDITIONAL_JUMPS - steps) as nat)
                    == self.current_order,
                steps == 0 ==> *self == v0,
                steps == 0 && done ==> !(v0.current_order < v0.orders@.len()
                    && v0.orders@[v0.current_order as int] is Conditional),
                steps > 0 ==> self.path@.len() == 0 && self.progress == 0,
                steps > 0 ==> v0.current_order < v0.orders@.len()
                    && v0.orders@[v0.current_order as int] is Conditional,
            decreases (MAX_CONDITIONAL_JUMPS - steps) * 2 + if done { 0int } else { 1int },
        {
            let cur = self.current_order;
            if cur >= self.orders.len() {
                done = true;
            } else {
                let order = self.orders[cur];
                if !order.is_conditional() {
                    done = true;
                } else {
                    let next = order.evaluate_conditional(self);
                    proof {
                        assert(next == conditional_target(v0, cur as int));
                    }
                    self.current_order = next;
                    self.path.clear();
                    self.progress = 0;
                    steps = steps + 1;
                }
            }
        }
    }
}

/// Cargo still on board that the current order unloads keeps the vehicle
/// at its stop.
pub open spec fn unloading_pending(v: Vehicle) -> bool {
    v.cargo > 0 && !(v.current_order < v.orders@.len() && v.orders@[v.current_order as int] is Station
        && v.orders@[v.current_order as int]->unload_type == OrderUnloadType::NoUnload)
}

/// `s` after reaching the depot of order `o`: a halting order, or a vehicle
/// due for service, is serviced (recording the order's refit, if any).
#[verifier::opaque]
pub open spec fn depot_visit(s: Vehicle, o: VehicleOrder) -> Vehicle {
    if o->stop || s.needs_servicing {
        serviced(
            Vehicle {
                pending_depot_order_refit: if o->refit_cargo is Some {
                    o->refit_cargo
                } else {
                    s.pending_depot_order_refit
                },
                ..s
            },
        )
    } else {
        s
    }
}

/// `new` is `v` once its stop is over: it stays (progress 255) while cargo
/// moves or remains to unload, while a full load is incomplete or while the
/// timetable asks it to wait; a halting depot order stops it there; else it
/// moves on to the next order, a pass-through order from the tile's start.
pub open spec fn finished_stop(v: Vehicle, new: Vehicle) -> bool {
    if v.cargo_loading || v.cargo_unloading || unloading_pending(v) {
        new == Vehicle { progress: 255, ..v }
    } else {
        finished_sanitized_stop(sanitized(v), new)
    }
}

/// `finished_stop` once the order indices are in range.
pub open spec fn finished_sanitized_stop(s: Vehicle, new: Vehicle) -> bool {
    if s.orders@.len() == 0 {
        new == s
    } else {
        let o = s.orders@[s.current_order as int];
        if o is Depot {
            let d = depot_visit(s, o);
            if o->stop {
                new == Vehicle { running: false, progress: 255, ..d }
            } else {
                moved_to_next_order(Vehicle { progress: 0, ..d }, new)
            }
        } else if waits_for_cargo(s) {
            new == Vehicle { progress: 255, ..s }
        } else if timetabled_wait(s) != 0 {
            new == Vehicle {
                timetable_wait_remaining: timetabled_wait(s),
                timetable_wait_kind: TimetableWaitKind::AfterArrival,
                progress: 255,
                ..s
            }
        } else {
            moved_to_next_order(Vehicle { progress: if o is Waypoint { 0 } else { 255 }, ..s }, new)
        }
    }
}

impl Vehicle {
    /// Ends a stop whose loading window has closed (see `finished_stop`).
    #[verifier::spinoff_prover]
    pub fn finish_arrival_after_load_window(&mut self)
        ensures
            finished_stop(*old(self), *final(self)),
            final(self).path == old(self).path,
    {
        if self.cargo_transfer_active() {
            self.progress = 255;
            return;
        }
        let no_unload = match self.current_order_ref() {
            Some(o) => o.no_unload(),
            None => false,
        };
        if self.cargo > 0 && !no_unload {
            self.progress = 255;
            return;
        }
        self.sanitize_current_order();
        self.end_sanitized_stop();
    }

    #[verifier::spinoff_prover]
    fn end_sanitized_stop(&mut self)
        requires
            old(self).orders@.len() == 0 || old(self).current_order < old(self).orders@.len(),
        ensures
            finished_sanitized_stop(*old(self), *final(self)),
            final(self).path == old(self).path,
    {
        let order = match self.current_order_ref() {
            Some(o) => *o,
            None => {
                return;
            },
        };
        if order.is_depot() {
            self.arrive_at_depot(order);
        } else {
            self.end_stop_at(order);
        }
    }

    #[verifier::spinoff_prover]
    fn arrive_at_depot(&mut self, order: VehicleOrder)
        requires
            order is Depot,
        ensures
            ({
                let d = depot_visit(*old(self), order);
                if order->stop {
                    *final(self) == Vehicle { running: false, progress: 255, ..d }
                } else {
                    moved_to_next_order(Vehicle { progress: 0, ..d }, *final(self))
                }
            }),
            final(self).path == old(self).path,
    {
        let halt = order.depot_stops();
        self.service_for_depot_order(order);
        if halt {
            self.running = false;
            self.progress = 255;
            return;
        }
        self.do_advance_after_arrival(true);
    }

    #[verifier::spinoff_prover]
    fn service_for_depot_order(&mut self, order: VehicleOrder)
        requires
            order is Depot,
        ensures
            *final(self) == depot_visit(*old(self), order),
            final(self).path == old(self).path,
    {
        proof {
            reveal(depot_visit);
        }
        if order.depot_stops() || self.needs_servicing {
            match order.depot_refit_cargo() {
                Some(cargo) => {
                    self.pending_depot_order_refit = Some(cargo);
                },
                None => {},
            }
            self.service_at_depot();
        }
    }

    #[verifier::spinoff_prover]
    fn end_stop_at(&mut self, order: VehicleOrder)
        requires
            !(order is Depot),
            old(self).current_order < old(self).orders@.len(),
            old(self).orders@[old(self).current_order as int] == order,
        ensures
            ({
                let s = *old(self);
                if waits_for_cargo(s) {
                    *final(self) == Vehicle { progress: 255, ..s }
                } else if timetabled_wait(s) != 0 {
                    *final(self) == Vehicle {
                        timetable_wait_remaining: timetabled_wait(s),
                        timetable_wait_kind: TimetableWaitKind::AfterArrival,
                        progress: 255,
                        ..s
                    }
                } else {
                    moved_to_next_order(
                        Vehicle { progress: if order is Waypoint { 0 } else { 255 }, ..s },
                        *final(self),
                    )
                }
            }),
            final(self).path == old(self).path,
    {
        let pass_through = order.is_pass_through();
        if order.should_wait_for_loading(self.cargo, self.capacity) {
            self.progress = 255;
            return;
        }
        if self.schedule_timetable_wait(TimetableWaitKind::AfterArrival) {
            self.progress = 255;
            return;
        }
        self.do_advance_after_arrival(pass_through);
    }
}

/// `new` is `v` having reached the station of its current order: the visit
/// is recorded (an unscheduled stop gets an implicit order) and the loading
/// window opens at the end of the tile.
pub open spec fn opened_load_window(v: Vehicle, new: Vehicle) -> bool {
    let st = v.orders@[v.current_order as int]->station;
    &&& new.orders@ == implicit_visit_orders(v, st)
    &&& new == Vehicle {
        orders: new.orders,
        current_order: implicit_visit_current(v, st),
        cur_implicit_order_index: implicit_visit_implicit_index(v, st),
        last_station_visited: Some(st),
        awaiting_load_window: true,
        progress: 255,
        ..v
    }
}

/// The arrival at a station order opens the loading window; any other
/// arrival, or one whose window has been and gone, ends the stop.
pub open spec fn arrival_processed(v: Vehicle, new: Vehicle) -> bool {
    if !v.awaiting_load_window && v.current_order < v.orders@.len()
        && v.orders@[v.current_order as int] is Station {
        opened_load_window(v, new)
    } else {
        finished_stop(v, new)
    }
}

/// `new` is `v` after the loading window it had opened is closed: it stays
/// open during a transfer; otherwise a vehicle still at the end of its
/// destination tile ends its stop.
pub open spec fn load_window_closed(v: Vehicle, new: Vehicle) -> bool {
    if !v.awaiting_load_window {
        new == v
    } else if v.cargo_loading || v.cargo_unloading {
        new == Vehicle { progress: 255, ..v }
    } else {
        let w = Vehicle { awaiting_load_window: false, ..v };
        if v.orders@.len() > 0 && v.pos == v.dest && v.progress == 255 {
            finished_stop(w, new)
        } else {
            new == w
        }
    }
}

impl Vehicle {
    /// Arrival at the destination of the current order (see `arrival_processed`).
    #[verifier::spinoff_prover]
    pub fn finish_arrival_processing(&mut self)
        ensures
            arrival_processed(*old(self), *final(self)),
            final(self).path == old(self).path,
    {
        let station = if self.awaiting_load_window {
            None
        } else {
            match self.current_order_ref() {
                Some(VehicleOrder::Station { station, .. }) => Some(*station),
                _ => None,
            }
        };
        match station {
            Some(st) => {
                self.open_load_window(st);
            },
            None => {
                self.finish_arrival_after_load_window();
            },
        }
    }

    #[verifier::spinoff_prover]
    fn open_load_window(&mut self, station: crate::common::TileCoord)
        requires
            old(self).current_order < old(self).orders@.len(),
            old(self).orders@[old(self).current_order as int] is Station,
            old(self).orders@[old(self).current_order as int]->station == station,
        ensures
            opened_load_window(*old(self), *final(self)),
            final(self).path == old(self).path,
    {
        self.maybe_insert_implicit_order(station);
        self.awaiting_load_window = true;
        self.progress = 255;
    }

    /// Closes the loading window opened on arrival (see `load_window_closed`).
    #[verifier::spinoff_prover]
    pub fn complete_station_load_window(&mut self)
        ensures
            load_window_closed(*old(self), *final(self)),
    {
        if !self.awaiting_load_window {
            return;
        }
        if self.cargo_transfer_active() {
            self.progress = 255;
            return;
        }
        self.awaiting_load_window = false;
        if self.orders.len() > 0 && self.pos == self.dest && self.progress == 255 {
            self.finish_arrival_after_load_window();
        }
    }
}

/// Timetabled wait of the current order, whether or not the timetable runs.
pub open spec fn planned_wait(v: Vehicle) -> u32 {
    if v.current_order < v.orders@.len() {
        spec_wait_ticks(v.orders@[v.current_order as int])
    } else {
        0
    }
}

/// A waypoint or a service-only depot visit is passed through.
pub open spec fn is_pass_through_order(o: VehicleOrder) -> bool {
    o is Waypoint || (o is Depot && !o->stop)
}

/// `t` is `v` once its wait has ended: the wait reason is cleared, and a
/// wait at the stop with a timetabled time records the departure.
pub open spec fn wait_closed(v: Vehicle, t: Vehicle) -> bool {
    let c = Vehicle { timetable_wait_kind: TimetableWaitKind::Idle, ..v };
    if v.timetable_wait_kind != TimetableWaitKind::Idle && v.timetable_wait_kind
        != TimetableWaitKind::TravelEarly && planned_wait(v) > 0 {
        timetable_updated(c, t, false)
    } else {
        t == c
    }
}

/// What ending a wait of `kind` does to `t`: an early arrival counts one
/// tick late and is then processed as an arrival; a wait after arriving,
/// unloading or loading leaves for the next order.
pub open spec fn wait_end_step(kind: TimetableWaitKind, t: Vehicle, m: Vehicle) -> bool {
    match kind {
        TimetableWaitKind::Idle => m == t,
        TimetableWaitKind::TravelEarly => arrival_processed(
            Vehicle {
                timetable_lateness: if t.timetable_active && t.timetable_lateness < i32::MAX {
                    (t.timetable_lateness + 1) as i32
                } else {
                    t.timetable_lateness
                },
                ..t
            },
            m,
        ),
        TimetableWaitKind::AfterArrival => {
            let s = sanitized(t);
            let pass = s.orders@.len() > 0 && is_pass_through_order(s.orders@[s.current_order as int]);
            moved_to_next_order(Vehicle { progress: if pass { 0 } else { 255 }, ..s }, m)
        },
        TimetableWaitKind::AfterUnload | TimetableWaitKind::AfterLoad => departed(t, m, 255),
    }
}

/// `new` is `v` after its timetable wait completes, through the states `t`
/// (wait closed) and `m` (acted upon), then following conditional orders.
pub open spec fn timetable_wait_completed(v: Vehicle, t: Vehicle, m: Vehicle, new: Vehicle) -> bool {
    &&& wait_closed(v, t)
    &&& wait_end_step(v.timetable_wait_kind, t, m)
    &&& conditionals_resolved(m, new)
}

/// `v` with its wait counter run down to 0.
pub open spec fn wait_run_out(v: Vehicle) -> Vehicle {
    Vehicle { timetable_wait_remaining: 0, ..v }
}

impl Vehicle {
    /// Ends the timetable wait in progress (see `timetable_wait_completed`).
    pub fn complete_timetable_wait(&mut self)
        ensures
            exists|t: Vehicle, m: Vehicle| #[trigger]
                timetable_wait_completed(*old(self), t, m, *final(self)),
    {
        let ghost v0 = *self;
        let kind = self.timetable_wait_kind;
        self.close_wait();
        let ghost t = *self;
        self.act_on_wait_end(kind);
        let ghost m = *self;
        self.resolve_conditional_orders();
        assert(timetable_wait_completed(v0, t, m, *self));
    }

    fn close_wait(&mut self)
        ensures
            wait_closed(*old(self), *final(self)),
    {
        let kind = self.timetable_wait_kind;
        let planned = match self.current_order_ref() {
            Some(o) => o.wait_ticks(),
            None => 0,
        };
        self.timetable_wait_kind = TimetableWaitKind::Idle;
        if kind != TimetableWaitKind::Idle && kind != TimetableWaitKind::TravelEarly && planned > 0 {
            self.update_vehicle_timetable(false);
        }
    }

    #[verifier::spinoff_prover]
    fn act_on_wait_end(&mut self, kind: TimetableWaitKind)
        ensures
            wait_end_step(kind, *old(self), *final(self)),
    {
        match kind {
            TimetableWaitKind::Idle => {},
            TimetableWaitKind::TravelEarly => {
                if self.timetable_active && self.timetable_lateness < i32::MAX {
                    self.timetable_lateness = self.timetable_lateness + 1;
                }
                self.finish_arrival_processing();
            },
            TimetableWaitKind::AfterArrival => {
                self.sanitize_current_order();
                let pass = match self.current_order_ref() {
                    Some(o) => o.is_pass_through(),
                    None => false,
                };
                self.do_advance_after_arrival(pass);
            },
            TimetableWaitKind::AfterUnload => {
                self.do_advance_after_unloading();
            },
            TimetableWaitKind::AfterLoad => {
                self.do_advance_after_loading();
            },
        }
    }

    /// Counts down the timetable wait; the last tick completes it.
    pub fn tick_timetable_wait(&mut self)
        ensures
            old(self).timetable_wait_remaining == 0 ==> *final(self) == *old(self),
            old(self).timetable_wait_remaining > 1 ==> *final(self) == (Vehicle {
                timetable_wait_remaining: (old(self).timetable_wait_remaining - 1) as u32,
                ..*old(self)
            }),
            old(self).timetable_wait_remaining == 1 ==> exists|t: Vehicle, m: Vehicle| #[trigger]
                timetable_wait_completed(wait_run_out(*old(self)), t, m, *final(self)),
    {
        if self.timetable_wait_remaining == 0 {
            return;
        }
        self.timetable_wait_remaining = self.timetable_wait_remaining - 1;
        if self.timetable_wait_remaining == 0 {
            self.complete_timetable_wait();
        }
    }
}

/// `v` with its path dropped and the turn animation reset.
pub open spec fn path_dropped(v: Vehicle, new_path: Vec<crate::common::TileCoord>) -> Vehicle {
    Vehicle { path: new_path, depart_turn: 0, ..v }
}

/// `new` is `c` arriving at its destination, through `t`, the state after
/// the timetable records the arrival: a timetabled vehicle ahead of its
/// travel time waits out the difference, otherwise the arrival is processed.
pub open spec fn arrived_at_destination(c: Vehicle, t: Vehicle, new: Vehicle) -> bool {
    &&& timetable_updated(c, t, true)
    &&& if travel_early_wait(t) > 0 {
        new == Vehicle {
            timetable_wait_remaining: travel_early_wait(t),
            timetable_wait_kind: TimetableWaitKind::TravelEarly,
            progress: 255,
            ..t
        }
    } else {
        arrival_processed(t, new)
    }
}

impl Vehicle {
    /// Arrival at the end of the trip: the path is dropped; a vehicle
    /// without orders just stops at the tile's start, otherwise see
    /// `arrived_at_destination`.
    pub fn advance_destination_after_arrival(&mut self)
        ensures
            ({
                let c = path_dropped(*old(self), final(self).path);
                &&& final(self).path@.len() == 0
                &&& old(self).orders@.len() == 0 ==> *final(self) == Vehicle { progress: 0, ..c }
                &&& old(self).orders@.len() > 0 ==> exists|t: Vehicle| #[trigger]
                    arrived_at_destination(c, t, *final(self))
            }),
    {
        self.path.clear();
        self.depart_turn = 0;
        if self.orders.len() == 0 {
            self.progress = 0;
            return;
        }
        let ghost c = *self;
        self.update_vehicle_timetable(true);
        let ghost t = *self;
        let early = self.travel_early_wait_ticks();
        if early > 0 {
            self.timetable_wait_remaining = early;
            self.timetable_wait_kind = TimetableWaitKind::TravelEarly;
            self.progress = 255;
        } else {
            self.finish_arrival_processing();
        }
        assert(arrived_at_destination(c, t, *self));
    }
}

/// Moving on always lands on a real order when the list holds one: implicit
/// orders are never a vehicle's target, and both indices agree.
pub proof fn lemma_next_order_is_real(old: Vehicle, new: Vehicle, idx: int)
    requires
        moved_to_next_order(old, new),
        old.orders@.len() <= usize::MAX,
        0 <= idx < old.orders@.len(),
        !is_implicit_order(old.orders@[idx]),
    ensures
        new.orders@ == old.orders@,
        new.current_order < new.orders@.len(),
        !is_implicit_order(new.orders@[new.current_order as int]),
        new.cur_implicit_order_index == new.current_order,
{
    reveal(moved_to_next_order);
    let n = old.orders@.len() as int;
    vstd::arithmetic::div_mod::lemma_mod_pos_bound(old.current_order + 1, n);
    lemma_real_order_index_is_real(old.orders@, (old.current_order + 1) % n, idx);
}

/// Whatever order index a vehicle had, the loading phase leaves it pointing
/// into its order list.
pub proof fn lemma_loading_keeps_order_in_range(old: Vehicle, new: Vehicle)
    requires
        loading_finished(old, new),
        0 < old.orders@.len() <= usize::MAX,
    ensures
        new.orders@ == old.orders@,
        new.current_order < new.orders@.len(),
{
    let s = sanitized(old);
    if !waits_for_cargo(s) && timetabled_wait(s) == 0 {
        reveal(moved_to_next_order);
        let n = old.orders@.len() as int;
        let d = Vehicle { path: new.path, depart_turn: 0, progress: 255, ..s };
        vstd::arithmetic::div_mod::lemma_mod_pos_bound(d.current_order + 1, n);
        lemma_first_real_in_range(d.orders@, (d.current_order + 1) % n, 0);
    }
}

} // verus!
