//! Per-order timetable presets and rounding.

use vstd::prelude::*;

verus! {

/// Stop-wait presets (simulation ticks).
pub const WAIT_PRESETS: [u32; 5] = [0, 30, 60, 120, 300];
/// Minimum-travel presets between orders.
pub const TRAVEL_PRESETS: [u32; 5] = [0, 60, 120, 240, 600];
/// Simulation ticks shown as one second in the timetable window.
pub const TICKS_PER_SECOND: u32 = 37;

/// The preset after the first occurrence of `current` at or after `i`
/// (wrapping to the first preset), or the first preset when `current` is absent.
pub open spec fn cycle_from(s: Seq<u32>, current: u32, i: int) -> u32
    recommends
        s.len() > 0,
    decreases s.len() - i,
{
    if i < 0 || i >= s.len() {
        s[0]
    } else if s[i] == current {
        s[(i + 1) % (s.len() as int)]
    } else {
        cycle_from(s, current, i + 1)
    }
}

/// The preset following `current`, or the first preset when `current` is not one.
pub open spec fn spec_cycle_preset(s: Seq<u32>, current: u32) -> u32 {
    cycle_from(s, current, 0)
}

pub open spec fn next_wait_preset(w: u32) -> u32 {
    if w == 0 {
        30
    } else if w == 30 {
        60
    } else if w == 60 {
        120
    } else if w == 120 {
        300
    } else {
        0
    }
}

pub open spec fn next_travel_preset(t: u32) -> u32 {
    if t == 0 {
        60
    } else if t == 60 {
        120
    } else if t == 120 {
        240
    } else if t == 240 {
        600
    } else {
        0
    }
}

/// Returns the preset after `current` in `presets` (wrapping around), or the
/// first preset when `current` is not in the list.
pub fn cycle_preset(presets: &[u32], current: u32) -> (r: u32)
    requires
        presets@.len() > 0,
    ensures
        r == spec_cycle_preset(presets@, current),
{
    let mut i: usize = 0;
    while i < presets.len()
        invariant
            0 <= i <= presets@.len(),
            presets@.len() > 0,
            cycle_from(presets@, current, 0) == cycle_from(presets@, current, i as int),
        decreases presets@.len() - i,
    {
        if presets[i] == current {
            let next = (i + 1) % presets.len();
            return presets[next];
        }
        i = i + 1;
    }
    presets[0]
}

pub fn cycle_wait_ticks(current: u32) -> (r: u32)
    ensures
        r == next_wait_preset(current),
{
    let presets: [u32; 5] = WAIT_PRESETS;
    let r = cycle_preset(&presets, current);
    proof {
        let s = presets@;
        assert(s =~= seq![0u32, 30, 60, 120, 300]);
        reveal_with_fuel(cycle_from, 6);
    }
    r
}

pub fn cycle_travel_ticks(current: u32) -> (r: u32)
    ensures
        r == next_travel_preset(current),
{
    let presets: [u32; 5] = TRAVEL_PRESETS;
    let r = cycle_preset(&presets, current);
    proof {
        let s = presets@;
        assert(s =~= seq![0u32, 60, 120, 240, 600]);
        reveal_with_fuel(cycle_from, 6);
    }
    r
}

/// Rounds up to a whole timetable second, saturating (`UpdateVehicleTimetable`).
pub open spec fn spec_round_timetable_ticks(ticks: u32) -> u32 {
    if ticks == 0 {
        0
    } else {
        let up = ((ticks + 36) / 37) * 37;
        if up > u32::MAX {
            u32::MAX
        } else {
            up as u32
        }
    }
}

pub fn round_timetable_ticks(ticks: u32) -> (r: u32)
    ensures
        r == spec_round_timetable_ticks(ticks),
        ticks > 0 ==> r >= TICKS_PER_SECOND,
        ticks > 0 && ticks <= u32::MAX - 36 ==> r >= ticks && r % TICKS_PER_SECOND == 0 && r
            - ticks < TICKS_PER_SECOND,
{
    if ticks == 0 {
        return 0;
    }
    let seconds: u64 = (ticks as u64 + 36) / 37;
    let up: u64 = seconds * 37;
    let r: u32 = if up > u32::MAX as u64 {
        u32::MAX
    } else {
        up as u32
    };
    proof {
        assert(seconds >= 1);
        let t = ticks as int;
        assert(((t + 36) / 37) * 37 >= t) by (nonlinear_arith)
            requires
                t >= 1,
        ;
        assert(((t + 36) / 37) * 37 - t < 37) by (nonlinear_arith)
            requires
                t >= 1,
        ;
        assert((((t + 36) / 37) * 37) % 37 == 0) by (nonlinear_arith);
    }
    if r < TICKS_PER_SECOND {
        TICKS_PER_SECOND
    } else {
        r
    }
}

/// Clicking through the presets visits each in increasing order and wraps to
/// zero after the largest: 0, 30, 60, 120, 300 ticks of waiting and 0, 60,
/// 120, 240, 600 ticks of travel; five clicks come back to where they began,
/// and any other value goes to zero.
pub proof fn lemma_presets_cycle_in_order(w: u32)
    ensures
        w == 0 || w == 30 || w == 60 || w == 120 ==> next_wait_preset(w) > w,
        w == 300 ==> next_wait_preset(w) == 0,
        w == 0 || w == 60 || w == 120 || w == 240 ==> next_travel_preset(w) > w,
        w == 600 ==> next_travel_preset(w) == 0,
        w == 0 || w == 30 || w == 60 || w == 120 || w == 300 ==> next_wait_preset(
            next_wait_preset(next_wait_preset(next_wait_preset(next_wait_preset(w)))),
        ) == w,
        w == 0 || w == 60 || w == 120 || w == 240 || w == 600 ==> next_travel_preset(
            next_travel_preset(next_travel_preset(next_travel_preset(next_travel_preset(w)))),
        ) == w,
        !(w == 0 || w == 30 || w == 60 || w == 120 || w == 300) ==> next_wait_preset(w) == 0,
        !(w == 0 || w == 60 || w == 120 || w == 240 || w == 600) ==> next_travel_preset(w) == 0,
{
}

} // verus!
