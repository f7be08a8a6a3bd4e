//! Gregorian calendar arithmetic over the day counter used by the timers:
//! day index 0 is 1 January of the base year.

use vstd::prelude::*;

verus! {

/// Simulation ticks per calendar day (`Ticks::DAY_TICKS`).
pub const TICKS_PER_DAY: u32 = 74;
/// Year of day index 0.
pub const CALENDAR_BASE_YEAR: u32 = 1950;
/// Absolute `Date` (days since year 0) of 1 January of the base year.
pub const OPENTTD_BASE_DATE: i32 = 712_223;

pub open spec fn is_leap(y: int) -> bool {
    (y % 4 == 0 && y % 100 != 0) || y % 400 == 0
}

pub open spec fn days_in_year(y: int) -> int {
    if is_leap(y) {
        366
    } else {
        365
    }
}

/// `(year, day_of_year)` of the day `d` days after 1 January of `y`.
pub open spec fn year_day_from(d: nat, y: nat) -> (nat, nat)
    decreases d,
{
    if d < days_in_year(y as int) {
        (y, d)
    } else {
        year_day_from((d - days_in_year(y as int)) as nat, y + 1)
    }
}

/// `(year, day_of_year)` of a day index.
pub open spec fn year_day(d: nat) -> (nat, nat) {
    year_day_from(d, CALENDAR_BASE_YEAR as nat)
}

/// Days before the first day of month `m` (0-based) in a year.
pub open spec fn days_before_month(m: int, leap: bool) -> int {
    let feb = if leap {
        29int
    } else {
        28int
    };
    if m <= 0 {
        0
    } else if m == 1 {
        31
    } else if m == 2 {
        31 + feb
    } else if m == 3 {
        62 + feb
    } else if m == 4 {
        92 + feb
    } else if m == 5 {
        123 + feb
    } else if m == 6 {
        153 + feb
    } else if m == 7 {
        184 + feb
    } else if m == 8 {
        215 + feb
    } else if m == 9 {
        245 + feb
    } else if m == 10 {
        276 + feb
    } else if m == 11 {
        306 + feb
    } else {
        337 + feb
    }
}

/// 0-based month containing day-of-year `doy`.
pub open spec fn month_of_doy(doy: int, leap: bool) -> int {
    if doy < days_before_month(1, leap) {
        0
    } else if doy < days_before_month(2, leap) {
        1
    } else if doy < days_before_month(3, leap) {
        2
    } else if doy < days_before_month(4, leap) {
        3
    } else if doy < days_before_month(5, leap) {
        4
    } else if doy < days_before_month(6, leap) {
        5
    } else if doy < days_before_month(7, leap) {
        6
    } else if doy < days_before_month(8, leap) {
        7
    } else if doy < days_before_month(9, leap) {
        8
    } else if doy < days_before_month(10, leap) {
        9
    } else if doy < days_before_month(11, leap) {
        10
    } else {
        11
    }
}

/// Calendar year of a day index.
pub open spec fn year_of(d: nat) -> nat {
    year_day(d).0
}

/// 0-based calendar month of a day index.
pub open spec fn month_of(d: nat) -> nat {
    let (y, doy) = year_day(d);
    month_of_doy(doy as int, is_leap(y as int)) as nat
}

/// 1-based day of month of a day index.
pub open spec fn day_of_month(d: nat) -> nat {
    let (y, doy) = year_day(d);
    (doy - days_before_month(month_of_doy(doy as int, is_leap(y as int)), is_leap(y as int)) + 1) as nat
}

proof fn lemma_year_day_from_bounds(d: nat, y: nat)
    ensures
        year_day_from(d, y).0 >= y,
        year_day_from(d, y).0 <= y + d,
        year_day_from(d, y).1 < days_in_year(year_day_from(d, y).0 as int),
    decreases d,
{
    if d >= days_in_year(y as int) {
        lemma_year_day_from_bounds((d - days_in_year(y as int)) as nat, y + 1);
    }
}

fn is_leap_exec(y: u64) -> (r: bool)
    ensures
        r == is_leap(y as int),
{
    (y % 4 == 0 && y % 100 != 0) || y % 400 == 0
}

/// Calendar `(year, day_of_year)` of a day index.
pub fn calendar_year_day(day: u32) -> (r: (u32, u32))
    ensures
        r.0 as nat == year_of(day as nat),
        r.1 as nat == year_day(day as nat).1,
{
    let mut rem: u64 = day as u64;
    let mut y: u64 = CALENDAR_BASE_YEAR as u64;
    proof {
        lemma_year_day_from_bounds(day as nat, CALENDAR_BASE_YEAR as nat);
    }
    loop
        invariant
            year_day_from(rem as nat, y as nat) == year_day(day as nat),
            (y - CALENDAR_BASE_YEAR) * 365 + rem <= day,
            y >= CALENDAR_BASE_YEAR,
        decreases rem,
    {
        let diy: u64 = if is_leap_exec(y) {
            366
        } else {
            365
        };
        if rem < diy {
            proof {
                lemma_year_day_from_bounds(day as nat, CALENDAR_BASE_YEAR as nat);
            }
            return (y as u32, rem as u32);
        }
        rem = rem - diy;
        y = y + 1;
    }
}

fn days_before_month_exec(m: u8, leap: bool) -> (r: u32)
    requires
        m < 12,
    ensures
        r as int == days_before_month(m as int, leap),
{
    let feb: u32 = if leap {
        29
    } else {
        28
    };
    if m == 0 {
        0
    } else if m == 1 {
        31
    } else if m == 2 {
        31 + feb
    } else if m == 3 {
        62 + feb
    } else if m == 4 {
        92 + feb
    } else if m == 5 {
        123 + feb
    } else if m == 6 {
        153 + feb
    } else if m == 7 {
        184 + feb
    } else if m == 8 {
        215 + feb
    } else if m == 9 {
        245 + feb
    } else if m == 10 {
        276 + feb
    } else {
        306 + feb
    }
}

fn month_of_doy_exec(doy: u32, leap: bool) -> (r: u8)
    ensures
        r as int == month_of_doy(doy as int, leap),
        r < 12,
{
    let mut m: u8 = 1;
    while m < 12
        invariant
            1 <= m <= 12,
            forall|k: int| 1 <= k < m ==> doy >= days_before_month(k, leap),
        decreases 12 - m,
    {
        if doy < days_before_month_exec(m, leap) {
            return m - 1;
        }
        m = m + 1;
    }
    11
}

/// 0-based calendar month of a day index.
pub fn calendar_month_index(day: u32) -> (r: u8)
    ensures
        r as nat == month_of(day as nat),
        r < 12,
{
    let (y, doy) = calendar_year_day(day);
    month_of_doy_exec(doy, is_leap_exec(y as u64))
}

/// 1-based day of the month of a day index.
pub fn calendar_day_of_month(day: u32) -> (r: u8)
    ensures
        r as nat == day_of_month(day as nat),
{
    let (y, doy) = calendar_year_day(day);
    let leap = is_leap_exec(y as u64);
    proof {
        lemma_year_day_from_bounds(day as nat, CALENDAR_BASE_YEAR as nat);
    }
    let m = month_of_doy_exec(doy, leap);
    let start = days_before_month_exec(m, leap);
    ((doy - start) + 1) as u8
}

/// Day index of an absolute `Date`; dates before the base year map to 0 and
/// dates past the counter's range saturate.
pub fn calendar_day_index_from_openttd_date(date: i32) -> (r: u32)
    ensures
        r as int == if date <= OPENTTD_BASE_DATE { 0 } else { date - OPENTTD_BASE_DATE },
{
    if date <= OPENTTD_BASE_DATE {
        0
    } else {
        (date - OPENTTD_BASE_DATE) as u32
    }
}

/// Absolute `Date` of a day index, saturating at `i32::MAX`.
pub fn openttd_date_from_calendar_day_index(day: u32) -> (r: i32)
    ensures
        r as int == if OPENTTD_BASE_DATE + day > i32::MAX { i32::MAX as int } else {
            OPENTTD_BASE_DATE + day
        },
{
    let v: i64 = OPENTTD_BASE_DATE as i64 + day as i64;
    if v > i32::MAX as i64 {
        i32::MAX
    } else {
        v as i32
    }
}

proof fn lemma_year_day_from_next(d: nat, y: nat)
    ensures
        ({
            let (yy, doy) = year_day_from(d, y);
            year_day_from(d + 1, y) == if doy + 1 < days_in_year(yy as int) {
                (yy, (doy + 1) as nat)
            } else {
                ((yy + 1) as nat, 0nat)
            }
        }),
    decreases d,
{
    if d >= days_in_year(y as int) {
        lemma_year_day_from_next((d - days_in_year(y as int)) as nat, y + 1);
        assert(((d + 1) - days_in_year(y as int)) as nat == ((d - days_in_year(y as int)) as nat + 1) as nat);
    } else if d + 1 >= days_in_year(y as int) {
        assert(((d + 1) - days_in_year(y as int)) as nat == 0nat);
        assert(year_day_from(0nat, y + 1) == ((y + 1) as nat, 0nat));
    }
}

/// Length of month `m` (0-based) of a year.
pub open spec fn month_length(m: int, leap: bool) -> int {
    seq![31int, if leap { 29 } else { 28 }, 31, 30, 31, 30, 31, 31, 30, 31, 30, 31][m]
}

/// Days follow one another through the calendar: day index 0 is 1 January
/// 1950; each day is day 1 to 31 of month 0 to 11; the next day is the next
/// day of the same month, or, once the month's length (31, 28 or 29 in leap
/// years, 31, 30, 31, 30, 31, 31, 30, 31, 30, 31) is reached, the first of
/// the next month, and after 31 December the first of January of the next
/// year.
pub proof fn lemma_calendar_days_follow(d: nat)
    ensures
        year_of(0) == 1950 && month_of(0) == 0 && day_of_month(0) == 1,
        month_of(d) < 12,
        1 <= day_of_month(d) <= month_length(month_of(d) as int, is_leap(year_of(d) as int)),
        day_of_month(d) < month_length(month_of(d) as int, is_leap(year_of(d) as int)) ==> {
            &&& day_of_month(d + 1) == day_of_month(d) + 1
            &&& month_of(d + 1) == month_of(d)
            &&& year_of(d + 1) == year_of(d)
        },
        day_of_month(d) == month_length(month_of(d) as int, is_leap(year_of(d) as int)) && month_of(d)
            < 11 ==> {
            &&& day_of_month(d + 1) == 1
            &&& month_of(d + 1) == month_of(d) + 1
            &&& year_of(d + 1) == year_of(d)
        },
        day_of_month(d) == month_length(month_of(d) as int, is_leap(year_of(d) as int)) && month_of(d)
            == 11 ==> {
            &&& day_of_month(d + 1) == 1
            &&& month_of(d + 1) == 0
            &&& year_of(d + 1) == year_of(d) + 1
        },
{
    assert(year_day(0) == (1950nat, 0nat));
    lemma_year_day_from_bounds(d, CALENDAR_BASE_YEAR as nat);
    lemma_year_day_from_next(d, CALENDAR_BASE_YEAR as nat);
}

} // verus!
