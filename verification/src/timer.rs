//! Calendar and economy clocks (`TimerGameCalendar` / `TimerGameEconomy`).
//!
//! Both keep `date_fract` in `0..DAY_TICKS` and a day counter. With wallclock
//! units the economy months are always 30 days and the economy year 360 days,
//! decoupled from the Gregorian calendar.

use vstd::prelude::*;
use crate::calendar::{
    calendar_day_index_from_openttd_date, calendar_day_of_month, calendar_month_index,
    calendar_year_day, day_of_month, month_of, openttd_date_from_calendar_day_index, year_of,
    CALENDAR_BASE_YEAR, OPENTTD_BASE_DATE,
};

verus! {

/// Simulation ticks in a calendar day.
pub const DAY_TICKS: u16 = 74;
/// Days per economy month in wallclock mode.
pub const DAYS_IN_ECONOMY_MONTH: u32 = 30;
/// Days per economy year in wallclock mode.
pub const DAYS_IN_ECONOMY_YEAR: u32 = 360;
/// Absolute `Date` of the start of economy year 1950 in wallclock units.
pub const OPENTTD_WALLCLOCK_ECONOMY_BASE_DATE: i32 = 702_000;

/// Edges detected when a timer closes a day.
#[derive(Debug, Clone, Copy, PartialEq, Eq, Structural)]
pub struct TimerTriggers {
    pub new_day: bool,
    pub new_month: bool,
    pub new_year: bool,
}

/// Calendar clock: vehicle ages, news, technology introduction.
#[derive(Debug, Clone, Copy, PartialEq, Eq, Structural)]
pub struct CalendarTimer {
    pub date: u32,
    pub date_fract: u16,
    /// Sub-part of `date_fract` for non-default calendar progression.
    pub sub_date_fract: u16,
    pub year: u32,
    pub month: u8,
}

/// `tick / DAY_TICKS`, saturated to the `u32` day counter.
pub open spec fn day_of_tick(tick: u64) -> nat {
    if tick / (DAY_TICKS as u64) > u32::MAX {
        u32::MAX as nat
    } else {
        (tick / (DAY_TICKS as u64)) as nat
    }
}

/// `date_fract` clamped to the last tick of a day.
pub open spec fn normalized_fract(f: u16) -> u16 {
    if f > DAY_TICKS - 1 {
        (DAY_TICKS - 1) as u16
    } else {
        f
    }
}

fn normalized_date_fract(date_fract: u16) -> (r: u16)
    ensures
        r == normalized_fract(date_fract),
{
    if date_fract > DAY_TICKS - 1 {
        DAY_TICKS - 1
    } else {
        date_fract
    }
}

/// Year and month fields agree with the Gregorian calendar for `date`.
pub open spec fn calendar_ymd_synced(date: u32, year: u32, month: u8) -> bool {
    year as nat == year_of(date as nat) && month as nat == month_of(date as nat)
}

/// Year and month fields agree with the 30-day/360-day wallclock scheme.
pub open spec fn wallclock_ymd_synced(date: u32, year: u32, month: u8) -> bool {
    year as int == CALENDAR_BASE_YEAR + date / DAYS_IN_ECONOMY_YEAR && month as int == (date
        % DAYS_IN_ECONOMY_YEAR) / DAYS_IN_ECONOMY_MONTH
}

fn calendar_ymd(date: u32) -> (r: (u32, u8))
    ensures
        calendar_ymd_synced(date, r.0, r.1),
{
    let (year, _) = calendar_year_day(date);
    let month = calendar_month_index(date);
    (year, month)
}

impl CalendarTimer {
    pub fn from_tick(tick: u64) -> (r: CalendarTimer)
        ensures
            r.date as nat == day_of_tick(tick),
            r.date_fract as int == tick % (DAY_TICKS as u64),
            r.sub_date_fract == 0,
            calendar_ymd_synced(r.date, r.year, r.month),
    {
        let days = tick / (DAY_TICKS as u64);
        let date: u32 = if days > u32::MAX as u64 {
            u32::MAX
        } else {
            days as u32
        };
        let date_fract = (tick % (DAY_TICKS as u64)) as u16;
        let (year, month) = calendar_ymd(date);
        CalendarTimer { date, date_fract, sub_date_fract: 0, year, month }
    }

    /// Rebuilds the clock from the saved `date`, `date_fract` and `sub_date_fract`.
    pub fn from_openttd_date(date: i32, date_fract: u16, sub_date_fract: u16) -> (r: CalendarTimer)
        ensures
            r.date as int == if date <= OPENTTD_BASE_DATE { 0 } else { date - OPENTTD_BASE_DATE },
            r.date_fract == normalized_fract(date_fract),
            r.sub_date_fract == sub_date_fract,
            calendar_ymd_synced(r.date, r.year, r.month),
    {
        let date = calendar_day_index_from_openttd_date(date);
        let (year, month) = calendar_ymd(date);
        CalendarTimer {
            date,
            date_fract: normalized_date_fract(date_fract),
            sub_date_fract,
            year,
            month,
        }
    }

    /// Calendar day index (`tick / DAY_TICKS`).
    pub fn day_index(self) -> (r: u64)
        ensures
            r == self.date,
    {
        self.date as u64
    }

    fn sync_ymd(&mut self)
        ensures
            final(self).date == old(self).date,
            final(self).date_fract == old(self).date_fract,
            final(self).sub_date_fract == old(self).sub_date_fract,
            calendar_ymd_synced(final(self).date, final(self).year, final(self).month),
    {
        let (year, month) = calendar_ymd(self.date);
        self.year = year;
        self.month = month;
    }

    /// Advances the clock by one simulation tick.
    pub fn elapsed_tick(&mut self) -> (t: TimerTriggers)
        ensures
            old(self).date_fract + 1 < DAY_TICKS ==> {
                &&& *final(self) == CalendarTimer {
                    date_fract: (old(self).date_fract + 1) as u16,
                    ..*old(self)
                }
                &&& !t.new_day && !t.new_month && !t.new_year
            },
            old(self).date_fract + 1 >= DAY_TICKS ==> {
                &&& final(self).date_fract == 0
                &&& final(self).sub_date_fract == 0
                &&& final(self).date as int == if old(self).date == u32::MAX {
                    u32::MAX as int
                } else {
                    old(self).date + 1
                }
                &&& calendar_ymd_synced(final(self).date, final(self).year, final(self).month)
                &&& t.new_day
                &&& t.new_month == (final(self).month != old(self).month)
                &&& t.new_year == (final(self).year != old(self).year)
            },
    {
        self.date_fract = self.date_fract.saturating_add(1);
        if self.date_fract < DAY_TICKS {
            return TimerTriggers { new_day: false, new_month: false, new_year: false };
        }
        self.date_fract = 0;
        self.sub_date_fract = 0;
        self.date = self.date.saturating_add(1);
        let old_month = self.month;
        let old_year = self.year;
        self.sync_ymd();
        TimerTriggers {
            new_day: true,
            new_month: self.month != old_month,
            new_year: self.year != old_year,
        }
    }
}

/// Economy clock: interest, inflation, subsidies, industry production.
#[derive(Debug, Clone, Copy, PartialEq, Eq, Structural)]
pub struct EconomyTimer {
    pub date: u32,
    pub date_fract: u16,
    pub year: u32,
    pub month: u8,
    pub days_since_last_month: u32,
    /// Months are always 30 days (`TimerGameEconomy::UsingWallclockUnits`).
    pub using_wallclock: bool,
}

/// Year and month of an economy timer agree with its unit scheme.
pub open spec fn economy_ymd_synced(t: EconomyTimer) -> bool {
    if t.using_wallclock {
        wallclock_ymd_synced(t.date, t.year, t.month)
    } else {
        calendar_ymd_synced(t.date, t.year, t.month)
    }
}

impl Default for EconomyTimer {
    fn default() -> (r: EconomyTimer)
        ensures
            r == (EconomyTimer {
                date: 0,
                date_fract: 0,
                year: CALENDAR_BASE_YEAR,
                month: 0,
                days_since_last_month: 0,
                using_wallclock: false,
            }),
    {
        EconomyTimer {
            date: 0,
            date_fract: 0,
            year: CALENDAR_BASE_YEAR,
            month: 0,
            days_since_last_month: 0,
            using_wallclock: false,
        }
    }
}

/// Day within the current Gregorian month (1..=31).
fn days_in_current_month(date: u32) -> (r: u32)
    ensures
        r as nat == day_of_month(date as nat),
{
    calendar_day_of_month(date) as u32
}

/// Day within the current wallclock economy month (1..=30).
fn days_in_economy_month(date: u32) -> (r: u32)
    ensures
        r == date % DAYS_IN_ECONOMY_MONTH + 1,
{
    (date % DAYS_IN_ECONOMY_MONTH) + 1
}

impl EconomyTimer {
    pub fn from_tick(tick: u64) -> (r: EconomyTimer)
        ensures
            r.date as nat == day_of_tick(tick),
            r.date_fract as int == tick % (DAY_TICKS as u64),
            !r.using_wallclock,
            economy_ymd_synced(r),
            r.days_since_last_month as nat == day_of_month(r.date as nat),
    {
        Self::from_tick_with_wallclock(tick, false)
    }

    pub fn from_tick_with_wallclock(tick: u64, using_wallclock: bool) -> (r: EconomyTimer)
        ensures
            r.date as nat == day_of_tick(tick),
            r.date_fract as int == tick % (DAY_TICKS as u64),
            r.using_wallclock == using_wallclock,
            economy_ymd_synced(r),
            using_wallclock ==> r.days_since_last_month == r.date % DAYS_IN_ECONOMY_MONTH + 1,
            !using_wallclock ==> r.days_since_last_month as nat == day_of_month(r.date as nat),
    {
        let cal = CalendarTimer::from_tick(tick);
        let mut timer = EconomyTimer {
            date: cal.date,
            date_fract: cal.date_fract,
            year: cal.year,
            month: cal.month,
            days_since_last_month: 0,
            using_wallclock,
        };
        timer.sync_ymd();
        timer.days_since_last_month = if using_wallclock {
            days_in_economy_month(timer.date)
        } else {
            days_in_current_month(timer.date)
        };
        timer
    }

    /// Rebuilds the clock from the economy fields of a saved `DATE` chunk.
    pub fn from_openttd_date(
        date: i32,
        date_fract: u16,
        days_since_last_month: u32,
        using_wallclock: bool,
    ) -> (r: EconomyTimer)
        ensures
            r.date as int == spec_economy_day_index(date, using_wallclock),
            r.date_fract == normalized_fract(date_fract),
            r.days_since_last_month == days_since_last_month,
            r.using_wallclock == using_wallclock,
            economy_ymd_synced(r),
    {
        let date = economy_day_index_from_openttd_date(date, using_wallclock);
        let mut timer = EconomyTimer {
            date,
            date_fract: normalized_date_fract(date_fract),
            year: CALENDAR_BASE_YEAR,
            month: 0,
            days_since_last_month,
            using_wallclock,
        };
        timer.sync_ymd();
        timer
    }

    /// `TimerGameEconomy::UsingWallclockUnits`.
    pub fn using_wallclock_units(self) -> (r: bool)
        ensures
            r == self.using_wallclock,
    {
        self.using_wallclock
    }

    pub fn day_index(self) -> (r: u64)
        ensures
            r == self.date,
    {
        self.date as u64
    }

    fn sync_ymd(&mut self)
        ensures
            *final(self) == (EconomyTimer { year: final(self).year, month: final(self).month, ..*old(self) }),
            economy_ymd_synced(*final(self)),
    {
        if self.using_wallclock {
            self.year = CALENDAR_BASE_YEAR + self.date / DAYS_IN_ECONOMY_YEAR;
            self.month = ((self.date % DAYS_IN_ECONOMY_YEAR) / DAYS_IN_ECONOMY_MONTH) as u8;
        } else {
            let (year, month) = calendar_ymd(self.date);
            self.year = year;
            self.month = month;
        }
    }

    /// Advances the clock by one simulation tick.
    pub fn elapsed_tick(&mut self) -> (t: TimerTriggers)
        ensures
            old(self).date_fract + 1 < DAY_TICKS ==> {
                &&& *final(self) == EconomyTimer {
                    date_fract: (old(self).date_fract + 1) as u16,
                    ..*old(self)
                }
                &&& !t.new_day && !t.new_month && !t.new_year
            },
            old(self).date_fract + 1 >= DAY_TICKS ==> {
                &&& final(self).date_fract == 0
                &&& final(self).using_wallclock == old(self).using_wallclock
                &&& final(self).date as int == if old(self).date == u32::MAX {
                    u32::MAX as int
                } else {
                    old(self).date + 1
                }
                &&& economy_ymd_synced(*final(self))
                &&& t.new_day
                &&& t.new_month == (final(self).month != old(self).month)
                &&& t.new_year == (final(self).year != old(self).year)
                &&& final(self).days_since_last_month as int == if t.new_month {
                    0
                } else if old(self).days_since_last_month == u32::MAX {
                    u32::MAX as int
                } else {
                    old(self).days_since_last_month + 1
                }
            },
    {
        self.date_fract = self.date_fract.saturating_add(1);
        if self.date_fract < DAY_TICKS {
            return TimerTriggers { new_day: false, new_month: false, new_year: false };
        }
        self.date_fract = 0;
        self.date = self.date.saturating_add(1);
        self.days_since_last_month = self.days_since_last_month.saturating_add(1);
        let old_month = self.month;
        let old_year = self.year;
        self.sync_ymd();
        let new_month = self.month != old_month;
        let new_year = self.year != old_year;
        if new_month {
            self.days_since_last_month = 0;
        }
        TimerTriggers { new_day: true, new_month, new_year }
    }
}

/// Economy day index of an absolute `Date` (wallclock dates count from 702 000).
pub open spec fn spec_economy_day_index(date: i32, using_wallclock: bool) -> int {
    if !using_wallclock {
        if date <= OPENTTD_BASE_DATE {
            0
        } else {
            date - OPENTTD_BASE_DATE
        }
    } else if date <= OPENTTD_WALLCLOCK_ECONOMY_BASE_DATE {
        0
    } else {
        date - OPENTTD_WALLCLOCK_ECONOMY_BASE_DATE
    }
}

/// Converts a saved economy `Date` to the relative economy day counter.
pub fn economy_day_index_from_openttd_date(date: i32, using_wallclock: bool) -> (r: u32)
    ensures
        r as int == spec_economy_day_index(date, using_wallclock),
{
    if !using_wallclock {
        return calendar_day_index_from_openttd_date(date);
    }
    let relative: i64 = date as i64 - OPENTTD_WALLCLOCK_ECONOMY_BASE_DATE as i64;
    if relative <= 0 {
        0
    } else {
        relative as u32
    }
}

/// Converts the relative economy day counter to the `Date` that saves store.
pub fn openttd_economy_date_from_day_index(date: u32, using_wallclock: bool) -> (r: i32)
    ensures
        !using_wallclock ==> r as int == if OPENTTD_BASE_DATE + date > i32::MAX {
            i32::MAX as int
        } else {
            OPENTTD_BASE_DATE + date
        },
        using_wallclock ==> r as int == if OPENTTD_WALLCLOCK_ECONOMY_BASE_DATE + date > i32::MAX {
            i32::MAX as int
        } else {
            OPENTTD_WALLCLOCK_ECONOMY_BASE_DATE + date
        },
{
    if !using_wallclock {
        return openttd_date_from_calendar_day_index(date);
    }
    let v: i64 = OPENTTD_WALLCLOCK_ECONOMY_BASE_DATE as i64 + date as i64;
    if v > i32::MAX as i64 {
        i32::MAX
    } else {
        v as i32
    }
}

/// Simulation tick of the last `date_fract` of day `day_index`.
pub fn tick_at_end_of_day(day_index: u32) -> (r: u64)
    requires
        day_index < u32::MAX,
    ensures
        r == (day_index + 1) * (DAY_TICKS as int) - 1,
{
    (day_index + 1) as u64 * (DAY_TICKS as u64) - 1
}

/// Law: the tick returned by `tick_at_end_of_day` lies in that day and is its
/// last tick, so one more tick starts the next day.
pub proof fn lemma_end_of_day_tick_is_last_of_day(day_index: u32)
    requires
        day_index < u32::MAX,
    ensures
        ({
            let t = (day_index + 1) * (DAY_TICKS as int) - 1;
            &&& t / (DAY_TICKS as int) == day_index
            &&& t % (DAY_TICKS as int) == DAY_TICKS - 1
        }),
{
    let t = (day_index + 1) * (DAY_TICKS as int) - 1;
    assert(t == day_index * 74 + 73);
    assert((day_index * 74 + 73) / 74 == day_index) by (nonlinear_arith);
    assert((day_index * 74 + 73) % 74 == 73) by (nonlinear_arith);
}

} // verus!
