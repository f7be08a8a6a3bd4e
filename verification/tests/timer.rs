use openttdrs_core::calendar::CALENDAR_BASE_YEAR;
use openttdrs_core::timer::{tick_at_end_of_day, CalendarTimer, EconomyTimer, DAY_TICKS};

#[test]
fn date_fract_wraps_at_day_ticks() {
    let mut cal = CalendarTimer::from_tick(u64::from(DAY_TICKS) - 1);
    assert_eq!(cal.date_fract, DAY_TICKS - 1);
    let triggers = cal.elapsed_tick();
    assert!(triggers.new_day);
    assert_eq!(cal.date_fract, 0);
    assert_eq!(cal.date, 1);
}

#[test]
fn calendar_day_increments_on_rollover() {
    let mut cal = CalendarTimer::from_tick(0);
    for _ in 0..i32::from(DAY_TICKS) - 1 {
        assert!(!cal.elapsed_tick().new_day);
    }
    assert!(cal.elapsed_tick().new_day);
    assert_eq!(cal.day_index(), 1);
}

#[test]
fn economy_timer_month_year_triggers() {
    let mut eco = EconomyTimer::from_tick(tick_at_end_of_day(30));
    let triggers = eco.elapsed_tick();
    assert!(triggers.new_day);
    assert!(triggers.new_month);
    assert!(!triggers.new_year);
    assert_eq!(eco.month, 1);
    assert_eq!(eco.days_since_last_month, 0);
    assert_eq!(eco.year, CALENDAR_BASE_YEAR);
}

#[test]
fn economy_timer_year_trigger_on_new_calendar_year() {
    let last_day = u32::try_from(365 - 1).unwrap();
    let mut eco = EconomyTimer::from_tick(tick_at_end_of_day(last_day));
    let triggers = eco.elapsed_tick();
    assert!(triggers.new_day);
    assert!(triggers.new_month);
    assert!(triggers.new_year);
    assert_eq!(eco.year, CALENDAR_BASE_YEAR + 1);
}

#[test]
fn wallclock_economy_months_are_30_days() {
    let mut eco = EconomyTimer::from_tick_with_wallclock(tick_at_end_of_day(29), true);
    assert!(eco.using_wallclock_units());
    assert_eq!(eco.month, 0);
    let triggers = eco.elapsed_tick();
    assert!(triggers.new_day);
    assert!(triggers.new_month);
    assert_eq!(eco.month, 1);
    assert_eq!(eco.days_since_last_month, 0);
    let mut cal = CalendarTimer::from_tick(tick_at_end_of_day(29));
    let cal_t = cal.elapsed_tick();
    assert!(cal_t.new_day);
    assert!(!cal_t.new_month);
}

#[test]
fn wallclock_economy_year_is_360_days() {
    let mut eco = EconomyTimer::from_tick_with_wallclock(tick_at_end_of_day(359), true);
    let triggers = eco.elapsed_tick();
    assert!(triggers.new_year);
    assert!(triggers.new_month);
    assert_eq!(eco.year, CALENDAR_BASE_YEAR + 1);
    assert_eq!(eco.month, 0);
}

#[test]
fn end_of_day_tick_is_the_last_tick_of_that_day() {
    let cal = CalendarTimer::from_tick(tick_at_end_of_day(3));
    assert_eq!(cal.date, 3);
    assert_eq!(cal.date_fract, DAY_TICKS - 1);
}
