use ep_rs::time::{day_of_year, days_in_month, is_leap_year, SimulationClock, Weekday};

#[test]
fn weekday_cycle() {
    let mut day = Weekday::Sunday;
    for _ in 0..7 {
        day = day.next();
    }
    assert_eq!(day, Weekday::Sunday);
}

#[test]
fn leap_year_check() {
    assert!(is_leap_year(2000));
    assert!(is_leap_year(2024));
    assert!(!is_leap_year(1900));
    assert!(!is_leap_year(2023));
}

#[test]
fn day_of_year_calc() {
    assert_eq!(day_of_year(1, 1, false), 1);
    assert_eq!(day_of_year(12, 31, false), 365);
    assert_eq!(day_of_year(12, 31, true), 366);
    assert_eq!(day_of_year(3, 1, false), 60);
    assert_eq!(day_of_year(3, 1, true), 61);
}

#[test]
fn weekday_from_index_and_weekdays() {
    assert_eq!(Weekday::from_index(1), Some(Weekday::Sunday));
    assert_eq!(Weekday::from_index(7), Some(Weekday::Saturday));
    assert_eq!(Weekday::from_index(0), None);
    assert_eq!(Weekday::from_index(8), None);
    assert!(Weekday::Monday.is_weekday());
    assert!(Weekday::Friday.is_weekday());
    assert!(!Weekday::Saturday.is_weekday());
    assert!(!Weekday::Sunday.is_weekday());
    assert_eq!(Weekday::Saturday.next(), Weekday::Sunday);
}

#[test]
fn month_lengths() {
    assert_eq!(days_in_month(2, true), 29);
    assert_eq!(days_in_month(2, false), 28);
    assert_eq!(days_in_month(4, false), 30);
    assert_eq!(days_in_month(12, false), 31);
    assert_eq!(days_in_month(0, false), 0);
    assert_eq!(days_in_month(13, true), 0);
    let total: u32 = (1..=12).map(|m| days_in_month(m, false) as u32).sum();
    assert_eq!(total, 365);
}

#[test]
fn negative_and_century_years() {
    assert!(is_leap_year(-4));
    assert!(is_leap_year(0));
    assert!(!is_leap_year(-100));
    assert!(is_leap_year(-400));
    assert!(!is_leap_year(2100));
}

#[test]
fn day_of_year_out_of_range_month() {
    // No month 0: no days before it.
    assert_eq!(day_of_year(0, 5, false), 5);
    // Months past December add nothing beyond the full year.
    assert_eq!(day_of_year(13, 1, false), 366);
}

#[test]
fn clock_starts_on_new_year() {
    let clock = SimulationClock::new(4);
    assert_eq!(clock.timesteps_per_hour, 4);
    assert_eq!(clock.day_of_year, 1);
    assert_eq!(clock.month, 1);
    assert_eq!(clock.day_of_month, 1);
    assert_eq!(clock.year, 2024);
    assert!(clock.is_leap_year);
    assert_eq!(clock.day_of_week, Weekday::Monday);
    assert_eq!(clock.hour_of_day, 0);
}

#[test]
fn clock_advance_day_keeps_calendar() {
    let mut clock = SimulationClock::new(4);
    for _ in 0..59 {
        clock.advance_day();
        assert_eq!(clock.day_of_year, day_of_year(clock.month, clock.day_of_month, clock.is_leap_year));
    }
    // 2024 is a leap year: day 60 is February 29th.
    assert_eq!(clock.day_of_year, 60);
    assert_eq!(clock.month, 2);
    assert_eq!(clock.day_of_month, 29);
    clock.advance_day();
    assert_eq!(clock.month, 3);
    assert_eq!(clock.day_of_month, 1);
    // Jan 1 was a Monday; 60 days later is a Friday.
    assert_eq!(clock.day_of_week, Weekday::Friday);
}

#[test]
fn clock_full_year() {
    let mut clock = SimulationClock::new(1);
    for _ in 0..365 {
        clock.advance_day();
    }
    assert_eq!(clock.month, 12);
    assert_eq!(clock.day_of_month, 31);
    assert_eq!(clock.day_of_year, 366);
}
