use reflect_core::calendar::{
    Day, Moment, TimeOfDay, MAX_DAY_NUMBER, MAX_YEAR, MIN_DAY_NUMBER, MIN_YEAR,
};

#[test]
fn day_numbers_count_from_the_first_day_of_the_common_era() {
    assert_eq!(Day::from_ymd(1, 1, 1).unwrap().number(), 1);
    assert_eq!(Day::from_ymd(0, 12, 31).unwrap().number(), 0);
    assert_eq!(Day::from_ymd(2026, 7, 24).unwrap().number(), 739_821);
}

#[test]
fn only_real_dates_are_days() {
    assert!(Day::from_ymd(2024, 2, 29).is_some());
    assert!(Day::from_ymd(2000, 2, 29).is_some());
    assert!(Day::from_ymd(1900, 2, 29).is_none());
    assert!(Day::from_ymd(2023, 2, 29).is_none());
    assert!(Day::from_ymd(2026, 4, 31).is_none());
    assert!(Day::from_ymd(2026, 13, 1).is_none());
    assert!(Day::from_ymd(2026, 0, 1).is_none());
    assert!(Day::from_ymd(2026, 1, 0).is_none());
}

#[test]
fn the_calendar_ends_where_chrono_ends() {
    assert_eq!(Day::from_ymd(MIN_YEAR, 1, 1).unwrap().number(), MIN_DAY_NUMBER);
    assert_eq!(Day::from_ymd(MAX_YEAR, 12, 31).unwrap().number(), MAX_DAY_NUMBER);
    assert!(Day::from_ymd(MIN_YEAR - 1, 12, 31).is_none());
    assert!(Day::from_ymd(MAX_YEAR + 1, 1, 1).is_none());
}

#[test]
fn neighbouring_days_are_a_number_apart() {
    let new_year = Day::from_ymd(2026, 1, 1).unwrap();
    assert_eq!(new_year.pred(), Day::from_ymd(2025, 12, 31));
    assert_eq!(
        Day::from_ymd(2024, 2, 28).unwrap().succ(),
        Day::from_ymd(2024, 2, 29)
    );
    assert_eq!(Day::from_number(MIN_DAY_NUMBER).unwrap().pred(), None);
    assert_eq!(Day::from_number(MAX_DAY_NUMBER).unwrap().succ(), None);
}

#[test]
fn times_of_day_stop_short_of_midnight() {
    assert!(TimeOfDay::from_hms(23, 59, 59).is_some());
    assert!(TimeOfDay::from_hms(24, 0, 0).is_none());
    assert!(TimeOfDay::from_hms(12, 60, 0).is_none());
    assert!(TimeOfDay::new(86_399, 999_999_999).is_some());
    assert!(TimeOfDay::new(86_400, 0).is_none());
    assert!(TimeOfDay::new(0, 1_000_000_000).is_none());
}

#[test]
fn moments_are_ordered_by_day_then_time() {
    let day = Day::from_ymd(2026, 7, 24).unwrap();
    let next = day.succ().unwrap();
    let late = Moment::new(day, TimeOfDay::from_hms(23, 59, 59).unwrap());
    let early = Moment::new(next, TimeOfDay::from_hms(0, 0, 0).unwrap());

    assert!(late.is_at_or_before(&early));
    assert!(!early.is_at_or_before(&late));
    assert!(late.is_at_or_before(&late));
}
