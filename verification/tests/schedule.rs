use reflect_core::calendar::{Day, Moment, TimeOfDay};
use reflect_core::schedule::{
    default_daily_time, recorded_moment_of, LastReminder, Recorded, Reminder, Schedule,
};
use std::path::PathBuf;

/// Reflect's reminder time in these tests: nine in the evening.
fn nine_pm() -> TimeOfDay {
    default_daily_time()
}

fn schedule() -> Schedule {
    Schedule::daily_at(nine_pm())
}

fn day(year: i32, month: u32, day: u32) -> Day {
    Day::from_ymd(year, month, day).expect("test date must be a real date")
}

/// A wall-clock instant on the 24th of July 2026.
fn at(hour: u32, minute: u32) -> Moment {
    on(24, hour, minute)
}

/// The same, on any day of that July.
fn on(date: u32, hour: u32, minute: u32) -> Moment {
    Moment::new(
        day(2026, 7, date),
        TimeOfDay::from_hms(hour, minute, 0).expect("test clock time must be a real time"),
    )
}

fn record() -> LastReminder {
    LastReminder::at(PathBuf::from("home/last-reminder.txt"))
}

#[test]
fn the_reminder_fires_when_the_clock_reaches_the_appointed_hour() {
    let last_night = on(23, 21, 0);

    assert_eq!(
        schedule().due(at(21, 0), last_night),
        Reminder::Due {
            occurrence: at(21, 0)
        }
    );
}

#[test]
fn nothing_fires_before_the_appointed_hour() {
    let last_night = on(23, 21, 0);

    assert_eq!(schedule().due(at(20, 59), last_night), Reminder::NotDue);
}

#[test]
fn a_machine_asleep_at_the_hour_gets_its_reminder_when_it_wakes() {
    let last_reminded = on(23, 21, 0);

    assert_eq!(
        schedule().due(on(25, 12, 0), last_reminded),
        Reminder::Due {
            occurrence: on(24, 21, 0)
        }
    );
}

#[test]
fn a_catch_up_is_let_go_when_the_next_reminder_is_nearly_here() {
    let last_reminded = on(23, 21, 0);

    assert_eq!(schedule().due(on(25, 20, 30), last_reminded), Reminder::NotDue);
}

#[test]
fn the_reminder_let_go_is_only_that_one_and_the_next_still_fires() {
    let last_reminded = on(23, 21, 0);
    let schedule = schedule();

    assert_eq!(schedule.due(on(25, 20, 30), last_reminded), Reminder::NotDue);
    assert_eq!(
        schedule.due(on(25, 21, 0), last_reminded),
        Reminder::Due {
            occurrence: on(25, 21, 0)
        }
    );
}

#[test]
fn a_catch_up_an_hour_and_a_minute_short_of_the_next_still_fires() {
    let last_reminded = on(23, 21, 0);

    assert_eq!(
        schedule().due(on(25, 19, 59), last_reminded),
        Reminder::Due {
            occurrence: on(24, 21, 0)
        }
    );
}

#[test]
fn a_catch_up_exactly_an_hour_short_of_the_next_is_let_go() {
    let last_reminded = on(23, 21, 0);

    assert_eq!(schedule().due(on(25, 20, 0), last_reminded), Reminder::NotDue);
}

#[test]
fn a_reminder_already_sent_is_not_sent_again_that_day() {
    let schedule = schedule();
    let sent = at(21, 0);

    assert_eq!(schedule.due(at(21, 0), sent), Reminder::NotDue);
    assert_eq!(schedule.due(at(21, 30), sent), Reminder::NotDue);
    assert_eq!(schedule.due(at(23, 59), sent), Reminder::NotDue);
}

#[test]
fn a_reminder_sent_yesterday_does_not_stand_in_for_todays() {
    assert_eq!(
        schedule().due(at(21, 0), on(23, 21, 0)),
        Reminder::Due {
            occurrence: at(21, 0)
        }
    );
}

#[test]
fn a_record_from_the_future_keeps_the_reminder_quiet_rather_than_firing_it() {
    assert_eq!(schedule().due(at(21, 0), on(30, 21, 0)), Reminder::NotDue);
}

#[test]
fn the_occurrence_before_the_hour_belongs_to_the_day_before() {
    let schedule = schedule();

    assert_eq!(schedule.occurrence_on_or_before(at(20, 59)), on(23, 21, 0));
    assert_eq!(schedule.occurrence_on_or_before(at(21, 0)), at(21, 0));
    assert_eq!(schedule.occurrence_on_or_before(at(23, 59)), at(21, 0));
}

#[test]
fn a_fresh_install_starts_from_the_last_occurrence_rather_than_catching_up() {
    let schedule = schedule();

    let resumed = record().load_or_start(None, &schedule, at(21, 10));

    assert_eq!(resumed.last_reminded, at(21, 0));
    assert!(resumed.restarted);
    assert_eq!(schedule.due(at(21, 10), resumed.last_reminded), Reminder::NotDue);
}

#[test]
fn a_reminder_sent_is_still_remembered_after_a_restart() {
    let written = record().record(at(21, 0));

    let resumed = record().load_or_start(Some(&written), &schedule(), at(22, 0));

    assert_eq!(resumed.last_reminded, at(21, 0));
    assert!(!resumed.restarted);
}

#[test]
fn a_record_from_the_future_is_repaired_rather_than_left_to_expire() {
    let written = record().record(on(31, 21, 0));

    let resumed = record().load_or_start(Some(&written), &schedule(), at(22, 0));
    assert_eq!(resumed.last_reminded, at(21, 0));
    assert!(resumed.restarted);

    // Repaired on disk too, not just for this one reading of it.
    let repaired = record().record(resumed.last_reminded);
    let again = record().load_or_start(Some(&repaired), &schedule(), at(23, 0));
    assert_eq!(again.last_reminded, at(21, 0));
    assert!(!again.restarted);
}

#[test]
fn a_record_nobody_can_read_starts_over_instead_of_giving_up() {
    let resumed = record().load_or_start(Some("sometime last tuesday"), &schedule(), at(22, 0));

    assert_eq!(resumed.last_reminded, at(21, 0));
    assert!(resumed.restarted);
}

#[test]
fn the_record_is_a_plain_readable_timestamp() {
    assert_eq!(record().record(at(21, 0)), "2026-07-24T21:00:00\n");
}

#[test]
fn a_record_written_by_hand_with_spaces_and_windows_line_ends_still_reads() {
    let resumed = record().load_or_start(Some("  2026-07-23T21:00:00\r\n"), &schedule(), at(22, 0));

    assert_eq!(resumed.last_reminded, on(23, 21, 0));
    assert!(!resumed.restarted);
}

#[test]
fn a_record_naming_a_leap_second_is_kept_folded_into_its_second() {
    let resumed = record().load_or_start(Some("2026-07-23T23:59:60\n"), &schedule(), at(22, 0));

    assert_eq!(
        resumed.last_reminded,
        Moment::new(day(2026, 7, 23), TimeOfDay::new(86_399, 999_999_999).unwrap())
    );
    assert!(!resumed.restarted);
}

#[test]
fn a_record_keeps_the_second_but_not_the_fraction() {
    let moment = Moment::new(day(2026, 7, 24), TimeOfDay::new(21 * 3600 + 7, 500).unwrap());

    assert_eq!(record().record(moment), "2026-07-24T21:00:07\n");
}

#[test]
fn the_default_reminder_time_is_nine_in_the_evening() {
    assert_eq!(nine_pm(), TimeOfDay::from_hms(21, 0, 0).unwrap());
}

#[test]
fn a_dismissed_reminder_stays_quiet_until_the_next_occurrence() {
    // Law: once an occurrence is recorded, nothing is owed up to the next.
    let schedule = schedule();
    let sent = on(24, 21, 0);

    assert_eq!(schedule.due(on(25, 20, 59), sent), Reminder::NotDue);
    assert_eq!(
        schedule.due(on(25, 21, 0), sent),
        Reminder::Due {
            occurrence: on(25, 21, 0)
        }
    );
}

#[test]
fn the_first_day_chrono_knows_has_no_day_before_it() {
    let first = Day::from_number(reflect_core::calendar::MIN_DAY_NUMBER).unwrap();
    let early = Moment::new(first, TimeOfDay::from_hms(8, 0, 0).unwrap());

    assert_eq!(
        schedule().occurrence_on_or_before(early),
        Moment::new(first, nine_pm())
    );
}

#[test]
fn looking_ahead_is_refused_only_on_the_last_day_chrono_knows() {
    let last = Day::from_number(reflect_core::calendar::MAX_DAY_NUMBER).unwrap();
    let late = Moment::new(last, TimeOfDay::from_hms(22, 0, 0).unwrap());
    let early = Moment::new(last, TimeOfDay::from_hms(8, 0, 0).unwrap());

    assert!(!schedule().can_look_ahead_from(late));
    assert!(schedule().can_look_ahead_from(early));
    assert!(schedule().can_look_ahead_from(at(22, 0)));
}

#[test]
fn a_moment_read_from_the_record_is_the_moment_it_numbers() {
    assert_eq!(
        recorded_moment_of(Some((739_821, 75_600, 0))),
        Some(Recorded {
            moment: at(21, 0),
            leap_second: false
        })
    );
    assert_eq!(
        recorded_moment_of(Some((739_821, 86_399, 1_000_000_000))),
        Some(Recorded {
            moment: Moment::new(day(2026, 7, 24), TimeOfDay::new(86_399, 999_999_999).unwrap()),
            leap_second: true
        })
    );
    assert_eq!(recorded_moment_of(None), None);
}

/// The last nanosecond of 21:59:59 on the 24th.
fn just_before_ten() -> Moment {
    Moment::new(day(2026, 7, 24), TimeOfDay::new(21 * 3600 + 59 * 60 + 59, 999_999_999).unwrap())
}

#[test]
fn a_leap_second_record_lies_after_every_moment_of_its_second() {
    let resumed = record().load_or_start(Some("2026-07-24T21:59:60\n"), &schedule(), just_before_ten());

    assert_eq!(resumed.last_reminded, at(21, 0));
    assert!(resumed.restarted);
}

#[test]
fn a_leap_second_record_is_kept_once_its_second_is_over() {
    let resumed = record().load_or_start(Some("2026-07-24T21:59:60\n"), &schedule(), at(22, 0));

    assert_eq!(resumed.last_reminded, just_before_ten());
    assert!(!resumed.restarted);
}

#[test]
fn a_daily_time_left_where_it_was_leaves_the_record_alone() {
    assert_eq!(record().follow_time_change(nine_pm(), nine_pm(), at(22, 0)), None);
}

#[test]
fn a_time_moved_to_earlier_this_evening_does_not_fire_when_settings_close() {
    let seven = TimeOfDay::from_hms(19, 0, 0).unwrap();
    let written = record().follow_time_change(nine_pm(), seven, at(20, 0));

    assert_eq!(written.as_deref(), Some("2026-07-24T19:00:00\n"));

    let moved = Schedule::daily_at(seven);
    let resumed = record().load_or_start(written.as_deref(), &moved, at(20, 0));
    assert_eq!(moved.due(at(20, 0), resumed.last_reminded), Reminder::NotDue);
    assert_eq!(
        moved.due(on(25, 19, 0), resumed.last_reminded),
        Reminder::Due {
            occurrence: on(25, 19, 0)
        }
    );
}

#[test]
fn a_time_moved_to_later_this_evening_still_fires_tonight() {
    let half_eight = TimeOfDay::from_hms(20, 30, 0).unwrap();
    let written = record().follow_time_change(nine_pm(), half_eight, at(20, 0));

    assert_eq!(written.as_deref(), Some("2026-07-23T20:30:00\n"));

    let moved = Schedule::daily_at(half_eight);
    let resumed = record().load_or_start(written.as_deref(), &moved, at(20, 0));
    assert_eq!(moved.due(at(20, 0), resumed.last_reminded), Reminder::NotDue);
    assert_eq!(
        moved.due(at(20, 30), resumed.last_reminded),
        Reminder::Due {
            occurrence: at(20, 30)
        }
    );
}
