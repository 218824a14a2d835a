use reflect_core::calendar::TimeOfDay;
use reflect_core::schedule::default_daily_time;
use reflect_core::settings::{format_daily_time, parse_daily_time, parse_switch, Settings, SettingsFile};
use std::path::PathBuf;

/// A wall-clock time these tests can talk about.
fn time(hour: u32, minute: u32) -> TimeOfDay {
    TimeOfDay::from_hms(hour, minute, 0).expect("test time must be a real time")
}

fn file() -> SettingsFile {
    SettingsFile::at(PathBuf::from("home/settings.txt"))
}

#[test]
fn a_first_run_gets_the_evening_nudge_and_its_prompts() {
    let settings = file().load(None);

    assert_eq!(settings.daily_time, default_daily_time());
    assert!(settings.show_prompts);
    assert!(settings.start_at_login);
}

#[test]
fn what_the_user_set_is_what_they_get_back() {
    let chosen = Settings {
        daily_time: time(7, 30),
        show_prompts: false,
        start_at_login: false,
    };

    let written = file().save(&chosen);

    assert_eq!(file().load(Some(&written)), chosen);
}

#[test]
fn settings_are_a_plain_readable_file_anyone_can_open() {
    let written = file().save(&Settings {
        daily_time: time(7, 30),
        show_prompts: false,
        start_at_login: true,
    });

    assert_eq!(
        written,
        "daily-time = 07:30\nshow-prompts = off\nstart-at-login = on\n"
    );
}

#[test]
fn the_settings_folder_is_created_rather_than_demanded() {
    let file = SettingsFile::at(PathBuf::from("home/never/made/settings.txt"));

    let written = file.save(&Settings::default());

    assert_eq!(file.load(Some(&written)), Settings::default());
}

#[test]
fn a_line_nobody_can_read_falls_back_only_for_itself() {
    let settings = file().load(Some("daily-time = half past ten\nshow-prompts = off\n"));

    assert_eq!(settings.daily_time, default_daily_time());
    assert!(!settings.show_prompts);
}

#[test]
fn lines_reflect_knows_nothing_about_are_left_alone() {
    let settings = file().load(Some("# my settings\ntheme = midnight\n\ndaily-time = 07:30\n"));

    assert_eq!(settings.daily_time, time(7, 30));
}

#[test]
fn a_hand_edited_file_is_read_the_way_it_was_meant() {
    let settings = file().load(Some("  Daily-Time=07:30  \n\tSHOW-PROMPTS = Off\n"));

    assert_eq!(settings.daily_time, time(7, 30));
    assert!(!settings.show_prompts);
}

#[test]
fn a_time_written_out_reads_back_as_the_same_time() {
    assert_eq!(format_daily_time(time(7, 30)), "07:30");
    assert_eq!(
        parse_daily_time(&format_daily_time(time(7, 30))),
        Some(time(7, 30))
    );
}

#[test]
fn a_time_carrying_seconds_is_still_a_time() {
    assert_eq!(parse_daily_time("07:30:00"), Some(time(7, 30)));
    assert_eq!(parse_daily_time("07:30"), Some(time(7, 30)));
}

#[test]
fn something_that_isnt_a_time_of_day_is_refused_rather_than_guessed_at() {
    assert_eq!(parse_daily_time(""), None);
    assert_eq!(parse_daily_time("7pm"), None);
    assert_eq!(parse_daily_time("25:00"), None);
}

#[test]
fn every_minute_of_the_day_reads_back_as_itself() {
    for hour in 0..24 {
        for minute in 0..60 {
            let t = time(hour, minute);
            assert_eq!(parse_daily_time(&format_daily_time(t)), Some(t));
        }
    }
}

#[test]
fn a_time_is_set_to_the_minute_whatever_precision_arrived() {
    assert_eq!(parse_daily_time(" 07:30:45 "), Some(time(7, 30)));
    assert_eq!(
        format_daily_time(TimeOfDay::from_hms(7, 30, 45).unwrap()),
        "07:30"
    );
}

#[test]
fn a_leap_second_is_still_read_as_its_minute() {
    assert_eq!(parse_daily_time("23:59:60"), Some(time(23, 59)));
}

#[test]
fn the_switch_reads_on_and_off_whatever_the_case() {
    assert_eq!(parse_switch(" On "), Some(true));
    assert_eq!(parse_switch("OFF"), Some(false));
    assert_eq!(parse_switch("yes"), None);
}

#[test]
fn the_last_line_of_a_setting_said_twice_wins() {
    let settings = file().load(Some("daily-time = 07:30\ndaily-time = 08:15\n"));

    assert_eq!(settings.daily_time, time(8, 15));
}

#[test]
fn a_value_may_itself_hold_an_equals_sign_and_is_then_refused() {
    let settings = file().load(Some("daily-time = 07:30 = 08:00\n"));

    assert_eq!(settings.daily_time, default_daily_time());
}

#[test]
fn a_file_without_a_final_newline_still_has_its_last_line_read() {
    let settings = file().load(Some("show-prompts = off"));

    assert!(!settings.show_prompts);
}

#[test]
fn windows_line_ends_are_read_the_same() {
    let settings = file().load(Some("daily-time = 06:05\r\nshow-prompts = off\r\n"));

    assert_eq!(settings.daily_time, time(6, 5));
    assert!(!settings.show_prompts);
}

#[test]
fn settings_with_prompts_on_are_written_with_on() {
    let written = file().save(&Settings::default());

    assert_eq!(
        written,
        "daily-time = 21:00\nshow-prompts = on\nstart-at-login = on\n"
    );
}

#[test]
fn starting_at_login_can_be_switched_off_by_hand() {
    let settings = file().load(Some("start-at-login = OFF\n"));

    assert!(!settings.start_at_login);
    assert!(settings.show_prompts);
    assert_eq!(settings.daily_time, default_daily_time());
}

#[test]
fn a_start_at_login_line_nobody_can_read_leaves_it_on() {
    let settings = file().load(Some("start-at-login = sometimes\nshow-prompts = off\n"));

    assert!(settings.start_at_login);
    assert!(!settings.show_prompts);
}

#[test]
fn starting_at_login_switched_off_is_written_off() {
    let chosen = Settings {
        start_at_login: false,
        ..Settings::default()
    };
    let written = file().save(&chosen);

    assert_eq!(
        written,
        "daily-time = 21:00\nshow-prompts = on\nstart-at-login = off\n"
    );
    assert_eq!(file().load(Some(&written)), chosen);
}

#[test]
fn a_time_read_is_taken_to_its_minute() {
    assert_eq!(reflect_core::settings::daily_time_of(Some((7 * 3600 + 30 * 60 + 45, 5))), Some(time(7, 30)));
    assert_eq!(reflect_core::settings::daily_time_of(Some((86_399, 1_500_000_000))), Some(time(23, 59)));
    assert_eq!(reflect_core::settings::daily_time_of(None), None);
}
