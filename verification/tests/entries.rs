use reflect_core::calendar::{Day, MAX_DAY_NUMBER, MIN_DAY_NUMBER};
use reflect_core::entries::{
    entry_date, format_entry_date, parse_entry_date, Entries, EntryFile, ListedFile, Save, Saved,
};
use std::path::PathBuf;

fn day(year: i32, month: u32, day: u32) -> Day {
    Day::from_ymd(year, month, day).expect("test date must be a real date")
}

fn entries() -> Entries {
    Entries::in_dir(PathBuf::from("home/entries"))
}

/// The file a save asks for, where it asks for one.
fn kept(save: Save) -> EntryFile {
    match save {
        Save::Keep(file) => file,
        Save::NothingToSave => panic!("expected the day's file to be kept"),
    }
}

fn listed(name: &str, text: &str) -> ListedFile {
    ListedFile {
        name: name.to_string(),
        is_file: true,
        len: text.len() as u64,
    }
}

#[test]
fn a_written_entry_lands_in_a_file_named_for_its_day() {
    let file = kept(entries().save(day(2026, 7, 24), "Rain all afternoon. I liked it."));

    assert_eq!(file.file_name, "2026-07-24.txt");
    assert_eq!(file.text.trim(), "Rain all afternoon. I liked it.");
    assert_eq!(file.outcome(None), Saved::Wrote);
}

#[test]
fn a_day_with_nothing_on_it_leaves_no_file_behind() {
    assert_eq!(
        entries().save(day(2026, 7, 24), "   \n\t  "),
        Save::NothingToSave
    );
}

#[test]
fn saving_the_very_same_words_again_does_not_touch_the_file() {
    let first = kept(entries().save(day(2026, 7, 24), "Same words as before."));

    let again = kept(entries().save(day(2026, 7, 24), "Same words as before."));

    assert_eq!(again.outcome(Some(&first.text)), Saved::Unchanged);
}

#[test]
fn what_was_written_on_a_day_reads_back_word_for_word() {
    let file = kept(entries().save(day(2026, 7, 24), "Two lines.\nThe second one."));

    assert_eq!(
        entries().load(Some(&file.text)).as_deref(),
        Some("Two lines.\nThe second one.")
    );
}

#[test]
fn an_entry_file_ends_with_a_newline_like_any_other_text_file() {
    let file = kept(entries().save(day(2026, 7, 24), "One line."));

    assert_eq!(file.text, "One line.\n");
}

#[test]
fn the_days_written_on_come_back_most_recent_first() {
    let mut listing = Vec::new();
    for date in [day(2026, 7, 24), day(2025, 12, 31), day(2026, 7, 25)] {
        let file = kept(entries().save(date, "Something."));
        listing.push(listed(&file.file_name, &file.text));
    }

    assert_eq!(
        entries().dates(&listing),
        vec![day(2026, 7, 25), day(2026, 7, 24), day(2025, 12, 31)]
    );
}

#[test]
fn before_anyone_has_written_a_word_there_are_no_days_to_list() {
    assert_eq!(entries().dates(&Vec::new()), Vec::new());
}

#[test]
fn whatever_else_is_in_the_folder_is_not_a_day() {
    let file = kept(entries().save(day(2026, 7, 24), "The one real entry."));
    let listing = vec![
        listed(&file.file_name, &file.text),
        listed("notes.txt", "shopping list"),
        listed("2026-07-25.md", "written elsewhere"),
        listed("2026-13-40.txt", "not a date"),
        listed("2026-7-4.txt", "hand-named"),
        ListedFile {
            name: "2026-07-26.txt".to_string(),
            is_file: false,
            len: 4096,
        },
        listed("2026-07-21.txt", ""),
    ];

    assert_eq!(entries().dates(&listing), vec![day(2026, 7, 24)]);
}

#[test]
fn a_day_never_written_on_reads_back_as_nothing() {
    assert_eq!(entries().load(None), None);
}

#[test]
fn an_empty_entry_file_is_no_entry() {
    assert_eq!(entries().load(Some("")), None);
}

#[test]
fn an_entry_file_of_blank_lines_is_no_entry() {
    assert_eq!(entries().load(Some("  \n\t\r\n")), None);
}

#[test]
fn a_file_resaved_from_notepad_reads_back_the_way_reflect_wrote_it() {
    assert_eq!(
        entries().load(Some("Rain.\r\n\r\n")).as_deref(),
        Some("Rain.")
    );
}

#[test]
fn writing_over_a_different_entry_is_a_write() {
    let file = kept(entries().save(day(2026, 7, 24), "Second thoughts."));

    assert_eq!(file.outcome(Some("First thoughts.\n")), Saved::Wrote);
}

#[test]
fn a_date_written_out_reads_back_as_the_same_day() {
    let date = day(2026, 7, 24);
    assert_eq!(format_entry_date(date), "2026-07-24");
    assert_eq!(parse_entry_date(&format_entry_date(date)), Some(date));
    assert_eq!(parse_entry_date(" 2026-07-24 "), Some(date));
}

#[test]
fn dates_outside_the_four_digit_years_carry_a_sign() {
    assert_eq!(format_entry_date(day(-1, 1, 1)), "-0001-01-01");
    assert_eq!(format_entry_date(day(12345, 6, 7)), "+12345-06-07");
    assert_eq!(format_entry_date(day(33, 1, 2)), "0033-01-02");
    for date in [day(-1, 1, 1), day(12345, 6, 7), day(33, 1, 2)] {
        assert_eq!(parse_entry_date(&format_entry_date(date)), Some(date));
    }
}

#[test]
fn the_first_and_last_days_chrono_knows_read_back() {
    for n in [MIN_DAY_NUMBER, MAX_DAY_NUMBER] {
        let date = Day::from_number(n).unwrap();
        assert_eq!(parse_entry_date(&format_entry_date(date)), Some(date));
    }
    assert_eq!(Day::from_number(MIN_DAY_NUMBER - 1), None);
    assert_eq!(Day::from_number(MAX_DAY_NUMBER + 1), None);
}

#[test]
fn something_that_isnt_a_date_is_not_read_as_one() {
    assert_eq!(parse_entry_date("2026-13-40"), None);
    assert_eq!(parse_entry_date("yesterday"), None);
    assert_eq!(parse_entry_date(""), None);
}

#[test]
fn only_a_name_reflect_would_have_written_is_a_day() {
    assert_eq!(entry_date("2026-07-24.txt"), Some(day(2026, 7, 24)));
    assert_eq!(entry_date("2026-7-4.txt"), None);
    assert_eq!(entry_date("2026-07-24.md"), None);
    assert_eq!(entry_date(" 2026-07-24.txt"), None);
    assert_eq!(entry_date(".txt"), None);
}

#[test]
fn a_day_file_is_named_with_its_date_and_txt() {
    assert_eq!(Entries::file_name_for(day(2025, 12, 31)), "2025-12-31.txt");
}
