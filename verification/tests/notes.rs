use reflect_core::calendar::Day;
use reflect_core::entries::{Entries, EntryFile, Save, Saved};
use reflect_core::notes::NotesSession;
use reflect_core::prompts::prompt_for_date;
use reflect_core::settings::Settings;
use std::path::PathBuf;

fn day(year: i32, month: u32, day: u32) -> Day {
    Day::from_ymd(year, month, day).expect("test date must be a real date")
}

fn entries() -> Entries {
    Entries::in_dir(PathBuf::from("home/entries"))
}

/// Reflect as it comes out of the box: prompts on.
fn with_prompts() -> Settings {
    Settings::default()
}

/// Reflect as a plain journal.
fn without_prompts() -> Settings {
    Settings {
        show_prompts: false,
        ..Settings::default()
    }
}

fn kept(save: Save) -> EntryFile {
    match save {
        Save::Keep(file) => file,
        Save::NothingToSave => panic!("expected the day's file to be kept"),
    }
}

/// What closing did to a day that had no file before.
fn outcome_on_fresh_day(save: Save) -> Saved {
    match save {
        Save::Keep(file) => file.outcome(None),
        Save::NothingToSave => Saved::NothingToSave,
    }
}

#[test]
fn a_fresh_day_opens_on_that_days_prompt_and_a_blank_page() {
    let session = NotesSession::open(&entries(), &with_prompts(), day(2026, 7, 24), None);

    assert_eq!(session.prompt(), Some(prompt_for_date(day(2026, 7, 24))));
    assert_eq!(session.opened_with(), "");
}

#[test]
fn prompts_turned_off_leaves_the_page_with_no_prompt_at_all() {
    let session = NotesSession::open(&entries(), &without_prompts(), day(2026, 7, 24), None);

    assert_eq!(session.prompt(), None);
}

#[test]
fn turning_prompts_back_on_restores_the_day_its_own_prompt() {
    NotesSession::open(&entries(), &without_prompts(), day(2026, 7, 24), None);

    let reopened = NotesSession::open(&entries(), &with_prompts(), day(2026, 7, 24), None);

    assert_eq!(reopened.prompt(), Some(prompt_for_date(day(2026, 7, 24))));
}

#[test]
fn with_prompts_off_a_prompts_words_are_the_users_own() {
    let entries = entries();
    let session = NotesSession::open(&entries, &without_prompts(), day(2026, 7, 24), None);

    let outcome = outcome_on_fresh_day(session.close(&entries, prompt_for_date(day(2026, 7, 24))));

    assert_eq!(outcome, Saved::Wrote);
}

#[test]
fn closing_on_something_written_keeps_it() {
    let entries = entries();
    let session = NotesSession::open(&entries, &with_prompts(), day(2026, 7, 24), None);

    let file = kept(session.close(&entries, "Walked the long way home."));

    assert_eq!(file.outcome(None), Saved::Wrote);
    assert_eq!(file.file_name, "2026-07-24.txt");
    assert_eq!(
        entries.load(Some(&file.text)).as_deref(),
        Some("Walked the long way home.")
    );
}

#[test]
fn closing_an_untouched_window_keeps_nothing() {
    let entries = entries();
    let session = NotesSession::open(&entries, &with_prompts(), day(2026, 7, 24), None);

    let outcome = session.close(&entries, "");

    assert_eq!(outcome, Save::NothingToSave);
    assert_eq!(entries.load(None), None);
}

#[test]
fn a_window_holding_nothing_but_its_own_prompt_counts_as_untouched() {
    let entries = entries();
    let session = NotesSession::open(&entries, &with_prompts(), day(2026, 7, 24), None);

    let prompt = session.prompt().expect("prompts are on in this session");
    let outcome = session.close(&entries, prompt);

    assert_eq!(outcome, Save::NothingToSave);
    assert_eq!(entries.load(None), None);
}

#[test]
fn reopening_a_finished_day_and_closing_it_again_changes_nothing() {
    let entries = entries();
    let first = kept(
        NotesSession::open(&entries, &with_prompts(), day(2026, 7, 24), None)
            .close(&entries, "Written this morning."),
    );

    let reopened =
        NotesSession::open(&entries, &with_prompts(), day(2026, 7, 24), Some(&first.text));
    let text = reopened.opened_with().to_owned();
    let again = kept(reopened.close(&entries, &text));

    assert_eq!(text, "Written this morning.");
    assert_eq!(again.outcome(Some(&first.text)), Saved::Unchanged);
}

#[test]
fn the_prompt_with_whitespace_round_it_still_counts_as_untouched() {
    let entries = entries();
    let session = NotesSession::open(&entries, &with_prompts(), day(2026, 7, 24), None);

    let padded = format!("  {}\n\n", session.prompt().unwrap());

    assert_eq!(session.close(&entries, &padded), Save::NothingToSave);
}

#[test]
fn the_prompt_with_more_written_after_it_is_kept() {
    let entries = entries();
    let session = NotesSession::open(&entries, &with_prompts(), day(2026, 7, 24), None);

    let written = format!("{}\nMy mother.", session.prompt().unwrap());
    let file = kept(session.close(&entries, &written));

    assert_eq!(file.text, format!("{}\n", written));
}
