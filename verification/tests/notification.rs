use reflect_core::notification::{REMINDER_BODY, REMINDER_TITLE};
use reflect_core::prompts::DEFAULT_PROMPTS;

#[test]
fn the_reminder_says_something_in_both_of_its_lines() {
    assert!(!REMINDER_TITLE.trim().is_empty());
    assert!(!REMINDER_BODY.trim().is_empty());
}

#[test]
fn the_reminder_gives_nothing_of_the_days_writing_away() {
    assert!(!REMINDER_BODY.contains('\n'));
    assert!(
        !DEFAULT_PROMPTS.contains(&REMINDER_BODY),
        "the reminder must not be one of the writing prompts"
    );
}
