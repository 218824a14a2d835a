use reflect_core::calendar::Day;
use reflect_core::prompts::{prompt_for_date, DEFAULT_PROMPTS};

fn day(year: i32, month: u32, day: u32) -> Day {
    Day::from_ymd(year, month, day).expect("test date must be a real date")
}

fn days_after(start: Day, offset: i32) -> Day {
    Day::from_number(start.number() + offset).expect("test date must be a real date")
}

#[test]
fn reopening_the_window_later_the_same_day_shows_the_same_prompt() {
    let today = day(2026, 7, 24);
    assert_eq!(prompt_for_date(today), prompt_for_date(today));
}

#[test]
fn a_full_run_of_days_shows_every_prompt_before_repeating_any() {
    let start = day(2026, 7, 24);
    let run: Vec<&str> = (0..DEFAULT_PROMPTS.len())
        .map(|offset| prompt_for_date(days_after(start, offset as i32)))
        .collect();

    let mut seen = run.clone();
    seen.sort_unstable();
    seen.dedup();
    assert_eq!(
        seen.len(),
        DEFAULT_PROMPTS.len(),
        "a prompt repeated inside a single run through the library: {run:?}"
    );
}

#[test]
fn the_library_comes_round_again_after_a_full_run() {
    let start = day(2026, 7, 24);
    let one_full_run_later = days_after(start, DEFAULT_PROMPTS.len() as i32);
    assert_eq!(prompt_for_date(start), prompt_for_date(one_full_run_later));
}

#[test]
fn neighbouring_days_get_different_prompts() {
    let today = day(2026, 7, 24);
    let tomorrow = days_after(today, 1);
    assert_ne!(prompt_for_date(today), prompt_for_date(tomorrow));
}

#[test]
fn dates_before_the_common_era_still_resolve_to_a_prompt() {
    assert!(DEFAULT_PROMPTS.contains(&prompt_for_date(day(-100, 3, 4))));
}

#[test]
fn the_shipped_library_is_thirty_distinct_prompts() {
    let mut prompts = DEFAULT_PROMPTS.to_vec();
    prompts.sort_unstable();
    prompts.dedup();
    assert_eq!(prompts.len(), DEFAULT_PROMPTS.len(), "duplicate prompt");
    assert!(DEFAULT_PROMPTS.iter().all(|p| !p.trim().is_empty()));
}

#[test]
fn consecutive_days_walk_the_library_in_order() {
    let start = day(2026, 7, 24);
    let first = DEFAULT_PROMPTS
        .iter()
        .position(|p| *p == prompt_for_date(start))
        .unwrap();
    for offset in 0..60 {
        assert_eq!(
            prompt_for_date(days_after(start, offset)),
            DEFAULT_PROMPTS[(first + offset as usize) % DEFAULT_PROMPTS.len()]
        );
    }
}

#[test]
fn the_prompt_is_the_day_number_taken_round_the_library() {
    // January 1 of year 1 is day 1; day 0 is the last day of 1 BCE.
    assert_eq!(prompt_for_date(day(1, 1, 1)), DEFAULT_PROMPTS[1]);
    assert_eq!(prompt_for_date(day(0, 12, 31)), DEFAULT_PROMPTS[0]);
    assert_eq!(prompt_for_date(day(0, 12, 30)), DEFAULT_PROMPTS[29]);
}
