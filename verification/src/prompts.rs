//! The writing prompt shown above the notes page.

use vstd::prelude::*;

use crate::calendar::Day;

verus! {

/// The prompt library Reflect ships with. Short, single-line, open-ended.
pub const DEFAULT_PROMPTS: [&'static str; 30] = [
    "What's one thing you're grateful for today?",
    "What took more out of you than you expected?",
    "What's something small that went well?",
    "Who did you think about today, and why?",
    "What did you learn about yourself this week?",
    "What would you do differently if today started over?",
    "What are you avoiding right now?",
    "What made you laugh recently?",
    "Where did your attention keep drifting today?",
    "What's one thing you're looking forward to?",
    "What felt harder than it should have?",
    "When did you feel most like yourself today?",
    "What's on your mind that you haven't said out loud?",
    "What did someone do for you lately that you never acknowledged?",
    "What would you tell yourself a year ago?",
    "What's something you've changed your mind about?",
    "What are you carrying that isn't yours to carry?",
    "What did you notice today that you'd usually walk past?",
    "What's the kindest thing you did today?",
    "What's draining your energy at the moment?",
    "What would a good tomorrow look like?",
    "What are you proud of that nobody else knows about?",
    "What's a decision you're circling without making?",
    "What did today ask of you?",
    "Where did you say yes when you meant no?",
    "What do you want more of in your life?",
    "What surprised you this week?",
    "What feels unfinished right now?",
    "Who would you like to reach out to, and what's stopping you?",
    "What's one thing worth remembering about today?",
];

/// How many prompts the library holds.
pub const PROMPT_COUNT: usize = 30;

/// Where in the library the prompt for the day numbered `n` sits: the day
/// number taken round the library, never negative.
pub open spec fn prompt_position(n: int) -> int {
    n % (PROMPT_COUNT as int)
}

/// Picks the prompt for `date` out of [`DEFAULT_PROMPTS`].
///
/// Seeded by the calendar date rather than randomly, so a day owns its
/// prompt: close the window and reopen it that evening and the same line is
/// waiting. Consecutive days walk the library in order and wrap, so every
/// prompt shows up once before any of them comes round again. A date before
/// the common era, with a negative day number, still lands in the library.
pub fn prompt_for_date(date: Day) -> (r: &'static str)
    ensures
        r == DEFAULT_PROMPTS@[prompt_position(date@)],
        0 <= prompt_position(date@) < PROMPT_COUNT,
{
    let n = date.number();
    // Shifted by a whole number of library lengths onto the positive side,
    // which leaves the position in the library where it was.
    let shifted = (n as i64 + 120_000_000) as u64;
    let position = (shifted % 30) as usize;
    assert(position == prompt_position(date@));
    DEFAULT_PROMPTS[position]
}

/// Consecutive days walk the library in order, wrapping after the last.
pub proof fn lemma_next_day_next_prompt(n: int)
    ensures
        prompt_position(n + 1) == (prompt_position(n) + 1) % (PROMPT_COUNT as int),
{
}

/// A full run of days shows every prompt before repeating any: two days
/// less than a library's length apart sit at different positions.
pub proof fn lemma_full_run_without_repeats(n: int, i: int, j: int)
    requires
        0 <= i < j < PROMPT_COUNT,
    ensures
        prompt_position(n + i) != prompt_position(n + j),
{
}

/// The library comes round again after a full run: a day and the day a
/// library's length later share a prompt.
pub proof fn lemma_library_comes_round(n: int)
    ensures
        prompt_position(n + PROMPT_COUNT) == prompt_position(n),
{
}


/// The shipped library is thirty distinct prompts, so a full run of days
/// shows thirty different lines.
pub proof fn lemma_prompts_distinct()
    ensures
        forall|i: int, j: int|
            0 <= i < j < PROMPT_COUNT ==> #[trigger] DEFAULT_PROMPTS@[i]@ != #[trigger] DEFAULT_PROMPTS@[j]@,
{
    reveal_strlit("What's one thing you're grateful for today?");
    reveal_strlit("What took more out of you than you expected?");
    reveal_strlit("What's something small that went well?");
    reveal_strlit("Who did you think about today, and why?");
    reveal_strlit("What did you learn about yourself this week?");
    reveal_strlit("What would you do differently if today started over?");
    reveal_strlit("What are you avoiding right now?");
    reveal_strlit("What made you laugh recently?");
    reveal_strlit("Where did your attention keep drifting today?");
    reveal_strlit("What's one thing you're looking forward to?");
    reveal_strlit("What felt harder than it should have?");
    reveal_strlit("When did you feel most like yourself today?");
    reveal_strlit("What's on your mind that you haven't said out loud?");
    reveal_strlit("What did someone do for you lately that you never acknowledged?");
    reveal_strlit("What would you tell yourself a year ago?");
    reveal_strlit("What's something you've changed your mind about?");
    reveal_strlit("What are you carrying that isn't yours to carry?");
    reveal_strlit("What did you notice today that you'd usually walk past?");
    reveal_strlit("What's the kindest thing you did today?");
    reveal_strlit("What's draining your energy at the moment?");
    reveal_strlit("What would a good tomorrow look like?");
    reveal_strlit("What are you proud of that nobody else knows about?");
    reveal_strlit("What's a decision you're circling without making?");
    reveal_strlit("What did today ask of you?");
    reveal_strlit("Where did you say yes when you meant no?");
    reveal_strlit("What do you want more of in your life?");
    reveal_strlit("What surprised you this week?");
    reveal_strlit("What feels unfinished right now?");
    reveal_strlit("Who would you like to reach out to, and what's stopping you?");
    reveal_strlit("What's one thing worth remembering about today?");
    assert(DEFAULT_PROMPTS@[0]@.len() == 43);
    assert(DEFAULT_PROMPTS@[1]@.len() == 44);
    assert(DEFAULT_PROMPTS@[2]@.len() == 38);
    assert(DEFAULT_PROMPTS@[3]@.len() == 39);
    assert(DEFAULT_PROMPTS@[4]@.len() == 44);
    assert(DEFAULT_PROMPTS@[5]@.len() == 52);
    assert(DEFAULT_PROMPTS@[6]@.len() == 32);
    assert(DEFAULT_PROMPTS@[7]@.len() == 29);
    assert(DEFAULT_PROMPTS@[8]@.len() == 45);
    assert(DEFAULT_PROMPTS@[9]@.len() == 43);
    assert(DEFAULT_PROMPTS@[10]@.len() == 37);
    assert(DEFAULT_PROMPTS@[11]@.len() == 43);
    assert(DEFAULT_PROMPTS@[12]@.len() == 51);
    assert(DEFAULT_PROMPTS@[13]@.len() == 63);
    assert(DEFAULT_PROMPTS@[14]@.len() == 40);
    assert(DEFAULT_PROMPTS@[15]@.len() == 48);
    assert(DEFAULT_PROMPTS@[16]@.len() == 48);
    assert(DEFAULT_PROMPTS@[17]@.len() == 55);
    assert(DEFAULT_PROMPTS@[18]@.len() == 39);
    assert(DEFAULT_PROMPTS@[19]@.len() == 42);
    assert(DEFAULT_PROMPTS@[20]@.len() == 37);
    assert(DEFAULT_PROMPTS@[21]@.len() == 51);
    assert(DEFAULT_PROMPTS@[22]@.len() == 49);
    assert(DEFAULT_PROMPTS@[23]@.len() == 26);
    assert(DEFAULT_PROMPTS@[24]@.len() == 40);
    assert(DEFAULT_PROMPTS@[25]@.len() == 38);
    assert(DEFAULT_PROMPTS@[26]@.len() == 29);
    assert(DEFAULT_PROMPTS@[27]@.len() == 32);
    assert(DEFAULT_PROMPTS@[28]@.len() == 60);
    assert(DEFAULT_PROMPTS@[29]@.len() == 47);
    assert(DEFAULT_PROMPTS@[7]@[5] != DEFAULT_PROMPTS@[26]@[5]);
    assert(DEFAULT_PROMPTS@[6]@[5] != DEFAULT_PROMPTS@[27]@[5]);
    assert(DEFAULT_PROMPTS@[10]@[5] != DEFAULT_PROMPTS@[20]@[5]);
    assert(DEFAULT_PROMPTS@[2]@[4] != DEFAULT_PROMPTS@[25]@[4]);
    assert(DEFAULT_PROMPTS@[3]@[2] != DEFAULT_PROMPTS@[18]@[2]);
    assert(DEFAULT_PROMPTS@[14]@[2] != DEFAULT_PROMPTS@[24]@[2]);
    assert(DEFAULT_PROMPTS@[0]@[24] != DEFAULT_PROMPTS@[9]@[24]);
    assert(DEFAULT_PROMPTS@[0]@[2] != DEFAULT_PROMPTS@[11]@[2]);
    assert(DEFAULT_PROMPTS@[9]@[2] != DEFAULT_PROMPTS@[11]@[2]);
    assert(DEFAULT_PROMPTS@[1]@[5] != DEFAULT_PROMPTS@[4]@[5]);
    assert(DEFAULT_PROMPTS@[15]@[4] != DEFAULT_PROMPTS@[16]@[4]);
    assert(DEFAULT_PROMPTS@[12]@[4] != DEFAULT_PROMPTS@[21]@[4]);
}

/// A full run of days shows thirty different prompts: two days less than a
/// library's length apart are given different lines.
pub proof fn lemma_full_run_shows_different_prompts(n: int, i: int, j: int)
    requires
        0 <= i < j < PROMPT_COUNT,
    ensures
        DEFAULT_PROMPTS@[prompt_position(n + i)]@ != DEFAULT_PROMPTS@[prompt_position(n + j)]@,
{
    lemma_full_run_without_repeats(n, i, j);
    lemma_prompts_distinct();
    let a = prompt_position(n + i);
    let b = prompt_position(n + j);
    if a < b {
        assert(DEFAULT_PROMPTS@[a]@ != DEFAULT_PROMPTS@[b]@);
    } else {
        assert(DEFAULT_PROMPTS@[b]@ != DEFAULT_PROMPTS@[a]@);
    }
}

/// Every prompt in the library is a question starting with `W`: what, who,
/// when, where.
pub proof fn lemma_prompts_start_with_w()
    ensures
        forall|i: int|
            0 <= i < PROMPT_COUNT ==> #[trigger] DEFAULT_PROMPTS@[i]@.len() > 0
                && DEFAULT_PROMPTS@[i]@[0] == 'W',
{
    reveal_strlit("What's one thing you're grateful for today?");
    reveal_strlit("What took more out of you than you expected?");
    reveal_strlit("What's something small that went well?");
    reveal_strlit("Who did you think about today, and why?");
    reveal_strlit("What did you learn about yourself this week?");
    reveal_strlit("What would you do differently if today started over?");
    reveal_strlit("What are you avoiding right now?");
    reveal_strlit("What made you laugh recently?");
    reveal_strlit("Where did your attention keep drifting today?");
    reveal_strlit("What's one thing you're looking forward to?");
    reveal_strlit("What felt harder than it should have?");
    reveal_strlit("When did you feel most like yourself today?");
    reveal_strlit("What's on your mind that you haven't said out loud?");
    reveal_strlit("What did someone do for you lately that you never acknowledged?");
    reveal_strlit("What would you tell yourself a year ago?");
    reveal_strlit("What's something you've changed your mind about?");
    reveal_strlit("What are you carrying that isn't yours to carry?");
    reveal_strlit("What did you notice today that you'd usually walk past?");
    reveal_strlit("What's the kindest thing you did today?");
    reveal_strlit("What's draining your energy at the moment?");
    reveal_strlit("What would a good tomorrow look like?");
    reveal_strlit("What are you proud of that nobody else knows about?");
    reveal_strlit("What's a decision you're circling without making?");
    reveal_strlit("What did today ask of you?");
    reveal_strlit("Where did you say yes when you meant no?");
    reveal_strlit("What do you want more of in your life?");
    reveal_strlit("What surprised you this week?");
    reveal_strlit("What feels unfinished right now?");
    reveal_strlit("Who would you like to reach out to, and what's stopping you?");
    reveal_strlit("What's one thing worth remembering about today?");
    assert(DEFAULT_PROMPTS@[0]@[0] == 'W');
    assert(DEFAULT_PROMPTS@[1]@[0] == 'W');
    assert(DEFAULT_PROMPTS@[2]@[0] == 'W');
    assert(DEFAULT_PROMPTS@[3]@[0] == 'W');
    assert(DEFAULT_PROMPTS@[4]@[0] == 'W');
    assert(DEFAULT_PROMPTS@[5]@[0] == 'W');
    assert(DEFAULT_PROMPTS@[6]@[0] == 'W');
    assert(DEFAULT_PROMPTS@[7]@[0] == 'W');
    assert(DEFAULT_PROMPTS@[8]@[0] == 'W');
    assert(DEFAULT_PROMPTS@[9]@[0] == 'W');
    assert(DEFAULT_PROMPTS@[10]@[0] == 'W');
    assert(DEFAULT_PROMPTS@[11]@[0] == 'W');
    assert(DEFAULT_PROMPTS@[12]@[0] == 'W');
    assert(DEFAULT_PROMPTS@[13]@[0] == 'W');
    assert(DEFAULT_PROMPTS@[14]@[0] == 'W');
    assert(DEFAULT_PROMPTS@[15]@[0] == 'W');
    assert(DEFAULT_PROMPTS@[16]@[0] == 'W');
    assert(DEFAULT_PROMPTS@[17]@[0] == 'W');
    assert(DEFAULT_PROMPTS@[18]@[0] == 'W');
    assert(DEFAULT_PROMPTS@[19]@[0] == 'W');
    assert(DEFAULT_PROMPTS@[20]@[0] == 'W');
    assert(DEFAULT_PROMPTS@[21]@[0] == 'W');
    assert(DEFAULT_PROMPTS@[22]@[0] == 'W');
    assert(DEFAULT_PROMPTS@[23]@[0] == 'W');
    assert(DEFAULT_PROMPTS@[24]@[0] == 'W');
    assert(DEFAULT_PROMPTS@[25]@[0] == 'W');
    assert(DEFAULT_PROMPTS@[26]@[0] == 'W');
    assert(DEFAULT_PROMPTS@[27]@[0] == 'W');
    assert(DEFAULT_PROMPTS@[28]@[0] == 'W');
    assert(DEFAULT_PROMPTS@[29]@[0] == 'W');
}

} // verus!
