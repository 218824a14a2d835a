//! What the daily reminder says.
//!
//! Here rather than beside whichever platform happens to display it, for the
//! same reason the tray menu's labels are: every word a user can read is
//! spelled out in one place.

use vstd::prelude::*;

use crate::prompts::{DEFAULT_PROMPTS, PROMPT_COUNT};
use crate::text::{is_whitespace, trim};

verus! {

/// The notification's heading: the app, as the OS lists it.
pub const REMINDER_TITLE: &'static str = "Reflect";

/// The line underneath.
///
/// Deliberately not the day's writing prompt. The prompt belongs on the
/// page, where the user has chosen to be: a prompt on the lock screen is
/// answering a question nobody asked yet, and a user who has turned prompts
/// off shouldn't meet one there at all.
pub const REMINDER_BODY: &'static str = "Time to write today's reflection.";

/// The reminder says something in both of its lines.
pub proof fn lemma_reminder_says_something()
    ensures
        trim(REMINDER_TITLE@).len() > 0,
        trim(REMINDER_BODY@).len() > 0,
{
    reveal_strlit("Reflect");
    reveal_strlit("Time to write today's reflection.");
    assert(!is_whitespace(REMINDER_TITLE@[0]));
    assert(!is_whitespace(REMINDER_BODY@[0]));
}

/// The reminder gives nothing of the day's writing away: its body is a
/// single line, and none of the writing prompts.
pub proof fn lemma_reminder_is_no_prompt()
    ensures
        forall|i: int| 0 <= i < REMINDER_BODY@.len() ==> REMINDER_BODY@[i] != '\n',
        forall|i: int| 0 <= i < PROMPT_COUNT ==> #[trigger] DEFAULT_PROMPTS@[i]@ != REMINDER_BODY@,
{
    reveal_strlit("Time to write today's reflection.");
    crate::prompts::lemma_prompts_start_with_w();
    assert forall|i: int| 0 <= i < PROMPT_COUNT implies #[trigger] DEFAULT_PROMPTS@[i]@
        != REMINDER_BODY@ by {
        assert(DEFAULT_PROMPTS@[i]@.len() > 0);
        assert(DEFAULT_PROMPTS@[i]@[0] == 'W');
        assert(REMINDER_BODY@[0] == 'T');
    }
}

} // verus!
