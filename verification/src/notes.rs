//! One sitting at the notes window: opened on a date, closed with some text.

use vstd::prelude::*;

use crate::calendar::{is_date_text_of, Day};
use crate::entries::{
    entry_file_text, lemma_saved_entry_reads_back, Entries, Save, ENTRY_EXTENSION,
};
use crate::prompts::{prompt_for_date, prompt_position, DEFAULT_PROMPTS};
use crate::settings::Settings;
use crate::text::{chars_of, lemma_trim_idempotent, same_chars, string_of, trim, trim_end, trimmed};

verus! {

/// The notes window's state for a single day, from open to close.
pub struct NotesSession {
    date: Day,
    prompt: Option<&'static str>,
    opened_with: String,
}

/// Whether closing on `text` keeps nothing: the page holds nothing but
/// whitespace, or nothing but the prompt that was shown on it.
pub open spec fn closes_on_nothing(prompt: Option<&'static str>, text: Seq<char>) -> bool {
    trim(text).len() == 0 || (prompt matches Some(p) && trim(text) == trim(p@))
}

impl NotesSession {
    /// The day the session is open on.
    pub closed spec fn day(self) -> Day {
        self.date
    }

    /// The prompt the session was opened with.
    pub closed spec fn shown_prompt(self) -> Option<&'static str> {
        self.prompt
    }

    /// The text the page started out holding.
    pub closed spec fn page(self) -> Seq<char> {
        self.opened_with@
    }

    /// Open the page for `date`, given the day's file as it stands (`None`
    /// where nothing is written yet): its prompt, where prompts are on, and
    /// whatever is already written.
    pub fn open(entries: &Entries, settings: &Settings, date: Day, on_disk: Option<&str>) -> (r:
        NotesSession)
        ensures
            r.day() == date,
            r.shown_prompt() == (if settings.show_prompts {
                Some(DEFAULT_PROMPTS@[prompt_position(date@)])
            } else {
                None
            }),
            r.page() == match on_disk {
                Some(text) => trim_end(text@),
                None => Seq::<char>::empty(),
            },
    {
        let prompt = if settings.show_prompts {
            Some(prompt_for_date(date))
        } else {
            None
        };
        let opened_with = match entries.load(on_disk) {
            Some(text) => text,
            None => String::new(),
        };
        assert(opened_with@ =~= match on_disk {
            Some(text) => trim_end(text@),
            None => Seq::<char>::empty(),
        });
        NotesSession { date, prompt, opened_with }
    }

    /// The line shown above the page, or `None` where the user has turned
    /// prompts off, which means no line at all rather than an empty one.
    pub fn prompt(&self) -> (r: Option<&'static str>)
        ensures
            r == self.shown_prompt(),
    {
        self.prompt
    }

    /// The text the page starts out holding: empty on a fresh day, otherwise
    /// the day's entry, so that reopening picks up where the user left off.
    pub fn opened_with(&self) -> (r: &str)
        ensures
            r@ == self.page(),
    {
        self.opened_with.as_str()
    }

    /// Close the window on `text`, keeping it only if the user actually
    /// wrote something. There is no save button and no "discard?" dialog:
    /// this call is the whole of Reflect's save decision, and what it asks of
    /// the day's file is the caller's to carry out.
    ///
    /// A window closed on nothing is a day skipped, and leaves no file. A
    /// prompt that was shown counts as nothing: a day should never be
    /// recorded as written on words the user didn't write, however the text
    /// got there. Where no prompt was shown, that reasoning doesn't apply:
    /// everything on the page was typed.
    ///
    /// Clearing an entry and closing is not a delete: the day's file stays
    /// as it was. Reflect only ever adds to the record.
    pub fn close(&self, entries: &Entries, text: &str) -> (r: Save)
        ensures
            closes_on_nothing(self.shown_prompt(), text@) ==> r == Save::NothingToSave,
            !closes_on_nothing(self.shown_prompt(), text@) ==> (r matches Save::Keep(file)
                && file.text@ == entry_file_text(text@) && exists|stem: Seq<char>|
                is_date_text_of(stem, self.day()@) && #[trigger] (stem + ENTRY_EXTENSION@)
                    == file.file_name@),
            trim(text@).len() > 0 && (self.shown_prompt() matches Some(p) ==> trim(text@) != trim(
                p@,
            )) ==> (r matches Save::Keep(file) && file.text@ == trim(text@).push('\n')),
            r is NothingToSave ==> (trim(text@).len() == 0 || (self.shown_prompt() matches Some(p)
                && trim(text@) == trim(p@))),
    {
        let chars = chars_of(text);
        let written = trimmed(chars.as_slice());
        if written.len() == 0 {
            return Save::NothingToSave;
        }
        match self.prompt {
            Some(prompt) => {
                let prompt_chars = chars_of(prompt);
                let prompt_trimmed = trimmed(prompt_chars.as_slice());
                if same_chars(written.as_slice(), prompt_trimmed.as_slice()) {
                    return Save::NothingToSave;
                }
            },
            None => {},
        }
        let written_text = string_of(written.as_slice());
        proof {
            lemma_trim_idempotent(text@);
        }
        entries.save(self.date, written_text.as_str())
    }
}

/// Reopening a finished day and closing it again changes nothing: the page
/// opens on the entry as written, and closing on it asks the day's file to
/// hold exactly what it already holds, which [`EntryFile::outcome`] answers
/// with `Unchanged`.
///
/// [`EntryFile::outcome`]: crate::entries::EntryFile::outcome
pub proof fn lemma_reopening_a_finished_day_changes_nothing(content: Seq<char>)
    requires
        trim(content).len() > 0,
    ensures
        trim_end(entry_file_text(content)) == trim(content),
        entry_file_text(trim_end(entry_file_text(content))) == entry_file_text(content),
{
    lemma_saved_entry_reads_back(content);
    lemma_trim_idempotent(content);
}

/// Closing on a page counts as nothing exactly when the page is blank or
/// holds only the prompt that was shown on it, spacing aside: any other
/// page, a question of the user's own included, is kept.
pub proof fn lemma_only_blank_or_the_prompt_is_nothing(prompt: &'static str, text: Seq<char>)
    ensures
        closes_on_nothing(Some(prompt), text) <==> (trim(text).len() == 0 || trim(text) == trim(
            prompt@,
        )),
        trim(text).len() > 0 && trim(text) != trim(prompt@) ==> !closes_on_nothing(
            Some(prompt),
            text,
        ),
{
}

/// With prompts off, nothing typed counts as the prompt: closing keeps the
/// page unless it is blank.
pub proof fn lemma_without_prompt_only_blank_is_nothing(text: Seq<char>)
    ensures
        closes_on_nothing(None, text) <==> trim(text).len() == 0,
{
}

} // verus!
