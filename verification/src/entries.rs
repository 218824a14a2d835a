//! Reflect's storage: one plain-text file per calendar day.
//!
//! The folder holding the files is the caller's to read and write; what is
//! decided here is what a day's file is called, what goes into it, whether
//! a save changes anything, and which of the folder's files are days.

use std::path::PathBuf;
use vstd::prelude::*;

use crate::calendar::{
    chrono_format_date, chrono_parse_date, chrono_parsed_date, date_text, day_count,
    is_calendar_date, is_date_text_of, lemma_date_text_unique, lemma_date_text_untrimmable,
    reads_dates_back, Day, MAX_DAY_NUMBER, MIN_DAY_NUMBER,
};
use crate::text::{
    chars_of, ends_with, has_suffix, is_whitespace, lemma_trim_end_is_prefix,
    lemma_trim_of_untrimmable, lemma_trim_start_is_suffix, same_chars, slice_of, string_of, trim,
    trim_end, trim_start, trimmed, trimmed_end,
};

verus! {

broadcast use vstd::seq_lib::group_to_multiset_ensures, vstd::seq_lib::to_multiset_insert;

/// How a date is written as an entry's file name.
pub const DATE_FORMAT: &'static str = "%Y-%m-%d";

/// The extension every entry's file name ends with.
pub const ENTRY_EXTENSION: &'static str = ".txt";

/// The folder holding one `YYYY-MM-DD.txt` per day the user wrote something.
pub struct Entries {
    dir: PathBuf,
}

/// What saving a day's entry did to the day's file.
#[derive(Debug, Clone, Copy, PartialEq, Eq, Structural)]
pub enum Saved {
    /// The file was created or rewritten.
    Wrote,
    /// The day's file already said exactly this, so it was left untouched:
    /// reopening a finished day and closing it again shouldn't so much as
    /// disturb its timestamp.
    Unchanged,
    /// There was nothing worth keeping, so the day's file was left alone:
    /// an unwritten day is a day with no file at all.
    NothingToSave,
}

/// What saving asks of the day's file.
#[derive(Debug, PartialEq, Eq)]
pub enum Save {
    /// Nothing worth keeping: leave the day's file alone.
    NothingToSave,
    /// The day's file should say `text`; [`EntryFile::outcome`] decides,
    /// from what the file says now, whether that means writing it.
    Keep(EntryFile),
}

/// A day's file and the text it should hold.
#[derive(Debug, PartialEq, Eq)]
pub struct EntryFile {
    /// The file's name inside the entries folder.
    pub file_name: String,
    /// The whole of the file's text.
    pub text: String,
}

/// A file found in the entries folder, as the caller listed it.
#[derive(Debug, PartialEq, Eq)]
pub struct ListedFile {
    /// The file's name.
    pub name: String,
    /// Whether it is a file at all, rather than a folder.
    pub is_file: bool,
    /// Its length in bytes.
    pub len: u64,
}

/// What an entry's file holds for `content`: the content trimmed, and a
/// newline after it like any other text file.
pub open spec fn entry_file_text(content: Seq<char>) -> Seq<char> {
    trim(content).push('\n')
}

/// The day `text` names as Reflect writes dates, as [`parse_entry_date`]
/// reads it.
pub open spec fn entry_date_read(text: Seq<char>) -> Option<Day> {
    match chrono_parsed_date(trim(text), DATE_FORMAT@) {
        Some(n) => Some(Day::numbered(n)),
        None => None,
    }
}

/// The day a file called `name` holds an entry for: a name Reflect itself
/// would have given a day's file, the date as [`format_entry_date`] writes
/// it and `.txt` after it.
pub open spec fn entry_date_of(name: Seq<char>) -> Option<Day> {
    if ends_with(name, ENTRY_EXTENSION@) {
        let stem = name.subrange(0, name.len() - ENTRY_EXTENSION@.len());
        match entry_date_read(stem) {
            Some(day) => if is_date_text_of(stem, day@) {
                Some(day)
            } else {
                None
            },
            None => None,
        }
    } else {
        None
    }
}

/// The days among `listing` that are entries: files, with something in
/// them, named as Reflect names a day's file. In listing order.
pub open spec fn listed_days(listing: Seq<ListedFile>) -> Seq<Day>
    decreases listing.len(),
{
    if listing.len() == 0 {
        Seq::empty()
    } else {
        let before = listed_days(listing.drop_last());
        let file = listing.last();
        if file.is_file && file.len > 0 {
            match entry_date_of(file.name@) {
                Some(day) => before.push(day),
                None => before,
            }
        } else {
            before
        }
    }
}

/// Whether `days` runs from the most recent day to the oldest.
pub open spec fn most_recent_first(days: Seq<Day>) -> bool {
    forall|i: int, j: int| 0 <= i < j < days.len() ==> days[i]@ >= days[j]@
}

/// Write a date the way Reflect names a file after it: `YYYY-MM-DD`. The
/// counterpart to [`parse_entry_date`].
pub fn format_entry_date(date: Day) -> (r: String)
    ensures
        is_date_text_of(r@, date@),
{
    chrono_format_date(date.number(), DATE_FORMAT)
}

/// Read a date as Reflect writes it, whitespace around it aside. `None` for
/// anything else. A date written by [`format_entry_date`] reads back as the
/// same day.
pub fn parse_entry_date(text: &str) -> (r: Option<Day>)
    ensures
        r == entry_date_read(text@),
        forall|n: int|
            MIN_DAY_NUMBER <= n <= MAX_DAY_NUMBER && #[trigger] is_date_text_of(trim(text@), n)
                ==> (r matches Some(day) && day@ == n),
{
    let chars = chars_of(text);
    let t = string_of(trimmed(chars.as_slice()).as_slice());
    let read = chrono_parse_date(t.as_str(), DATE_FORMAT);
    proof {
        assert(reads_dates_back(t@, read));
    }
    match read {
        Some(n) => {
            let day = Day::from_number(n).unwrap();
            proof {
                assert forall|m: int|
                    MIN_DAY_NUMBER <= m <= MAX_DAY_NUMBER && #[trigger] is_date_text_of(
                        trim(text@),
                        m,
                    ) implies day@ == m by {
                    let (y, mo, d) = choose|y: int, mo: int, d: int|
                        is_calendar_date(y, mo, d) && day_count(y, mo, d) == m
                            && #[trigger] date_text(y, mo, d) == trim(text@);
                }
            }
            Some(day)
        },
        None => {
            proof {
                assert forall|m: int|
                    MIN_DAY_NUMBER <= m <= MAX_DAY_NUMBER && #[trigger] is_date_text_of(
                        trim(text@),
                        m,
                    ) implies false by {
                    let (y, mo, d) = choose|y: int, mo: int, d: int|
                        is_calendar_date(y, mo, d) && day_count(y, mo, d) == m
                            && #[trigger] date_text(y, mo, d) == trim(text@);
                }
            }
            None
        },
    }
}

/// The day `file_name` holds an entry for, or `None` if it isn't one of
/// Reflect's files at all. A name that reads as a date but isn't spelled
/// the way Reflect spells one (`2026-7-4.txt`) is not a day: listing it
/// would offer a day whose file Reflect then looks for under the name it
/// would have used, and doesn't find.
pub fn entry_date(file_name: &str) -> (r: Option<Day>)
    ensures
        r == entry_date_of(file_name@),
        forall|n: int, stem: Seq<char>|
            MIN_DAY_NUMBER <= n <= MAX_DAY_NUMBER && #[trigger] is_date_text_of(stem, n) && (stem
                + ENTRY_EXTENSION@) == file_name@ ==> (r matches Some(day) && day@ == n),
{
    let name = chars_of(file_name);
    let extension = chars_of(ENTRY_EXTENSION);
    if !has_suffix(name.as_slice(), extension.as_slice()) {
        proof {
            assert forall|n: int, s: Seq<char>|
                MIN_DAY_NUMBER <= n <= MAX_DAY_NUMBER && #[trigger] is_date_text_of(s, n) && (s
                    + ENTRY_EXTENSION@) == file_name@ implies false by {
                let whole = s + ENTRY_EXTENSION@;
                assert(whole.subrange(whole.len() - ENTRY_EXTENSION@.len(), whole.len() as int)
                    =~= ENTRY_EXTENSION@);
            }
        }
        return None;
    }
    let stem = slice_of(name.as_slice(), 0, name.len() - extension.len());
    let stem_text = string_of(stem.as_slice());
    proof {
        assert forall|n: int, s: Seq<char>|
            MIN_DAY_NUMBER <= n <= MAX_DAY_NUMBER && #[trigger] is_date_text_of(s, n) && (s
                + ENTRY_EXTENSION@) == file_name@ implies s == stem@ && trim(stem@) == stem@ by {
            assert((s + ENTRY_EXTENSION@).subrange(0, s.len() as int) =~= s);
            let (y, mo, d) = choose|y: int, mo: int, d: int|
                is_calendar_date(y, mo, d) && day_count(y, mo, d) == n && #[trigger] date_text(
                    y,
                    mo,
                    d,
                ) == s;
            lemma_date_text_untrimmable(y, mo, d);
            lemma_trim_of_untrimmable(s);
        }
    }
    match parse_entry_date(stem_text.as_str()) {
        Some(day) => {
            let written = format_entry_date(day);
            let written_chars = chars_of(written.as_str());
            if same_chars(written_chars.as_slice(), stem.as_slice()) {
                Some(day)
            } else {
                proof {
                    assert forall|n: int, s: Seq<char>|
                        MIN_DAY_NUMBER <= n <= MAX_DAY_NUMBER && #[trigger] is_date_text_of(s, n)
                            && (s + ENTRY_EXTENSION@) == file_name@ implies false by {
                        assert(s == stem@);
                        assert(is_date_text_of(trim(stem_text@), n));
                        lemma_date_text_unique(written@, stem@, day@);
                    }
                }
                proof {
                    if is_date_text_of(stem@, day@) {
                        lemma_date_text_unique(written@, stem@, day@);
                    }
                }
                None
            }
        },
        None => None,
    }
}

impl Entries {
    /// The folder the entries are kept in.
    pub closed spec fn folder(self) -> PathBuf {
        self.dir
    }

    /// Entries stored in `dir`. The folder needn't exist yet.
    pub fn in_dir(dir: PathBuf) -> (r: Entries)
        ensures
            r.folder() == dir,
    {
        Entries { dir }
    }

    /// The folder the entries are kept in.
    pub fn dir(&self) -> (r: &PathBuf)
        ensures
            *r == self.folder(),
    {
        &self.dir
    }

    /// The name of `date`'s file in the entries folder: the date as
    /// [`format_entry_date`] writes it, and `.txt`.
    pub fn file_name_for(date: Day) -> (r: String)
        ensures
            exists|stem: Seq<char>|
                is_date_text_of(stem, date@) && #[trigger] (stem + ENTRY_EXTENSION@) == r@,
    {
        let stem = format_entry_date(date);
        let mut chars = chars_of(stem.as_str());
        let extension = chars_of(ENTRY_EXTENSION);
        let mut i: usize = 0;
        while i < extension.len()
            invariant
                i <= extension@.len(),
                chars@ == stem@ + extension@.take(i as int),
            decreases extension@.len() - i,
        {
            chars.push(extension[i]);
            i = i + 1;
            assert(chars@ =~= stem@ + extension@.take(i as int));
        }
        assert(extension@.take(extension@.len() as int) =~= extension@);
        string_of(chars.as_slice())
    }

    /// What saving `content` as `date`'s entry asks of the day's file:
    /// nothing where the content is blank, else the file holding the content
    /// trimmed and newline-terminated, read back by [`Entries::load`]
    /// exactly as it was handed in.
    ///
    /// Blank content is refused rather than written: whether something
    /// counts as an entry is the notes session's call, but storage won't
    /// create an empty file even if asked.
    pub fn save(&self, date: Day, content: &str) -> (r: Save)
        ensures
            trim(content@).len() == 0 ==> r == Save::NothingToSave,
            trim(content@).len() > 0 ==> (r matches Save::Keep(file) && file.text@
                == entry_file_text(content@) && exists|stem: Seq<char>|
                is_date_text_of(stem, date@) && #[trigger] (stem + ENTRY_EXTENSION@)
                    == file.file_name@),
    {
        let chars = chars_of(content);
        let mut kept = trimmed(chars.as_slice());
        if kept.len() == 0 {
            return Save::NothingToSave;
        }
        kept.push('\n');
        Save::Keep(EntryFile { file_name: Entries::file_name_for(date), text: string_of(kept.as_slice()) })
    }

    /// What the user wrote on a day, or `None` if they didn't, given its
    /// file's text (`None` where there is no file). A file holding nothing
    /// but whitespace is no entry either. The entry is trimmed at the end,
    /// so a file someone re-saved from Notepad (CRLF, a stray blank line at
    /// the end) still comes back the way it would have from Reflect itself.
    pub fn load(&self, on_disk: Option<&str>) -> (r: Option<String>)
        ensures
            match on_disk {
                Some(text) => if trim_end(text@).len() == 0 {
                    r is None
                } else {
                    r matches Some(entry) && entry@ == trim_end(text@)
                },
                None => r is None,
            },
    {
        match on_disk {
            Some(text) => {
                let chars = chars_of(text);
                let entry = trimmed_end(chars.as_slice());
                // A day with nothing on it has no entry, whether it has no
                // file or a file holding nothing.
                if entry.len() == 0 {
                    None
                } else {
                    Some(string_of(entry.as_slice()))
                }
            },
            None => None,
        }
    }

    /// Every day the user has written on, most recent first, from a listing
    /// of the entries folder: the order the Browse window lists them in.
    ///
    /// A folder named like an entry is not one, and neither is a file with
    /// nothing in it: Reflect never writes an empty entry, so a day is only
    /// a day if there is something on it. Anything else the user keeps in
    /// the folder is theirs, and none of it is a day.
    pub fn dates(&self, listing: &Vec<ListedFile>) -> (r: Vec<Day>)
        ensures
            r@.to_multiset() == listed_days(listing@).to_multiset(),
            most_recent_first(r@),
            forall|k: int, n: int, stem: Seq<char>|
                #![trigger is_date_text_of(stem, n), listing@[k]]
                0 <= k < listing@.len() && listing@[k].is_file && listing@[k].len > 0
                    && MIN_DAY_NUMBER <= n <= MAX_DAY_NUMBER && is_date_text_of(stem, n) && stem
                    + ENTRY_EXTENSION@ == listing@[k].name@ ==> exists|j: int|
                    0 <= j < r@.len() && #[trigger] r@[j]@ == n,
    {
        let mut days: Vec<Day> = Vec::new();
        let mut i: usize = 0;
        while i < listing.len()
            invariant
                i <= listing@.len(),
                days@ == listed_days(listing@.take(i as int)),
                forall|k: int, n: int, stem: Seq<char>|
                    #![trigger is_date_text_of(stem, n), listing@[k]]
                    0 <= k < i && listing@[k].is_file && listing@[k].len > 0 && MIN_DAY_NUMBER <= n
                        <= MAX_DAY_NUMBER && is_date_text_of(stem, n) && stem + ENTRY_EXTENSION@
                        == listing@[k].name@ ==> exists|j: int|
                        0 <= j < days@.len() && #[trigger] days@[j]@ == n,
            decreases listing@.len() - i,
        {
            assert(listing@.take(i + 1).drop_last() =~= listing@.take(i as int));
            let file = &listing[i];
            let ghost before = days@;
            if file.is_file && file.len > 0 {
                match entry_date(file.name.as_str()) {
                    Some(day) => days.push(day),
                    None => {},
                }
            }
            proof {
                assert(before.is_prefix_of(days@));
                assert forall|k: int, n: int, stem: Seq<char>|
                    #![trigger is_date_text_of(stem, n), listing@[k]]
                    0 <= k < i + 1 && listing@[k].is_file && listing@[k].len > 0 && MIN_DAY_NUMBER
                        <= n <= MAX_DAY_NUMBER && is_date_text_of(stem, n) && stem
                        + ENTRY_EXTENSION@ == listing@[k].name@ implies exists|j: int|
                    0 <= j < days@.len() && #[trigger] days@[j]@ == n by {
                    if k < i {
                        let j = choose|j: int| 0 <= j < before.len() && #[trigger] before[j]@ == n;
                        assert(days@[j] == before[j]);
                    } else {
                        let j = days@.len() - 1;
                        assert(days@[j]@ == n);
                    }
                }
            }
            i = i + 1;
        }
        assert(listing@.take(listing@.len() as int) =~= listing@);
        let r = most_recent_first_sorted(&days);
        proof {
            assert forall|k: int, n: int, stem: Seq<char>|
                #![trigger is_date_text_of(stem, n), listing@[k]]
                0 <= k < listing@.len() && listing@[k].is_file && listing@[k].len > 0
                    && MIN_DAY_NUMBER <= n <= MAX_DAY_NUMBER && is_date_text_of(stem, n) && stem
                    + ENTRY_EXTENSION@ == listing@[k].name@ implies exists|j: int|
                0 <= j < r@.len() && #[trigger] r@[j]@ == n by {
                let j = choose|j: int| 0 <= j < days@.len() && #[trigger] days@[j]@ == n;
                let day = days@[j];
                assert(days@.contains(day));
                days@.to_multiset_ensures();
                r@.to_multiset_ensures();
                assert(days@.to_multiset().count(day) > 0);
                assert(r@.to_multiset().count(day) > 0);
                assert(r@.contains(day));
                let q = choose|q: int| 0 <= q < r@.len() && r@[q] == day;
                assert(r@[q]@ == n);
            }
        }
        r
    }
}

impl EntryFile {
    /// What saving did, given what the day's file says now (`None` where
    /// there is no file): left it alone where it already says exactly this,
    /// wrote it otherwise.
    pub fn outcome(&self, on_disk: Option<&str>) -> (r: Saved)
        ensures
            r == (if on_disk matches Some(text) && text@ == self.text@ {
                Saved::Unchanged
            } else {
                Saved::Wrote
            }),
    {
        match on_disk {
            Some(text) => {
                if crate::text::same_text(text, self.text.as_str()) {
                    Saved::Unchanged
                } else {
                    Saved::Wrote
                }
            },
            None => Saved::Wrote,
        }
    }
}

/// `days` from the most recent to the oldest.
fn most_recent_first_sorted(days: &Vec<Day>) -> (r: Vec<Day>)
    ensures
        r@.to_multiset() == days@.to_multiset(),
        most_recent_first(r@),
{
    let mut sorted: Vec<Day> = Vec::new();
    let mut k: usize = 0;
    while k < days.len()
        invariant
            k <= days@.len(),
            sorted@.to_multiset() == days@.take(k as int).to_multiset(),
            most_recent_first(sorted@),
        decreases days@.len() - k,
    {
        let day = days[k];
        let mut p: usize = 0;
        while p < sorted.len() && sorted[p].number() >= day.number()
            invariant
                p <= sorted@.len(),
                forall|q: int| 0 <= q < p ==> sorted@[q]@ >= day@,
            decreases sorted@.len() - p,
        {
            p = p + 1;
        }
        let ghost before = sorted@;
        sorted.insert(p, day);
        proof {
            assert(days@.take(k + 1) =~= days@.take(k as int).push(day));
            assert(sorted@ == before.insert(p as int, day));
            assert forall|i: int, j: int| 0 <= i < j < sorted@.len() implies sorted@[i]@
                >= sorted@[j]@ by {
                if p < before.len() {
                    assert(before[p as int]@ < day@);
                }
            }
        }
        k = k + 1;
    }
    assert(days@.take(days@.len() as int) =~= days@);
    sorted
}

/// Whether `file` is `day`'s file as Reflect writes it: a file, with
/// something in it, named with the day's date and `.txt`.
pub open spec fn is_file_of_day(file: ListedFile, day: Day) -> bool {
    &&& file.is_file
    &&& file.len > 0
    &&& exists|stem: Seq<char>|
        is_date_text_of(stem, day@) && #[trigger] (stem + ENTRY_EXTENSION@) == file.name@
}

/// Every day listed is one whose file is in the folder, with something in
/// it, under the very name Reflect gives that day's file: a day offered for
/// reading is one whose entry is found when it is clicked.
pub proof fn lemma_listed_days_have_their_files(listing: Seq<ListedFile>, k: int)
    requires
        0 <= k < listed_days(listing).len(),
    ensures
        exists|i: int| 0 <= i < listing.len() && #[trigger] is_file_of_day(listing[i], listed_days(listing)[k]),
    decreases listing.len(),
{
    let before = listed_days(listing.drop_last());
    let file = listing.last();
    if k < before.len() {
        lemma_listed_days_have_their_files(listing.drop_last(), k);
        let i = choose|i: int|
            0 <= i < listing.drop_last().len() && #[trigger] is_file_of_day(
                listing.drop_last()[i],
                before[k],
            );
        assert(listing[i] == listing.drop_last()[i]);
        assert(is_file_of_day(listing[i], listed_days(listing)[k]));
    } else {
        let name = file.name@;
        let stem = name.subrange(0, name.len() - ENTRY_EXTENSION@.len());
        assert(stem + ENTRY_EXTENSION@ =~= name);
        assert(is_file_of_day(listing[listing.len() - 1], listed_days(listing)[k]));
    }
}

/// What [`Entries::save`] writes reads back through [`Entries::load`] as the
/// content handed in, trimmed.
pub proof fn lemma_saved_entry_reads_back(content: Seq<char>)
    requires
        trim(content).len() > 0,
    ensures
        trim_end(entry_file_text(content)) == trim(content),
{
    let t = trim(content);
    lemma_trim_start_is_suffix(content);
    lemma_trim_end_is_prefix(trim_start(content));
    assert(!is_whitespace(t.last()));
    let f = entry_file_text(content);
    assert(f.drop_last() =~= t);
    assert(is_whitespace(f.last()));
    assert(trim_end(f) == trim_end(f.drop_last()));
    assert(trim_end(t) == t);
}

/// A day's file always has something in it besides its newline: saving
/// never creates an empty entry.
pub proof fn lemma_saved_entry_is_not_blank(content: Seq<char>)
    requires
        trim(content).len() > 0,
    ensures
        trim(entry_file_text(content)).len() > 0,
{
    let t = trim(content);
    lemma_trim_start_is_suffix(content);
    lemma_trim_end_is_prefix(trim_start(content));
    let f = entry_file_text(content);
    assert(f[0] == t[0]);
    assert(!is_whitespace(t[0]));
    lemma_trim_start_is_suffix(f);
    assert(trim_start(f) == f);
    assert(f.drop_last() =~= t);
    assert(trim_end(f) == trim_end(t));
    lemma_trim_of_untrimmable(t);
}

} // verus!
