//! What the user can change: when Reflect nudges, whether the notes page
//! carries a writing prompt, and whether Reflect starts at login.

use std::path::PathBuf;
use vstd::prelude::*;

use crate::calendar::{
    clock_seconds_text, refuses_clock_seconds, chrono_format_time, chrono_parse_time, chrono_parsed_time, clock_text,
    lemma_clock_text_untrimmable, reads_clock_back, TimeOfDay, SECONDS_PER_DAY,
};
use crate::schedule::default_daily_time;
use crate::text::{
    chars_of, first_index_of, is_whitespace, lemma_first_index_past, lemma_newline_pieces_extend,
    lemma_newline_pieces_newline, lemma_trim_of_untrimmable, lowercased, newline_pieces,
    same_chars, split_once, split_once_at, string_of, to_ascii_lowercase, trim, trim_end,
    trim_start, trimmed,
};

verus! {

/// The key the daily time is written under.
pub const DAILY_TIME_KEY: &'static str = "daily-time";

/// The key the prompt switch is written under.
pub const SHOW_PROMPTS_KEY: &'static str = "show-prompts";

/// The key the start-at-login switch is written under.
pub const START_AT_LOGIN_KEY: &'static str = "start-at-login";

/// How a time is written. Seconds are dropped: Reflect's reminder is a time
/// of day someone chose, not an instant.
pub const TIME_FORMAT: &'static str = "%H:%M";

/// How `<input type="time">` hands a time back on some webviews.
pub const TIME_WITH_SECONDS_FORMAT: &'static str = "%H:%M:%S";

/// Everything the Settings window can change.
#[derive(Debug, Clone, Copy, PartialEq, Eq, Structural)]
pub struct Settings {
    /// The time of day the daily reminder goes out.
    pub daily_time: TimeOfDay,
    /// Whether the notes page carries a writing prompt at all. Off means no
    /// prompt line, not a blank one: Reflect as a plain journal.
    pub show_prompts: bool,
    /// Whether Reflect registers itself to start when the user logs in.
    pub start_at_login: bool,
}

impl Settings {
    /// What Reflect does before anyone has told it otherwise: the nudge at
    /// nine in the evening, prompts on, and starting at login.
    pub open spec fn initial() -> Settings {
        Settings { daily_time: TimeOfDay::at(75600, 0), show_prompts: true, start_at_login: true }
    }
}

impl Default for Settings {
    fn default() -> (r: Self)
        ensures
            r == Settings::initial(),
    {
        Settings { daily_time: default_daily_time(), show_prompts: true, start_at_login: true }
    }
}

/// The time of day `text` names, as [`parse_daily_time`] reads it: the text
/// trimmed, read as `HH:MM` or failing that `HH:MM:SS`, and set to the
/// minute.
pub open spec fn daily_time_read(text: Seq<char>) -> Option<TimeOfDay> {
    let t = trim(text);
    let read = match chrono_parsed_time(t, TIME_FORMAT@) {
        Some(time) => Some(time),
        None => chrono_parsed_time(t, TIME_WITH_SECONDS_FORMAT@),
    };
    match read {
        Some((s, f)) => Some(TimeOfDay::at(s - s % 60, 0)),
        None => None,
    }
}

/// The switch `text` names: `on` or `off`, whatever the case and
/// surrounding whitespace.
pub open spec fn switch_read(text: Seq<char>) -> Option<bool> {
    let word = to_ascii_lowercase(trim(text));
    if word == "on"@ {
        Some(true)
    } else if word == "off"@ {
        Some(false)
    } else {
        None
    }
}

/// `settings` after one line of a settings file. A line without `=` is no
/// setting; a key Reflect doesn't know, or a value it can't read, changes
/// nothing.
pub open spec fn apply_line(settings: Settings, line: Seq<char>) -> Settings {
    match split_once(line, '=') {
        None => settings,
        Some((key, value)) => {
            let key = to_ascii_lowercase(trim(key));
            if key == DAILY_TIME_KEY@ {
                match daily_time_read(value) {
                    Some(time) => Settings { daily_time: time, ..settings },
                    None => settings,
                }
            } else if key == SHOW_PROMPTS_KEY@ {
                match switch_read(value) {
                    Some(on) => Settings { show_prompts: on, ..settings },
                    None => settings,
                }
            } else if key == START_AT_LOGIN_KEY@ {
                match switch_read(value) {
                    Some(on) => Settings { start_at_login: on, ..settings },
                    None => settings,
                }
            } else {
                settings
            }
        },
    }
}

/// `settings` after each of `lines` in turn.
pub open spec fn apply_lines(settings: Settings, lines: Seq<Seq<char>>) -> Settings
    decreases lines.len(),
{
    if lines.len() == 0 {
        settings
    } else {
        apply_line(apply_lines(settings, lines.drop_last()), lines.last())
    }
}

/// The settings a settings file's text holds: the defaults, with each line
/// applied in turn.
pub open spec fn settings_read(text: Seq<char>) -> Settings {
    apply_lines(Settings::initial(), newline_pieces(text))
}

/// The line a settings file sets the daily time `hour:minute` with.
pub open spec fn daily_time_line(hour: int, minute: int) -> Seq<char> {
    DAILY_TIME_KEY@ + " = "@ + clock_text(hour, minute)
}

/// How a switch is written: `on` or `off`.
pub open spec fn switch_word(on: bool) -> Seq<char> {
    if on {
        "on"@
    } else {
        "off"@
    }
}

/// The line a settings file turns the switch under `key` on or off with.
pub open spec fn switch_line(key: Seq<char>, on: bool) -> Seq<char> {
    key + " = "@ + switch_word(on)
}

/// The key a settings line names, folded as Reflect reads it, and the value
/// after its `=`; `None` for a line with no `=`.
pub open spec fn line_parts(line: Seq<char>) -> Option<(Seq<char>, Seq<char>)> {
    match split_once(line, '=') {
        Some((key, value)) => Some((to_ascii_lowercase(trim(key)), value)),
        None => None,
    }
}

/// A line of a settings file changes at most the one setting its key names,
/// and a value that can't be read changes nothing: a line nobody can read
/// falls back only for itself.
pub proof fn lemma_line_touches_only_its_setting(settings: Settings, line: Seq<char>)
    ensures
        apply_line(settings, line).daily_time != settings.daily_time ==> (line_parts(line) matches Some(
            (key, value),
        ) && key == DAILY_TIME_KEY@ && daily_time_read(value) is Some),
        apply_line(settings, line).show_prompts != settings.show_prompts ==> (line_parts(
            line,
        ) matches Some((key, value)) && key == SHOW_PROMPTS_KEY@ && switch_read(value) is Some),
        apply_line(settings, line).start_at_login != settings.start_at_login ==> (line_parts(
            line,
        ) matches Some((key, value)) && key == START_AT_LOGIN_KEY@ && switch_read(value) is Some),
{
}

/// A line whose key names a setting and whose value Reflect can read sets
/// that setting to that value and leaves the others as they were, however
/// the key is cased or spaced: `show-prompts=off` switches prompts off just
/// as `show-prompts = off` does.
pub proof fn lemma_readable_line_sets_its_setting(
    settings: Settings,
    line: Seq<char>,
    value: Seq<char>,
    time: TimeOfDay,
    on: bool,
)
    ensures
        line_parts(line) == Some((DAILY_TIME_KEY@, value)) && daily_time_read(value) == Some(time)
            ==> apply_line(settings, line) == (Settings { daily_time: time, ..settings }),
        line_parts(line) == Some((SHOW_PROMPTS_KEY@, value)) && switch_read(value) == Some(on)
            ==> apply_line(settings, line) == (Settings { show_prompts: on, ..settings }),
        line_parts(line) == Some((START_AT_LOGIN_KEY@, value)) && switch_read(value) == Some(on)
            ==> apply_line(settings, line) == (Settings { start_at_login: on, ..settings }),
{
    reveal_strlit("daily-time");
    reveal_strlit("show-prompts");
    reveal_strlit("start-at-login");
    assert(DAILY_TIME_KEY@.len() == 10);
    assert(SHOW_PROMPTS_KEY@.len() == 12);
    assert(START_AT_LOGIN_KEY@.len() == 14);
}

/// Whitespace around a value never decides whether a line applies, nor
/// what it sets: a line reads the same with its value spaced any other way.
pub proof fn lemma_spacing_around_a_value_changes_nothing(
    settings: Settings,
    key: Seq<char>,
    value: Seq<char>,
    respaced: Seq<char>,
)
    requires
        forall|k: int| 0 <= k < key.len() ==> key[k] != '=',
        trim(value) == trim(respaced),
    ensures
        apply_line(settings, key + seq!['='] + value) == apply_line(
            settings,
            key + seq!['='] + respaced,
        ),
{
    let a = key + seq!['='] + value;
    let b = key + seq!['='] + respaced;
    assert(a =~= key + (seq!['='] + value));
    assert(b =~= key + (seq!['='] + respaced));
    lemma_first_index_past(key, seq!['='] + value, '=');
    lemma_first_index_past(key, seq!['='] + respaced, '=');
    assert(first_index_of(seq!['='] + value, '=') == Some(0int));
    assert(first_index_of(seq!['='] + respaced, '=') == Some(0int));
    assert(a.subrange(0, key.len() as int) =~= key);
    assert(b.subrange(0, key.len() as int) =~= key);
    assert(a.subrange(key.len() as int + 1, a.len() as int) =~= value);
    assert(b.subrange(key.len() as int + 1, b.len() as int) =~= respaced);
    assert(daily_time_read(value) == daily_time_read(respaced));
    assert(switch_read(value) == switch_read(respaced));
}

/// What [`SettingsFile::save`] writes for `settings`.
pub open spec fn settings_text(settings: Settings) -> Seq<char> {
    daily_time_line(settings.daily_time.hour(), settings.daily_time.minute()) + "\n"@
        + switch_line(SHOW_PROMPTS_KEY@, settings.show_prompts) + "\n"@ + switch_line(
        START_AT_LOGIN_KEY@,
        settings.start_at_login,
    ) + "\n"@
}

/// Whether the settings' daily time falls on a whole minute, as every daily
/// time Reflect reads does.
pub open spec fn on_the_minute(settings: Settings) -> bool {
    &&& settings.daily_time.is_time()
    &&& settings.daily_time.second_of_day() % 60 == 0
    &&& settings.daily_time.nano() == 0
}

/// Whether the line, where it sets the daily time, sets it as the settings
/// Reflect starts from read it.
pub open spec fn first_line_applies(line: Seq<char>) -> bool {
    forall|h: int, m: int|
        0 <= h < 24 && 0 <= m < 60 && #[trigger] daily_time_line(h, m) == line ==> apply_line(
            Settings::initial(),
            line,
        ) == (Settings { daily_time: TimeOfDay::at(h * 3600 + m * 60, 0), ..Settings::initial() })
}

proof fn lemma_daily_line_parts(h: int, m: int)
    requires
        0 <= h < 24,
        0 <= m < 60,
    ensures
        split_once(daily_time_line(h, m), '=') == Some(
            (DAILY_TIME_KEY@.push(' '), seq![' '] + clock_text(h, m)),
        ),
        to_ascii_lowercase(trim(DAILY_TIME_KEY@.push(' '))) == DAILY_TIME_KEY@,
        trim(seq![' '] + clock_text(h, m)) == clock_text(h, m),
        forall|k: int| 0 <= k < daily_time_line(h, m).len() ==> daily_time_line(h, m)[k] != '\n',
{
    reveal_strlit("daily-time");
    reveal_strlit(" = ");
    reveal_with_fuel(first_index_of, 3);
    reveal_with_fuel(trim_end, 3);
    let key = DAILY_TIME_KEY@;
    let clock = clock_text(h, m);
    let rest = " = "@ + clock;
    let line = daily_time_line(h, m);
    assert(line =~= key + rest);
    assert(key.len() == 10);
    lemma_first_index_past(key, rest, '=');
    assert(rest[0] == ' ');
    assert(rest.drop_first()[0] == '=');
    assert(first_index_of(rest, '=') == Some(1int));
    assert(line.subrange(0, 11) =~= key.push(' '));
    assert(line.subrange(12, line.len() as int) =~= seq![' '] + clock);
    let padded = key.push(' ');
    assert(padded.drop_last() =~= key);
    assert(trim_start(padded) == padded);
    assert(trim_end(padded) == key);
    assert(to_ascii_lowercase(key) =~= key);
    lemma_clock_text_untrimmable(h, m);
    assert((seq![' '] + clock).drop_first() =~= clock);
    assert(trim_start(seq![' '] + clock) == trim_start(clock));
    assert(trim_start(clock) == clock);
    lemma_trim_of_untrimmable(clock);
}

proof fn lemma_switch_line_parts(key: Seq<char>, on: bool)
    requires
        key == SHOW_PROMPTS_KEY@ || key == START_AT_LOGIN_KEY@,
    ensures
        split_once(switch_line(key, on), '=') == Some(
            (key.push(' '), seq![' '] + switch_word(on)),
        ),
        to_ascii_lowercase(trim(key.push(' '))) == key,
        key != DAILY_TIME_KEY@,
        SHOW_PROMPTS_KEY@ != START_AT_LOGIN_KEY@,
        switch_read(seq![' '] + switch_word(on)) == Some(on),
        forall|k: int|
            0 <= k < switch_line(key, on).len() ==> switch_line(key, on)[k] != '\n',
{
    reveal_strlit("show-prompts");
    reveal_strlit("start-at-login");
    reveal_strlit("daily-time");
    reveal_strlit(" = ");
    reveal_strlit("on");
    reveal_strlit("off");
    reveal_with_fuel(first_index_of, 3);
    reveal_with_fuel(trim_end, 3);
    reveal_with_fuel(trim_start, 3);
    let word = switch_word(on);
    let rest = " = "@ + word;
    let line = switch_line(key, on);
    let n = key.len() as int;
    assert(line =~= key + rest);
    assert(SHOW_PROMPTS_KEY@.len() == 12);
    assert(START_AT_LOGIN_KEY@.len() == 14);
    assert(forall|k: int| 0 <= k < n ==> key[k] != '=');
    lemma_first_index_past(key, rest, '=');
    assert(rest[0] == ' ');
    assert(rest.drop_first()[0] == '=');
    assert(first_index_of(rest, '=') == Some(1int));
    assert(line.subrange(0, n + 1) =~= key.push(' '));
    let value = line.subrange(n + 2, line.len() as int);
    assert(value =~= seq![' '] + word);
    let padded = key.push(' ');
    assert(padded.drop_last() =~= key);
    assert(!is_whitespace(key[0]));
    assert(!is_whitespace(key.last()));
    assert(trim_start(padded) == padded);
    assert(trim_end(padded) == key);
    assert(to_ascii_lowercase(key) =~= key);
    assert(value.drop_first() =~= word);
    assert(trim_start(value) == word);
    assert(trim_end(word) == word);
    assert(to_ascii_lowercase(word) =~= word);
    if !on {
        assert(word != "on"@);
    }
}

proof fn lemma_settings_text_pieces(settings: Settings)
    requires
        on_the_minute(settings),
    ensures
        newline_pieces(settings_text(settings)) == seq![
            daily_time_line(settings.daily_time.hour(), settings.daily_time.minute()),
            switch_line(SHOW_PROMPTS_KEY@, settings.show_prompts),
            switch_line(START_AT_LOGIN_KEY@, settings.start_at_login),
            Seq::<char>::empty(),
        ],
{
    reveal_strlit("\n");
    settings.daily_time.lemma_is_time();
    let h = settings.daily_time.hour();
    let m = settings.daily_time.minute();
    let first = daily_time_line(h, m);
    let second = switch_line(SHOW_PROMPTS_KEY@, settings.show_prompts);
    let third = switch_line(START_AT_LOGIN_KEY@, settings.start_at_login);
    lemma_daily_line_parts(h, m);
    lemma_switch_line_parts(SHOW_PROMPTS_KEY@, settings.show_prompts);
    lemma_switch_line_parts(START_AT_LOGIN_KEY@, settings.start_at_login);
    let empty = Seq::<char>::empty();
    lemma_newline_pieces_extend(empty, first);
    assert(empty + first =~= first);
    assert(newline_pieces(first) =~= seq![first]);
    lemma_newline_pieces_newline(first);
    let a = first.push('\n');
    assert(newline_pieces(a) =~= seq![first, empty]);
    lemma_newline_pieces_extend(a, second);
    assert(newline_pieces(a + second) =~= seq![first, second]);
    lemma_newline_pieces_newline(a + second);
    let b = (a + second).push('\n');
    assert(newline_pieces(b) =~= seq![first, second, empty]);
    lemma_newline_pieces_extend(b, third);
    assert(newline_pieces(b + third) =~= seq![first, second, third]);
    lemma_newline_pieces_newline(b + third);
    assert(settings_text(settings) =~= (b + third).push('\n'));
}

/// Write a time of day the way Reflect writes it: in the settings file, and
/// in the box the Settings window shows it in. The counterpart to
/// [`parse_daily_time`].
pub fn format_daily_time(daily_time: TimeOfDay) -> (r: String)
    ensures
        r@ == clock_text(daily_time.hour(), daily_time.minute()),
{
    chrono_format_time(daily_time.seconds_from_midnight(), daily_time.nanosecond(), TIME_FORMAT)
}

/// Read a time of day as Reflect writes it, and as `<input type="time">`
/// hands it back, which is `HH:MM` on some webviews and `HH:MM:SS` on
/// others. `None` for anything else, so that a caller who has been handed a
/// time can say so rather than quietly reaching for a default. Whatever
/// precision arrived, the time is set to the minute.
///
/// A time written by [`format_daily_time`] reads back as the same time, and
/// whitespace around a time changes nothing.
pub fn parse_daily_time(text: &str) -> (r: Option<TimeOfDay>)
    ensures
        r == daily_time_read(text@),
        r matches Some(t) ==> t.is_time() && t.second_of_day() % 60 == 0 && t.nano() == 0,
        forall|h: int, m: int|
            0 <= h < 24 && 0 <= m < 60 && #[trigger] clock_text(h, m) == trim(text@) ==> r == Some(
                TimeOfDay::at(h * 3600 + m * 60, 0),
            ),
        forall|t: TimeOfDay|
            #[trigger] t.is_time() && t.second_of_day() % 60 == 0 && t.nano() == 0 && text@
                == clock_text(t.hour(), t.minute()) ==> r == Some(t),
        forall|h: int, m: int, sec: int|
            0 <= h < 24 && 0 <= m < 60 && 0 <= sec < 60 && #[trigger] clock_seconds_text(h, m, sec)
                == trim(text@) ==> r == Some(TimeOfDay::at(h * 3600 + m * 60, 0)),
{
    let chars = chars_of(text);
    let t = string_of(trimmed(chars.as_slice()).as_slice());
    let first = chrono_parse_time(t.as_str(), TIME_FORMAT);
    let read = match first {
        Some(time) => Some(time),
        None => chrono_parse_time(t.as_str(), TIME_WITH_SECONDS_FORMAT),
    };
    let r = daily_time_of(read);
    proof {
        assert forall|h: int, m: int, sec: int|
            0 <= h < 24 && 0 <= m < 60 && 0 <= sec < 60 && #[trigger] clock_seconds_text(h, m, sec)
                == trim(text@) implies r == Some(TimeOfDay::at(h * 3600 + m * 60, 0)) by {
            assert(refuses_clock_seconds(t@, first));
            assert(first is None);
            let total = h * 3600 + m * 60 + sec;
            assert(total % 60 == sec && total - total % 60 == h * 3600 + m * 60) by (nonlinear_arith)
                requires
                    total == h * 3600 + m * 60 + sec,
                    0 <= sec < 60,
                    0 <= h,
                    0 <= m,
            ;
        }
        assert forall|h: int, m: int|
            0 <= h < 24 && 0 <= m < 60 && #[trigger] clock_text(h, m) == trim(text@) implies r
            == Some(TimeOfDay::at(h * 3600 + m * 60, 0)) by {
            assert(reads_clock_back(t@, first));
            TimeOfDay::lemma_at(h * 3600 + m * 60, 0);
            assert((h * 3600 + m * 60) % 60 == 0);
        }
        assert forall|u: TimeOfDay|
            #[trigger] u.is_time() && u.second_of_day() % 60 == 0 && u.nano() == 0 && text@
                == clock_text(u.hour(), u.minute()) implies r == Some(u) by {
            u.lemma_is_time();
            lemma_clock_text_untrimmable(u.hour(), u.minute());
            lemma_trim_of_untrimmable(text@);
            assert(clock_text(u.hour(), u.minute()) == trim(text@));
            let s = u.second_of_day();
            assert(u.hour() * 3600 + u.minute() * 60 == s);
            TimeOfDay::lemma_at(s, 0);
            TimeOfDay::lemma_view_injective(TimeOfDay::at(s, 0), u);
        }
    }
    r
}

/// Whitespace around a daily time changes nothing: the text reads as its
/// trimmed self does.
pub proof fn lemma_daily_time_ignores_surrounding_whitespace(text: Seq<char>)
    ensures
        daily_time_read(trim(text)) == daily_time_read(text),
{
    crate::text::lemma_trim_idempotent(text);
}

/// The daily time a time read as seconds since midnight and nanoseconds
/// stands for: set to its minute, whatever precision arrived (a leap second
/// included).
pub fn daily_time_of(read: Option<(u32, u32)>) -> (r: Option<TimeOfDay>)
    requires
        read matches Some((s, f)) ==> s < SECONDS_PER_DAY,
    ensures
        r == match read {
            Some((s, f)) => Some(TimeOfDay::at(s - s % 60, 0)),
            None => None,
        },
        r matches Some(t) ==> t.is_time() && t.second_of_day() % 60 == 0 && t.nano() == 0,
{
    match read {
        Some((s, f)) => {
            proof {
                TimeOfDay::lemma_at(s - s % 60, 0);
            }
            TimeOfDay::new(s - s % 60, 0)
        },
        None => None,
    }
}

/// The switch `text` names, `on` or `off`, or `None` for anything else.
pub fn parse_switch(text: &str) -> (r: Option<bool>)
    ensures
        r == switch_read(text@),
{
    let chars = chars_of(text);
    let word = lowercased(trimmed(chars.as_slice()).as_slice());
    let on = chars_of("on");
    let off = chars_of("off");
    if same_chars(word.as_slice(), on.as_slice()) {
        Some(true)
    } else if same_chars(word.as_slice(), off.as_slice()) {
        Some(false)
    } else {
        None
    }
}

/// `settings` after the line `line` of a settings file.
fn apply_settings_line(settings: Settings, line: &[char]) -> (r: Settings)
    ensures
        r == apply_line(settings, line@),
        forall|h: int, m: int|
            0 <= h < 24 && 0 <= m < 60 && #[trigger] daily_time_line(h, m) == line@ ==> r == (
            Settings { daily_time: TimeOfDay::at(h * 3600 + m * 60, 0), ..settings }),
{
    proof {
        assert forall|h: int, m: int|
            0 <= h < 24 && 0 <= m < 60 && #[trigger] daily_time_line(h, m) == line@ implies (
            match split_once(line@, '=') {
                Some((key, value)) => to_ascii_lowercase(trim(key)) == DAILY_TIME_KEY@ && trim(
                    value,
                ) == clock_text(h, m),
                None => false,
            }) by {
            lemma_daily_line_parts(h, m);
        }
    }
    // No `=` is no setting: a blank line, a note somebody left at the top of
    // the file, anything at all. Reflect reads what it recognises and steps
    // over the rest.
    match split_once_at(line, '=') {
        None => settings,
        Some((key, value)) => {
            let key = lowercased(trimmed(key.as_slice()).as_slice());
            let daily_key = chars_of(DAILY_TIME_KEY);
            let prompts_key = chars_of(SHOW_PROMPTS_KEY);
            let login_key = chars_of(START_AT_LOGIN_KEY);
            if same_chars(key.as_slice(), daily_key.as_slice()) {
                let value = string_of(value.as_slice());
                let read = parse_daily_time(value.as_str());
                proof {
                    assert forall|h: int, m: int|
                        0 <= h < 24 && 0 <= m < 60 && #[trigger] daily_time_line(h, m)
                            == line@ implies read == Some(TimeOfDay::at(h * 3600 + m * 60, 0)) by {
                        assert(clock_text(h, m) == trim(value@));
                    }
                }
                match read {
                    Some(time) => Settings { daily_time: time, ..settings },
                    None => settings,
                }
            } else if same_chars(key.as_slice(), prompts_key.as_slice()) {
                let value = string_of(value.as_slice());
                match parse_switch(value.as_str()) {
                    Some(on) => Settings { show_prompts: on, ..settings },
                    None => settings,
                }
            } else if same_chars(key.as_slice(), login_key.as_slice()) {
                let value = string_of(value.as_slice());
                match parse_switch(value.as_str()) {
                    Some(on) => Settings { start_at_login: on, ..settings },
                    None => settings,
                }
            } else {
                settings
            }
        },
    }
}

/// The settings a settings file's text holds, with Reflect's defaults for
/// whatever it doesn't say.
fn parse(text: &str) -> (r: Settings)
    ensures
        r == settings_read(text@),
        forall|settings: Settings|
            on_the_minute(settings) && #[trigger] settings_text(settings) == text@ ==> r == settings,
{
    let chars = chars_of(text);
    let mut settings = Settings::default();
    let mut line: Vec<char> = Vec::new();
    let ghost mut finished: Seq<Seq<char>> = Seq::empty();
    let mut i: usize = 0;
    assert(chars@.take(0) =~= Seq::<char>::empty());
    while i < chars.len()
        invariant
            i <= chars@.len(),
            newline_pieces(chars@.take(i as int)) == finished.push(line@),
            settings == apply_lines(Settings::initial(), finished),
            finished.len() >= 1 ==> first_line_applies(finished[0]),
        decreases chars@.len() - i,
    {
        assert(chars@.take(i + 1).drop_last() =~= chars@.take(i as int));
        if chars[i] == '\n' {
            settings = apply_settings_line(settings, line.as_slice());
            proof {
                assert(finished.push(line@).drop_last() =~= finished);
                finished = finished.push(line@);
            }
            line = Vec::new();
        } else {
            line.push(chars[i]);
        }
        i = i + 1;
    }
    assert(chars@.take(chars@.len() as int) =~= chars@);
    let r = apply_settings_line(settings, line.as_slice());
    assert(finished.push(line@).drop_last() =~= finished);
    proof {
        assert forall|target: Settings|
            on_the_minute(target) && #[trigger] settings_text(target) == text@ implies r
            == target by {
            lemma_settings_read_back(target, finished, line@);
        }
    }
    r
}

proof fn lemma_settings_read_back(target: Settings, finished: Seq<Seq<char>>, last: Seq<char>)
    requires
        on_the_minute(target),
        newline_pieces(settings_text(target)) == finished.push(last),
        finished.len() >= 1 ==> first_line_applies(finished[0]),
    ensures
        apply_line(apply_lines(Settings::initial(), finished), last) == target,
{
    lemma_settings_text_pieces(target);
    let t = target.daily_time;
    t.lemma_is_time();
    let h = t.hour();
    let m = t.minute();
    assert(finished.push(last).len() == 4);
    assert(finished.len() == 3);
    assert(finished[0] == daily_time_line(h, m));
    assert(finished[1] == switch_line(SHOW_PROMPTS_KEY@, target.show_prompts));
    assert(finished[2] == switch_line(START_AT_LOGIN_KEY@, target.start_at_login));
    assert(last == Seq::<char>::empty());
    let one = finished.drop_last().drop_last();
    assert(one.drop_last() =~= Seq::<Seq<char>>::empty());
    assert(one =~= seq![finished[0]]);
    let after_first = apply_line(Settings::initial(), finished[0]);
    assert(after_first == (Settings {
        daily_time: TimeOfDay::at(h * 3600 + m * 60, 0),
        ..Settings::initial()
    }));
    assert(h * 3600 + m * 60 == t.second_of_day());
    TimeOfDay::lemma_at(h * 3600 + m * 60, 0);
    TimeOfDay::lemma_view_injective(TimeOfDay::at(h * 3600 + m * 60, 0), t);
    lemma_switch_line_parts(SHOW_PROMPTS_KEY@, target.show_prompts);
    lemma_switch_line_parts(START_AT_LOGIN_KEY@, target.start_at_login);
    assert(apply_lines(Settings::initial(), Seq::<Seq<char>>::empty()) == Settings::initial());
    assert(apply_lines(Settings::initial(), one) == after_first);
    let after_second = apply_lines(Settings::initial(), finished.drop_last());
    assert(after_second == apply_line(after_first, finished[1]));
    assert(after_second == (Settings { show_prompts: target.show_prompts, ..after_first }));
    let after_third = apply_lines(Settings::initial(), finished);
    assert(after_third == apply_line(after_second, finished[2]));
    assert(after_third == (Settings { start_at_login: target.start_at_login, ..after_second }));
    assert(split_once(Seq::<char>::empty(), '=') is None);
    assert(apply_line(after_third, last) == after_third);
}

/// The settings as they sit on disk: one `key = value` per line, in the
/// same folder as the entries and every bit as readable as they are.
pub struct SettingsFile {
    path: PathBuf,
}

impl SettingsFile {
    /// Where the settings are kept.
    pub closed spec fn location(self) -> PathBuf {
        self.path
    }

    /// The settings kept at `path`. The file needn't exist yet.
    pub fn at(path: PathBuf) -> (r: SettingsFile)
        ensures
            r.location() == path,
    {
        SettingsFile { path }
    }

    /// Where the settings are kept.
    pub fn path(&self) -> (r: &PathBuf)
        ensures
            *r == self.location(),
    {
        &self.path
    }

    /// The user's settings, or Reflect's defaults where they haven't said,
    /// given the file's text (`None` where there is no file yet).
    ///
    /// A file that isn't there yet is a first run, and a line that makes no
    /// sense is one setting Reflect can't honour: both answer with the
    /// default for what's missing and nothing more. Trouble actually reading
    /// the file is the caller's to return as the error it is.
    pub fn load(&self, on_disk: Option<&str>) -> (r: Settings)
        ensures
            r == match on_disk {
                Some(text) => settings_read(text@),
                None => Settings::initial(),
            },
            on_disk matches Some(text) ==> forall|settings: Settings|
                on_the_minute(settings) && #[trigger] settings_text(settings) == text@ ==> r
                    == settings,
    {
        match on_disk {
            Some(text) => parse(text),
            None => Settings::default(),
        }
    }

    /// Write `settings` out: the text for the caller to write at
    /// [`SettingsFile::path`], the daily time and the two switches, one
    /// `key = value` per line, which [`SettingsFile::load`] reads back.
    pub fn save(&self, settings: &Settings) -> (r: String)
        ensures
            r@ == settings_text(*settings),
    {
        let mut chars: Vec<char> = Vec::new();
        append_text(&mut chars, DAILY_TIME_KEY);
        append_text(&mut chars, " = ");
        let time = format_daily_time(settings.daily_time);
        append_text(&mut chars, time.as_str());
        append_text(&mut chars, "\n");
        append_text(&mut chars, SHOW_PROMPTS_KEY);
        append_text(&mut chars, " = ");
        append_switch(&mut chars, settings.show_prompts);
        append_text(&mut chars, "\n");
        append_text(&mut chars, START_AT_LOGIN_KEY);
        append_text(&mut chars, " = ");
        append_switch(&mut chars, settings.start_at_login);
        append_text(&mut chars, "\n");
        string_of(chars.as_slice())
    }
}

/// `on` or `off` added to the end of `chars`.
fn append_switch(chars: &mut Vec<char>, on: bool)
    ensures
        final(chars)@ == old(chars)@ + switch_word(on),
{
    if on {
        append_text(chars, "on");
    } else {
        append_text(chars, "off");
    }
}

/// `text`'s characters added to the end of `chars`.
pub fn append_text(chars: &mut Vec<char>, text: &str)
    ensures
        final(chars)@ == old(chars)@ + text@,
{
    let more = chars_of(text);
    let mut i: usize = 0;
    let ghost start = chars@;
    while i < more.len()
        invariant
            i <= more@.len(),
            chars@ == start + more@.take(i as int),
        decreases more@.len() - i,
    {
        chars.push(more[i]);
        i = i + 1;
        assert(chars@ =~= start + more@.take(i as int));
    }
    assert(more@.take(more@.len() as int) =~= more@);
}

} // verus!
