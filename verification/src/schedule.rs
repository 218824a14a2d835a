//! When Reflect's daily reminder is due, and when it last went out.
//!
//! Every moment here is naive local wall-clock time, the time the user would
//! read off a clock on the wall, which is also the time they set. That is
//! what makes daylight saving come out right with no mechanism for it: in
//! spring the reminder fires when the wall clock passes the time, and in
//! autumn the hour that happens twice can't fire twice, because by its
//! second pass that occurrence is already recorded as delivered.

use std::path::PathBuf;
use vstd::prelude::*;

use crate::calendar::{
    chrono_format_moment, chrono_parse_moment, chrono_parsed_moment, day_count, is_calendar_date,
    is_timestamp_text_of, lemma_timestamp_text_untrimmable, reads_timestamps_back, timestamp_text,
    Day, Moment, TimeOfDay, MAX_DAY_NUMBER, MIN_DAY_NUMBER, NANOS_PER_DAY, NANOS_PER_SECOND,
    SECONDS_PER_DAY,
};
use crate::text::{
    chars_of, lemma_trim_of_untrimmable, string_of, trim, trim_end, trim_start,
    trimmed,
};

verus! {

broadcast use Day::lemma_numbered;

/// How close to the next day's reminder, in seconds, a missed one stops
/// being worth firing. Inclusive: a catch-up exactly this far ahead of
/// tomorrow's reminder is let go rather than shown almost on top of it.
pub const CATCH_UP_CUTOFF_SECONDS: u32 = 3600;

/// [`CATCH_UP_CUTOFF_SECONDS`] in nanoseconds.
pub open spec fn catch_up_cutoff() -> int {
    CATCH_UP_CUTOFF_SECONDS * NANOS_PER_SECOND
}

/// How the record's timestamp is written: sortable, and legible to anyone
/// who opens the file to see what Reflect thinks it did.
pub const TIMESTAMP: &'static str = "%Y-%m-%dT%H:%M:%S";

/// The time Reflect nudges on until the user moves it: nine in the evening,
/// late enough that there's a day behind you worth looking back on.
pub fn default_daily_time() -> (r: TimeOfDay)
    ensures
        r == TimeOfDay::at(75600, 0),
        r.second_of_day() == 21 * 3600,
        r.nano() == 0,
        r.hour() == 21,
        r.minute() == 0,
{
    let r = TimeOfDay::from_hms(21, 0, 0).unwrap();
    proof {
        TimeOfDay::lemma_at(75600, 0);
        TimeOfDay::lemma_view_injective(r, TimeOfDay::at(75600, 0));
    }
    r
}

/// The one reminder a day, at the time the user picked.
pub struct Schedule {
    daily_time: TimeOfDay,
}

/// What [`Schedule::due`] decided.
#[derive(Debug, Clone, Copy, PartialEq, Eq, Structural)]
pub enum Reminder {
    /// Show the reminder now. `occurrence` is the scheduled time it belongs
    /// to, not the moment it actually appears: a catch-up on Tuesday morning
    /// is still Monday evening's reminder, and that is what should be
    /// recorded as delivered.
    Due { occurrence: Moment },
    /// Nothing owed. Ask again later.
    NotDue,
}

impl Schedule {
    /// The time of day the reminder is set for.
    pub closed spec fn daily(self) -> TimeOfDay {
        self.daily_time
    }

    /// The day of the most recent scheduled time at or before `now`; on the
    /// very first day chrono represents, where there is no day before to
    /// reach for, that day itself.
    pub open spec fn occurrence_day(self, now: Moment) -> Day {
        if now.day@ * NANOS_PER_DAY + self.daily().nanos_of_day() <= now.ticks() {
            now.day
        } else if now.day@ > MIN_DAY_NUMBER {
            Day::numbered(now.day@ - 1)
        } else {
            now.day
        }
    }

    /// The occurrence `now` is living inside.
    pub open spec fn occurrence(self, now: Moment) -> Moment {
        Moment { day: self.occurrence_day(now), time: self.daily() }
    }

    /// Whether the day after `now`'s occurrence is one chrono represents,
    /// which deciding whether a reminder is due needs.
    pub open spec fn can_look_ahead(self, now: Moment) -> bool {
        self.occurrence(now).day@ < MAX_DAY_NUMBER
    }

    /// What [`Schedule::due`] answers at `now`, given the occurrence last
    /// delivered: nothing where that occurrence has already gone out or where
    /// the next one is within the catch-up cutoff, else this occurrence.
    pub open spec fn reminder(self, now: Moment, last_reminded: Moment) -> Reminder {
        let occurrence = self.occurrence(now);
        if last_reminded.ticks() >= occurrence.ticks() {
            Reminder::NotDue
        } else if occurrence.ticks() + NANOS_PER_DAY - now.ticks() <= catch_up_cutoff() {
            Reminder::NotDue
        } else {
            Reminder::Due { occurrence }
        }
    }

    /// A reminder every day at `daily_time`.
    pub fn daily_at(daily_time: TimeOfDay) -> (r: Schedule)
        ensures
            r.daily() == daily_time,
    {
        Schedule { daily_time }
    }

    /// The most recent scheduled time at or before `now`: the occurrence
    /// `now` is living inside.
    pub fn occurrence_on_or_before(&self, now: Moment) -> (r: Moment)
        ensures
            r == self.occurrence(now),
    {
        let today = Moment::new(now.day, self.daily_time);
        proof {
            use_type_invariant(&now.day);
            now.day.lemma_represented();
        }
        if today.is_at_or_before(&now) {
            return today;
        }
        // Before today's time, so the current occurrence is yesterday's. The
        // fallback only bites at the very first representable date, where
        // there is no yesterday to reach for.
        match now.day.pred() {
            Some(yesterday) => Moment::new(yesterday, self.daily_time),
            None => today,
        }
    }

    /// Whether the day after `now`'s occurrence exists, so that [`due`]
    /// can be asked at `now`.
    ///
    /// [`due`]: Schedule::due
    pub fn can_look_ahead_from(&self, now: Moment) -> (r: bool)
        ensures
            r == self.can_look_ahead(now),
    {
        let occurrence = self.occurrence_on_or_before(now);
        occurrence.day.number() < MAX_DAY_NUMBER
    }

    /// Whether to nudge the user right now, given when they were last nudged.
    ///
    /// Reflect isn't running a timer so much as answering this question over
    /// and over, which is what lets a machine that was asleep at the
    /// appointed hour still get its reminder: it wakes, asks, and finds one
    /// owed.
    pub fn due(&self, now: Moment, last_reminded: Moment) -> (r: Reminder)
        requires
            self.can_look_ahead(now),
        ensures
            r == self.reminder(now, last_reminded),
    {
        let occurrence = self.occurrence_on_or_before(now);

        // Already delivered. This is also what makes a dismissed notification
        // the end of it for that day: Reflect records that it nudged, never
        // whether the nudge was taken up.
        if occurrence.is_at_or_before(&last_reminded) {
            return Reminder::NotDue;
        }

        // Late enough that tomorrow's is nearly here. Two reminders almost
        // back to back is worse than a missed one, so this day is let go and
        // the next occurrence fires normally.
        let next_day = occurrence.day.succ().unwrap();
        let next = Moment::new(next_day, occurrence.time);
        let cutoff = (CATCH_UP_CUTOFF_SECONDS as i128) * 1_000_000_000i128;
        if next.tick_count() - now.tick_count() <= cutoff {
            return Reminder::NotDue;
        }

        Reminder::Due { occurrence }
    }
}

/// The occurrence `now` lives inside is at or before it, and less than a day
/// before it, at the daily time (where `now` is not ahead of the daily time
/// on the first day chrono represents, which has no day before it).
pub proof fn lemma_occurrence_contains_now(schedule: Schedule, now: Moment)
    requires
        now.is_valid(),
        schedule.daily().is_time(),
        now.day@ > MIN_DAY_NUMBER || schedule.daily().nanos_of_day() <= now.time.nanos_of_day(),
    ensures
        schedule.occurrence(now).time == schedule.daily(),
        schedule.occurrence(now).ticks() <= now.ticks() < schedule.occurrence(now).ticks()
            + NANOS_PER_DAY,
{
    now.day.lemma_represented();
    now.time.lemma_is_time();
    schedule.daily().lemma_is_time();
}

/// Every moment from an occurrence up to the next one lives inside that
/// occurrence.
pub proof fn lemma_occurrence_of_its_own_window(schedule: Schedule, now: Moment, later: Moment)
    requires
        now.is_valid(),
        later.is_valid(),
        schedule.daily().is_time(),
        schedule.occurrence(now).ticks() <= later.ticks() < schedule.occurrence(now).ticks()
            + NANOS_PER_DAY,
    ensures
        schedule.occurrence(later) == schedule.occurrence(now),
{
    let occ = schedule.occurrence(now);
    now.day.lemma_represented();
    later.day.lemma_represented();
    now.time.lemma_is_time();
    later.time.lemma_is_time();
    schedule.daily().lemma_is_time();
    let d = occ.day@;
    // `later` is on the occurrence's day at or after the daily time, or on
    // the day after it, before the daily time.
    if later.day@ == d {
        Day::lemma_view_injective(later.day, occ.day);
    } else {
        assert(later.day@ == d + 1);
        Day::lemma_view_injective(Day::numbered(later.day@ - 1), occ.day);
    }
}

/// A reminder already sent is not sent again that day: once an occurrence is
/// recorded as delivered, asking at any moment up to the next occurrence
/// finds nothing owed. This is the whole of "dismissing it is the end of it
/// for that day".
pub proof fn lemma_delivered_is_not_due_again(
    schedule: Schedule,
    now: Moment,
    last_reminded: Moment,
    later: Moment,
)
    requires
        now.is_valid(),
        later.is_valid(),
        schedule.daily().is_time(),
        schedule.reminder(now, last_reminded) == (Reminder::Due {
            occurrence: schedule.occurrence(now),
        }),
        schedule.occurrence(now).ticks() <= later.ticks() < schedule.occurrence(now).ticks()
            + NANOS_PER_DAY,
    ensures
        schedule.reminder(later, schedule.occurrence(now)) == Reminder::NotDue,
{
    lemma_occurrence_of_its_own_window(schedule, now, later);
}

/// A machine asleep at the appointed hour gets its reminder when it wakes:
/// an occurrence not yet delivered is due at any moment inside it that is
/// more than the catch-up cutoff ahead of the next one.
pub proof fn lemma_missed_reminder_arrives_on_waking(
    schedule: Schedule,
    now: Moment,
    last_reminded: Moment,
)
    requires
        last_reminded.ticks() < schedule.occurrence(now).ticks(),
        schedule.occurrence(now).ticks() + NANOS_PER_DAY - now.ticks() > catch_up_cutoff(),
    ensures
        schedule.reminder(now, last_reminded) == (Reminder::Due {
            occurrence: schedule.occurrence(now),
        }),
{
}

/// A reminder that is due belongs to an occurrence after the last one
/// delivered, and more than the catch-up cutoff ahead of the next.
pub proof fn lemma_due_is_owed_and_not_crowded(
    schedule: Schedule,
    now: Moment,
    last_reminded: Moment,
)
    requires
        schedule.reminder(now, last_reminded) is Due,
    ensures
        ({
            let occurrence = schedule.occurrence(now);
            &&& schedule.reminder(now, last_reminded) == (Reminder::Due { occurrence })
            &&& last_reminded.ticks() < occurrence.ticks()
            &&& occurrence.ticks() + NANOS_PER_DAY - now.ticks() > catch_up_cutoff()
        }),
{
}

/// A record from the future keeps the reminder quiet rather than firing it:
/// a last-reminded moment at or after `now` means nothing is owed.
pub proof fn lemma_future_record_is_quiet(schedule: Schedule, now: Moment, last_reminded: Moment)
    requires
        now.is_valid(),
        schedule.daily().is_time(),
        now.day@ > MIN_DAY_NUMBER || schedule.daily().nanos_of_day() <= now.time.nanos_of_day(),
        last_reminded.ticks() >= now.ticks(),
    ensures
        schedule.reminder(now, last_reminded) == Reminder::NotDue,
{
    lemma_occurrence_contains_now(schedule, now);
}

/// The catch-up let go is only that one: where a reminder owed is let go
/// because the next occurrence is nearly here, the next occurrence itself
/// is due when it comes.
pub proof fn lemma_let_go_only_that_one(schedule: Schedule, now: Moment, last_reminded: Moment)
    requires
        now.is_valid(),
        schedule.daily().is_time(),
        now.day@ > MIN_DAY_NUMBER || schedule.daily().nanos_of_day() <= now.time.nanos_of_day(),
        schedule.occurrence(now).day@ + 1 < MAX_DAY_NUMBER,
        last_reminded.ticks() < schedule.occurrence(now).ticks(),
        schedule.reminder(now, last_reminded) == Reminder::NotDue,
    ensures
        ({
            let next = Moment {
                day: Day::numbered(schedule.occurrence(now).day@ + 1),
                time: schedule.daily(),
            };
            &&& schedule.reminder(next, last_reminded) == (Reminder::Due { occurrence: next })
            &&& schedule.can_look_ahead(next)
        }),
{
    lemma_occurrence_contains_now(schedule, now);
    let occ = schedule.occurrence(now);
    now.day.lemma_represented();
    let next = Moment { day: Day::numbered(occ.day@ + 1), time: schedule.daily() };
    schedule.daily().lemma_is_time();
    assert(schedule.occurrence_day(next) == next.day);
}

/// Starting over is not a catch-up: with the record started at the
/// occurrence `now` sits in, nothing is owed at `now`.
pub proof fn lemma_fresh_start_is_quiet(schedule: Schedule, now: Moment)
    ensures
        schedule.reminder(now, schedule.occurrence(now)) == Reminder::NotDue,
{
}

/// A daily time just moved, with the record started over at the new time's
/// occurrence that `now` sits in, owes nothing at `now`, and the new time's
/// next occurrence goes out when it comes.
pub proof fn lemma_moved_time_waits_for_its_next_occurrence(schedule: Schedule, now: Moment)
    requires
        now.is_valid(),
        schedule.daily().is_time(),
        schedule.can_look_ahead(now),
    ensures
        schedule.reminder(now, schedule.occurrence(now)) == Reminder::NotDue,
        ({
            let restart = schedule.occurrence(now);
            let next = Moment { day: Day::numbered(restart.day@ + 1), time: schedule.daily() };
            schedule.reminder(next, restart) == Reminder::Due { occurrence: next }
        }),
{
    now.day.lemma_represented();
    schedule.daily().lemma_is_time();
    let restart = schedule.occurrence(now);
    let next = Moment { day: Day::numbered(restart.day@ + 1), time: schedule.daily() };
    assert(next.day@ == restart.day@ + 1);
    assert(schedule.occurrence_day(next) == next.day);
    assert(schedule.occurrence(next) == next);
}

/// The file remembering which occurrence Reflect last nudged on, so a
/// restart doesn't nudge again for a day already done: a single wall-clock
/// timestamp in a plain text file, next to the entries and as readable as
/// they are.
pub struct LastReminder {
    path: PathBuf,
}

/// What [`LastReminder::load_or_start`] found.
#[derive(Debug, Clone, Copy, PartialEq, Eq, Structural)]
pub struct Resumed {
    /// When Reflect last nudged.
    pub last_reminded: Moment,
    /// Whether the record is being started over, and `last_reminded` has to
    /// be written back as the new record.
    pub restarted: bool,
}

/// A nanosecond count as a [`Moment`] holds it: a leap second, which chrono
/// shows as a count of a billion or more, folded onto the last nanosecond
/// of its second.
pub open spec fn folded_nano(nano: int) -> int {
    if nano < NANOS_PER_SECOND {
        nano
    } else {
        NANOS_PER_SECOND - 1
    }
}

/// What a record holds: the moment it names, and whether chrono read it as
/// a leap second. No [`Moment`] holds a leap second, so one is kept folded
/// onto the last nanosecond of its second, with `leap_second` set.
#[derive(Debug, Clone, Copy, PartialEq, Eq, Structural)]
pub struct Recorded {
    /// The moment named, a leap second folded onto the last nanosecond of
    /// its second.
    pub moment: Moment,
    /// Whether the record named a leap second.
    pub leap_second: bool,
}

impl Recorded {
    /// Whether the record lies at or before `now`, in chrono's order: a leap
    /// second comes after every moment of the second it is folded into, the
    /// last nanosecond included, and before the next second.
    pub open spec fn lies_at_or_before(self, now: Moment) -> bool {
        if self.leap_second {
            self.moment.ticks() < now.ticks()
        } else {
            self.moment.ticks() <= now.ticks()
        }
    }
}

/// What a record's text holds, where it holds anything: the text trimmed
/// and read as [`TIMESTAMP`], a leap second folded onto the last nanosecond
/// of its second and marked as one.
pub open spec fn recorded_moment(text: Seq<char>) -> Option<Recorded> {
    match chrono_parsed_moment(trim(text), TIMESTAMP@) {
        Some((n, s, f)) => Some(
            Recorded {
                moment: Moment { day: Day::numbered(n), time: TimeOfDay::at(s, folded_nano(f)) },
                leap_second: f >= NANOS_PER_SECOND,
            },
        ),
        None => None,
    }
}

impl LastReminder {
    /// Where the record is kept.
    pub closed spec fn location(self) -> PathBuf {
        self.path
    }

    /// The record kept at `path`. The file needn't exist yet.
    pub fn at(path: PathBuf) -> (r: LastReminder)
        ensures
            r.location() == path,
    {
        LastReminder { path }
    }

    /// Where the record is kept.
    pub fn path(&self) -> (r: &PathBuf)
        ensures
            *r == self.location(),
    {
        &self.path
    }

    /// What [`LastReminder::load_or_start`] resolves to, given what the
    /// record held (`None` where there is no record).
    pub open spec fn resume(recorded: Option<Recorded>, schedule: Schedule, now: Moment) -> Resumed {
        match recorded {
            Some(record) => if record.lies_at_or_before(now) {
                Resumed { last_reminded: record.moment, restarted: false }
            } else {
                Resumed { last_reminded: schedule.occurrence(now), restarted: true }
            },
            None => Resumed { last_reminded: schedule.occurrence(now), restarted: true },
        }
    }

    /// A record is kept exactly when there is one and it lies at or before
    /// `now`, and then it is what Reflect last nudged on, never a moment
    /// after `now`. A record started over is set to the daily time's most
    /// recent moment at or before `now`, less than a day before it, so the
    /// next daily time after `now` is still owed. (On the first day chrono
    /// represents, before the daily time, there is no earlier moment of it
    /// to start from.)
    pub proof fn lemma_restart_is_the_occurrence_now_sits_in(
        recorded: Option<Recorded>,
        schedule: Schedule,
        now: Moment,
    )
        requires
            now.is_valid(),
            schedule.daily().is_time(),
        ensures
            ({
                let r = LastReminder::resume(recorded, schedule, now);
                &&& !r.restarted <==> (recorded matches Some(record) && record.lies_at_or_before(
                    now,
                ))
                &&& !r.restarted ==> (recorded matches Some(record) && r.last_reminded
                    == record.moment && r.last_reminded.ticks() <= now.ticks())
                &&& r.restarted ==> r.last_reminded.time == schedule.daily()
                &&& r.restarted && (now.day@ > MIN_DAY_NUMBER || schedule.daily().nanos_of_day()
                    <= now.time.nanos_of_day()) ==> r.last_reminded.ticks() <= now.ticks()
                    < r.last_reminded.ticks() + NANOS_PER_DAY
            }),
    {
        if now.day@ > MIN_DAY_NUMBER || schedule.daily().nanos_of_day() <= now.time.nanos_of_day() {
            lemma_occurrence_contains_now(schedule, now);
        }
        now.day.lemma_represented();
        now.time.lemma_is_time();
        schedule.daily().lemma_is_time();
    }

    /// When Reflect last nudged, given the record's text (`None` where there
    /// is no record file), starting the record over if there isn't one.
    ///
    /// A missing, unreadable, or impossible record all resolve the same way:
    /// to the occurrence `now` sits in, as though it had just been
    /// delivered. That is deliberately not a catch-up: installing Reflect at
    /// ten past nine shouldn't fire a notification a second later, and a
    /// clock that has been moved back shouldn't leave Reflect silent until
    /// real time catches up with a timestamp from its future. Where the
    /// record is started over, `restarted` says so and the caller writes
    /// [`LastReminder::record`] of it back.
    pub fn load_or_start(&self, on_disk: Option<&str>, schedule: &Schedule, now: Moment) -> (r:
        Resumed)
        ensures
            r == LastReminder::resume(
                match on_disk {
                    Some(text) => recorded_moment(text@),
                    None => None,
                },
                *schedule,
                now,
            ),
            on_disk matches Some(text) ==> forall|m: Moment|
                m.is_valid() && m.is_whole_second() && m.ticks() <= now.ticks()
                    && #[trigger] is_record_text_of(text@, m) ==> r == (Resumed {
                    last_reminded: m,
                    restarted: false,
                }),
            on_disk matches Some(text) ==> (recorded_moment(text@) matches Some(record)
                && record.leap_second && record.moment.day == now.day
                && record.moment.time.second_of_day() == now.time.second_of_day() ==> r.restarted),
            on_disk is None ==> r.restarted,
            r.restarted ==> r.last_reminded.time == schedule.daily(),
            r.restarted && (now.day@ > MIN_DAY_NUMBER || schedule.daily().nanos_of_day()
                <= now.time.nanos_of_day()) ==> r.last_reminded.ticks() <= now.ticks()
                < r.last_reminded.ticks() + NANOS_PER_DAY,
            !r.restarted ==> r.last_reminded.ticks() <= now.ticks(),
    {
        let recorded = match on_disk {
            Some(text) => read(text),
            None => None,
        };
        proof {
            use_type_invariant(&now.time);
            use_type_invariant(&now.day);
            use_type_invariant(&schedule.daily_time);
            now.time.lemma_is_time();
            LastReminder::lemma_restart_is_the_occurrence_now_sits_in(
                match on_disk {
                    Some(text) => recorded_moment(text@),
                    None => None,
                },
                *schedule,
                now,
            );
        }
        if let Some(record) = recorded {
            let kept = if record.leap_second {
                !now.is_at_or_before(&record.moment)
            } else {
                record.moment.is_at_or_before(&now)
            };
            if kept {
                return Resumed { last_reminded: record.moment, restarted: false };
            }
        }
        Resumed { last_reminded: schedule.occurrence_on_or_before(now), restarted: true }
    }

    /// Remember that `occurrence`'s reminder went out: the text the record
    /// is written with, its timestamp and a newline, for the caller to write
    /// at [`LastReminder::path`].
    pub fn record(&self, occurrence: Moment) -> (r: String)
        ensures
            is_record_text_of(r@, occurrence),
    {
        let stamp = chrono_format_moment(
            occurrence.day.number(),
            occurrence.time.seconds_from_midnight(),
            occurrence.time.nanosecond(),
            TIMESTAMP,
        );
        let mut chars = chars_of(stamp.as_str());
        chars.push('\n');
        let r = string_of(chars.as_slice());
        assert(stamp@.push('\n') == r@);
        r
    }

    /// What moving the daily time from `in_force` to `chosen` at `now` does
    /// to the record: nothing where the time hasn't moved, and otherwise the
    /// record started over at the occurrence of the new time that `now` sits
    /// in, as the text for the caller to write at [`LastReminder::path`].
    ///
    /// Started over rather than kept, so that a time moved to earlier in the
    /// evening doesn't fire the moment Settings closes: the new time's
    /// occurrence already behind `now` counts as delivered, and its next one
    /// goes out as usual.
    pub fn follow_time_change(&self, in_force: TimeOfDay, chosen: TimeOfDay, now: Moment) -> (r:
        Option<String>)
        ensures
            r is None <==> in_force == chosen,
            r matches Some(text) ==> forall|schedule: Schedule|
                #[trigger] schedule.daily() == chosen ==> is_record_text_of(
                    text@,
                    schedule.occurrence(now),
                ),
    {
        if in_force == chosen {
            return None;
        }
        let schedule = Schedule::daily_at(chosen);
        let restart = schedule.occurrence_on_or_before(now);
        Some(self.record(restart))
    }
}

/// Whether `text` is what [`LastReminder::record`] writes for `moment`.
pub open spec fn is_record_text_of(text: Seq<char>, moment: Moment) -> bool {
    exists|stamp: Seq<char>|
        is_timestamp_text_of(stamp, moment.day@, moment.time.second_of_day())
            && #[trigger] stamp.push('\n') == text
}

/// The moment a record's text holds, where it holds one. Text written for a
/// moment on a whole second reads back as that moment.
fn read(text: &str) -> (r: Option<Recorded>)
    ensures
        r == recorded_moment(text@),
        forall|m: Moment|
            m.is_valid() && m.is_whole_second() && #[trigger] is_record_text_of(text@, m) ==> r
                == Some(Recorded { moment: m, leap_second: false }),
        r matches Some(record) ==> record.moment.is_valid() && (record.leap_second
            ==> record.moment.time.nano() == NANOS_PER_SECOND - 1),
{
    let chars = chars_of(text);
    let stamp = string_of(trimmed(chars.as_slice()).as_slice());
    let parsed = chrono_parse_moment(stamp.as_str(), TIMESTAMP);
    proof {
        assert forall|m: Moment|
            m.is_valid() && m.is_whole_second() && #[trigger] is_record_text_of(text@, m) implies parsed
            == Some((m.day@ as i32, m.time.second_of_day() as u32, m.time.nano() as u32)) by {
            lemma_stamp_reads_back(text@, m, parsed);
        }
    }
    recorded_moment_of(parsed)
}

/// What a record read as day number, seconds since midnight and
/// nanoseconds stands for. A leap second, which no [`Moment`] holds, is
/// folded onto the last nanosecond of its second and marked as one, so that
/// it is still ordered after that nanosecond (see
/// [`Recorded::lies_at_or_before`]).
pub fn recorded_moment_of(read: Option<(i32, u32, u32)>) -> (r: Option<Recorded>)
    requires
        read matches Some((n, s, f)) ==> MIN_DAY_NUMBER <= n <= MAX_DAY_NUMBER && s
            < SECONDS_PER_DAY,
    ensures
        r == match read {
            Some((n, s, f)) => Some(
                Recorded {
                    moment: Moment {
                        day: Day::numbered(n as int),
                        time: TimeOfDay::at(s as int, folded_nano(f as int)),
                    },
                    leap_second: f >= NANOS_PER_SECOND,
                },
            ),
            None => None,
        },
        forall|m: Moment|
            #[trigger] m.is_valid() && read == Some(
                (m.day@ as i32, m.time.second_of_day() as u32, m.time.nano() as u32),
            ) ==> r == Some(Recorded { moment: m, leap_second: false }),
        r matches Some(record) ==> record.moment.is_valid() && (record.leap_second
            ==> record.moment.time.nano() == NANOS_PER_SECOND - 1),
{
    match read {
        Some((n, s, f)) => {
            let nano = if f < NANOS_PER_SECOND {
                f
            } else {
                NANOS_PER_SECOND - 1
            };
            let day = Day::from_number(n).unwrap();
            let time = TimeOfDay::new(s, nano).unwrap();
            proof {
                assert forall|m: Moment|
                    #[trigger] m.is_valid() && read == Some(
                        (m.day@ as i32, m.time.second_of_day() as u32, m.time.nano() as u32),
                    ) implies (Moment { day, time }) == m && f < NANOS_PER_SECOND by {
                    m.day.lemma_represented();
                    m.time.lemma_is_time();
                    Day::lemma_view_injective(day, m.day);
                    TimeOfDay::lemma_view_injective(time, m.time);
                }
            }
            Some(Recorded { moment: Moment::new(day, time), leap_second: f >= NANOS_PER_SECOND })
        },
        None => None,
    }
}

proof fn lemma_stamp_reads_back(text: Seq<char>, m: Moment, parsed: Option<(i32, u32, u32)>)
    requires
        m.is_valid(),
        m.is_whole_second(),
        is_record_text_of(text, m),
        reads_timestamps_back(trim(text), parsed),
    ensures
        parsed matches Some((n, s, f)) && n == m.day@ && s == m.time.second_of_day() && f == 0,
{
    let stamp = choose|stamp: Seq<char>|
        is_timestamp_text_of(stamp, m.day@, m.time.second_of_day()) && #[trigger] stamp.push('\n')
            == text;
    let s = m.time.second_of_day();
    m.time.lemma_is_time();
    let (y, mo, d) = choose|y: int, mo: int, d: int|
        is_calendar_date(y, mo, d) && day_count(y, mo, d) == m.day@ && #[trigger] timestamp_text(
            y,
            mo,
            d,
            s / 3600,
            (s % 3600) / 60,
            s % 60,
        ) == stamp;
    lemma_timestamp_text_untrimmable(y, mo, d, s / 3600, (s % 3600) / 60, s % 60);
    assert(trim(text) == stamp) by {
        assert(text.drop_last() =~= stamp);
        assert(text[0] == stamp[0]);
        assert(trim_start(text) == text);
        assert(trim_end(text) == trim_end(stamp));
        lemma_trim_of_untrimmable(stamp);
    }
    assert(s == (s / 3600) * 3600 + ((s % 3600) / 60) * 60 + s % 60);
    assert(timestamp_text(y, mo, d, s / 3600, (s % 3600) / 60, s % 60) == trim(text));
}

} // verus!
