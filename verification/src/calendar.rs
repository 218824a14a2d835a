//! Days, times of day and wall-clock moments, as plain numbers, and the
//! calls into `chrono` that write them out and read them back.
//!
//! A [`Day`] is a day of the proleptic Gregorian calendar, held as chrono's
//! own count of days from the common era (January 1 of year 1 is day 1). A
//! [`TimeOfDay`] is a second of the day and a nanosecond within it. A
//! [`Moment`] is the two together: naive local wall-clock time, the time the
//! user would read off a clock on the wall. Leap seconds, which chrono can
//! represent and the system clock never hands out, are not among them.

use chrono::{Datelike, Timelike};
use vstd::prelude::*;

verus! {

/// The earliest year chrono represents.
pub const MIN_YEAR: i32 = -262143;

/// The latest year chrono represents.
pub const MAX_YEAR: i32 = 262142;

/// The day number of January 1 of [`MIN_YEAR`], chrono's first date.
pub const MIN_DAY_NUMBER: i32 = -95746129;

/// The day number of December 31 of [`MAX_YEAR`], chrono's last date.
pub const MAX_DAY_NUMBER: i32 = 95745399;

pub const SECONDS_PER_DAY: u32 = 86400;

pub const NANOS_PER_SECOND: u32 = 1_000_000_000;

/// Nanoseconds in a day.
pub const NANOS_PER_DAY: i128 = 86_400_000_000_000;

pub open spec fn is_leap_year(year: int) -> bool {
    year % 4 == 0 && (year % 100 != 0 || year % 400 == 0)
}

pub open spec fn days_in_month(year: int, month: int) -> int {
    if month == 2 {
        if is_leap_year(year) {
            29
        } else {
            28
        }
    } else if month == 4 || month == 6 || month == 9 || month == 11 {
        30
    } else {
        31
    }
}

/// Days in `year` before the first of `month`.
pub open spec fn days_before_month(year: int, month: int) -> int {
    let common: int = if month <= 1 {
        0
    } else if month == 2 {
        31
    } else if month == 3 {
        59
    } else if month == 4 {
        90
    } else if month == 5 {
        120
    } else if month == 6 {
        151
    } else if month == 7 {
        181
    } else if month == 8 {
        212
    } else if month == 9 {
        243
    } else if month == 10 {
        273
    } else if month == 11 {
        304
    } else {
        334
    };
    if month > 2 && is_leap_year(year) {
        common + 1
    } else {
        common
    }
}

/// Days before January 1 of `year`, counted from January 1 of year 1.
pub open spec fn days_before_year(year: int) -> int {
    let p = year - 1;
    365 * p + p / 4 - p / 100 + p / 400
}

/// The day number of a calendar date: January 1 of year 1 is day 1.
pub open spec fn day_count(year: int, month: int, day: int) -> int {
    days_before_year(year) + days_before_month(year, month) + day
}

/// Whether year, month and day name a date chrono represents.
pub open spec fn is_calendar_date(year: int, month: int, day: int) -> bool {
    &&& MIN_YEAR <= year <= MAX_YEAR
    &&& 1 <= month <= 12
    &&& 1 <= day <= days_in_month(year, month)
}

proof fn lemma_div_step(p: int, d: int)
    requires
        d > 0,
    ensures
        (p + 1) / d == p / d + (if (p + 1) % d == 0 {
            1int
        } else {
            0int
        }),
{
    let q = p / d;
    let r = p % d;
    assert(p == d * q + r && 0 <= r < d) by {
        vstd::arithmetic::div_mod::lemma_fundamental_div_mod(p, d);
    }
    if r == d - 1 {
        assert(p + 1 == d * (q + 1) + 0) by (nonlinear_arith)
            requires
                p == d * q + r,
                r == d - 1,
        ;
        vstd::arithmetic::div_mod::lemma_div_basics(d);
        vstd::arithmetic::div_mod::lemma_fundamental_div_mod_converse(p + 1, d, q + 1, 0);
    } else {
        vstd::arithmetic::div_mod::lemma_fundamental_div_mod_converse(p + 1, d, q, r + 1);
    }
}

proof fn lemma_year_length(year: int)
    ensures
        days_before_year(year + 1) == days_before_year(year) + 365 + (if is_leap_year(year) {
            1int
        } else {
            0int
        }),
{
    let p = year - 1;
    lemma_div_step(p, 4);
    lemma_div_step(p, 100);
    lemma_div_step(p, 400);
}

proof fn lemma_days_before_year_monotone(a: int, b: int)
    requires
        a <= b,
    ensures
        days_before_year(a) <= days_before_year(b),
{
}

/// Every date chrono represents has a day number between its first and last.
pub proof fn lemma_calendar_date_in_range(year: int, month: int, day: int)
    requires
        is_calendar_date(year, month, day),
    ensures
        MIN_DAY_NUMBER <= day_count(year, month, day) <= MAX_DAY_NUMBER,
{
    lemma_days_before_year_monotone(MIN_YEAR as int, year);
    lemma_days_before_year_monotone(year + 1, MAX_YEAR + 1);
    lemma_year_length(year);
    assert(days_before_year(MIN_YEAR as int) + 1 == MIN_DAY_NUMBER);
    assert(days_before_year(MAX_YEAR + 1) == MAX_DAY_NUMBER);
}

proof fn lemma_day_count_year_bounds(year: int, month: int, day: int)
    requires
        1 <= month <= 12,
        1 <= day <= days_in_month(year, month),
    ensures
        days_before_year(year) < day_count(year, month, day) <= days_before_year(year + 1),
{
    lemma_year_length(year);
}

/// Different dates have different day numbers.
pub proof fn lemma_day_count_injective(y1: int, m1: int, d1: int, y2: int, m2: int, d2: int)
    requires
        is_calendar_date(y1, m1, d1),
        is_calendar_date(y2, m2, d2),
        day_count(y1, m1, d1) == day_count(y2, m2, d2),
    ensures
        y1 == y2 && m1 == m2 && d1 == d2,
{
    lemma_day_count_year_bounds(y1, m1, d1);
    lemma_day_count_year_bounds(y2, m2, d2);
    if y1 < y2 {
        lemma_days_before_year_monotone(y1 + 1, y2);
    } else if y2 < y1 {
        lemma_days_before_year_monotone(y2 + 1, y1);
    }
    assert(y1 == y2);
}

/// A day number names at most one text as `%Y-%m-%d` writes dates.
pub proof fn lemma_date_text_unique(a: Seq<char>, b: Seq<char>, n: int)
    requires
        is_date_text_of(a, n),
        is_date_text_of(b, n),
    ensures
        a == b,
{
    let (y1, m1, d1) = choose|y: int, m: int, d: int|
        is_calendar_date(y, m, d) && day_count(y, m, d) == n && #[trigger] date_text(y, m, d) == a;
    let (y2, m2, d2) = choose|y: int, m: int, d: int|
        is_calendar_date(y, m, d) && day_count(y, m, d) == n && #[trigger] date_text(y, m, d) == b;
    lemma_day_count_injective(y1, m1, d1, y2, m2, d2);
}

pub open spec fn digit_char(v: int) -> char {
    (48 + v) as char
}

/// `v` in decimal, with no padding.
pub open spec fn decimal(v: nat) -> Seq<char>
    decreases v,
{
    if v < 10 {
        seq![digit_char(v as int)]
    } else {
        decimal(v / 10).push(digit_char((v % 10) as int))
    }
}

/// `v` in decimal, zero-padded on the left to at least `width` digits.
pub open spec fn zero_padded(v: nat, width: nat) -> Seq<char> {
    let digits = decimal(v);
    if digits.len() >= width {
        digits
    } else {
        Seq::new((width - digits.len()) as nat, |i: int| '0') + digits
    }
}

/// A number below a hundred as exactly two digits.
pub open spec fn two_digits(v: int) -> Seq<char> {
    seq![digit_char(v / 10), digit_char(v % 10)]
}

/// A year as chrono's `%Y` writes it: four digits at least, with a sign
/// outside the years 0 to 9999.
pub open spec fn year_text(year: int) -> Seq<char> {
    if 0 <= year <= 9999 {
        zero_padded(year as nat, 4)
    } else if year < 0 {
        seq!['-'] + zero_padded((-year) as nat, 4)
    } else {
        seq!['+'] + zero_padded(year as nat, 4)
    }
}

/// A date as `%Y-%m-%d` writes it.
pub open spec fn date_text(year: int, month: int, day: int) -> Seq<char> {
    year_text(year) + seq!['-'] + two_digits(month) + seq!['-'] + two_digits(day)
}

/// A time of day as `%H:%M` writes it.
pub open spec fn clock_text(hour: int, minute: int) -> Seq<char> {
    two_digits(hour) + seq![':'] + two_digits(minute)
}

/// A time of day as `%H:%M:%S` writes it.
pub open spec fn clock_seconds_text(hour: int, minute: int, second: int) -> Seq<char> {
    clock_text(hour, minute) + seq![':'] + two_digits(second)
}

/// A moment as `%Y-%m-%dT%H:%M:%S` writes it.
pub open spec fn timestamp_text(
    year: int,
    month: int,
    day: int,
    hour: int,
    minute: int,
    second: int,
) -> Seq<char> {
    date_text(year, month, day) + seq!['T'] + clock_text(hour, minute) + seq![':'] + two_digits(
        second,
    )
}

proof fn lemma_decimal_shape(v: nat)
    ensures
        decimal(v).len() >= 1,
        48 <= decimal(v)[0] as int <= 57,
        48 <= decimal(v).last() as int <= 57,
    decreases v,
{
    if v >= 10 {
        lemma_decimal_shape(v / 10);
    }
}

proof fn lemma_year_text_shape(year: int)
    ensures
        year_text(year).len() >= 1,
        !crate::text::is_whitespace(year_text(year)[0]),
{
    let v: nat = if year < 0 {
        (-year) as nat
    } else {
        year as nat
    };
    lemma_decimal_shape(v);
    let p = zero_padded(v, 4);
    assert(p.len() >= 1);
    assert(p[0] == '0' || p[0] == decimal(v)[0]);
    if 0 <= year <= 9999 {
    } else {
        assert((seq!['-'] + p)[0] == '-');
        assert((seq!['+'] + p)[0] == '+');
    }
}

/// A date written as `%Y-%m-%d` starts and ends with something other than
/// whitespace, so trimming leaves it alone.
pub proof fn lemma_date_text_untrimmable(year: int, month: int, day: int)
    requires
        1 <= month <= 12,
        1 <= day <= 31,
    ensures
        date_text(year, month, day).len() > 0,
        !crate::text::is_whitespace(date_text(year, month, day)[0]),
        !crate::text::is_whitespace(date_text(year, month, day).last()),
{
    lemma_year_text_shape(year);
    let t = date_text(year, month, day);
    assert(t[0] == year_text(year)[0]);
    assert(t.last() == digit_char(day % 10));
}

/// A moment written as `%Y-%m-%dT%H:%M:%S` starts and ends with something
/// other than whitespace.
pub proof fn lemma_timestamp_text_untrimmable(
    year: int,
    month: int,
    day: int,
    hour: int,
    minute: int,
    second: int,
)
    requires
        1 <= month <= 12,
        1 <= day <= 31,
        0 <= second < 60,
    ensures
        timestamp_text(year, month, day, hour, minute, second).len() > 0,
        !crate::text::is_whitespace(timestamp_text(year, month, day, hour, minute, second)[0]),
        !crate::text::is_whitespace(timestamp_text(year, month, day, hour, minute, second).last()),
{
    lemma_date_text_untrimmable(year, month, day);
    let t = timestamp_text(year, month, day, hour, minute, second);
    assert(t[0] == date_text(year, month, day)[0]);
    assert(t.last() == digit_char(second % 10));
}

/// A time written as `%H:%M` starts and ends with a digit.
pub proof fn lemma_clock_text_untrimmable(hour: int, minute: int)
    requires
        0 <= hour < 24,
        0 <= minute < 60,
    ensures
        clock_text(hour, minute).len() > 0,
        !crate::text::is_whitespace(clock_text(hour, minute)[0]),
        !crate::text::is_whitespace(clock_text(hour, minute).last()),
{
    let t = clock_text(hour, minute);
    assert(t[0] == digit_char(hour / 10));
    assert(t.last() == digit_char(minute % 10));
}

/// A calendar day: chrono's count of days from the common era.
#[derive(Clone, Copy, Debug, PartialEq, Eq, Structural)]
pub struct Day {
    number: i32,
}

impl View for Day {
    type V = int;

    closed spec fn view(&self) -> int {
        self.number as int
    }
}

impl Day {
    /// Whether the day is one chrono represents; every `Day` is.
    #[verifier::type_invariant]
    pub closed spec fn is_represented(self) -> bool {
        MIN_DAY_NUMBER <= self.number <= MAX_DAY_NUMBER
    }

    pub proof fn lemma_represented(self)
        requires
            self.is_represented(),
        ensures
            MIN_DAY_NUMBER <= self@ <= MAX_DAY_NUMBER,
    {
    }

    /// The day whose number is `n`, for a number chrono represents.
    pub closed spec fn numbered(n: int) -> Day {
        Day { number: n as i32 }
    }

    pub broadcast proof fn lemma_numbered(n: int)
        requires
            MIN_DAY_NUMBER <= n <= MAX_DAY_NUMBER,
        ensures
            #[trigger] Day::numbered(n)@ == n,
    {
    }

    /// Two days with the same number are the same day.
    pub proof fn lemma_view_injective(a: Day, b: Day)
        requires
            a@ == b@,
        ensures
            a == b,
    {
    }

    /// The day numbered `n`, or `None` outside the dates chrono represents.
    pub fn from_number(n: i32) -> (r: Option<Day>)
        ensures
            r is Some <==> MIN_DAY_NUMBER <= n <= MAX_DAY_NUMBER,
            r matches Some(d) ==> d@ == n && d == Day::numbered(n as int),
    {
        if MIN_DAY_NUMBER <= n && n <= MAX_DAY_NUMBER {
            Some(Day { number: n })
        } else {
            None
        }
    }

    /// The day on the calendar at `year`, `month`, `day`, or `None` where
    /// there is no such date.
    pub fn from_ymd(year: i32, month: u32, day: u32) -> (r: Option<Day>)
        ensures
            r is Some <==> is_calendar_date(year as int, month as int, day as int),
            r matches Some(d) ==> d@ == day_count(year as int, month as int, day as int),
    {
        match chrono_day_number(year, month, day) {
            Some(n) => {
                proof {
                    lemma_calendar_date_in_range(year as int, month as int, day as int);
                }
                Day::from_number(n)
            },
            None => None,
        }
    }

    /// The day's number: January 1 of year 1 is day 1.
    pub fn number(&self) -> (r: i32)
        ensures
            r == self@,
            MIN_DAY_NUMBER <= r <= MAX_DAY_NUMBER,
    {
        proof {
            use_type_invariant(self);
        }
        self.number
    }

    /// The day before, or `None` on the first day chrono represents.
    pub fn pred(&self) -> (r: Option<Day>)
        ensures
            r is Some <==> self@ > MIN_DAY_NUMBER,
            r matches Some(d) ==> d@ == self@ - 1 && d == Day::numbered(self@ - 1),
    {
        let n = self.number();
        if n > MIN_DAY_NUMBER {
            Day::from_number(n - 1)
        } else {
            None
        }
    }

    /// The day after, or `None` on the last day chrono represents.
    pub fn succ(&self) -> (r: Option<Day>)
        ensures
            r is Some <==> self@ < MAX_DAY_NUMBER,
            r matches Some(d) ==> d@ == self@ + 1 && d == Day::numbered(self@ + 1),
    {
        let n = self.number();
        if n < MAX_DAY_NUMBER {
            Day::from_number(n + 1)
        } else {
            None
        }
    }
}

/// A time of day to the nanosecond.
#[derive(Clone, Copy, Debug, PartialEq, Eq, Structural)]
pub struct TimeOfDay {
    second: u32,
    nanosecond: u32,
}

impl TimeOfDay {
    /// Whether the value is a time of day; every `TimeOfDay` is.
    #[verifier::type_invariant]
    pub closed spec fn is_time(self) -> bool {
        self.second < SECONDS_PER_DAY && self.nanosecond < NANOS_PER_SECOND
    }

    pub proof fn lemma_is_time(self)
        requires
            self.is_time(),
        ensures
            0 <= self.second_of_day() < SECONDS_PER_DAY,
            0 <= self.nano() < NANOS_PER_SECOND,
            0 <= self.nanos_of_day() < NANOS_PER_DAY,
    {
    }

    /// The time `second` seconds and `nano` nanoseconds after midnight.
    pub closed spec fn at(second: int, nano: int) -> TimeOfDay {
        TimeOfDay { second: second as u32, nanosecond: nano as u32 }
    }

    pub proof fn lemma_at(second: int, nano: int)
        requires
            0 <= second < SECONDS_PER_DAY,
            0 <= nano < NANOS_PER_SECOND,
        ensures
            TimeOfDay::at(second, nano).second_of_day() == second,
            TimeOfDay::at(second, nano).nano() == nano,
            TimeOfDay::at(second, nano).is_time(),
    {
    }

    /// Seconds since midnight.
    pub closed spec fn second_of_day(self) -> int {
        self.second as int
    }

    /// Nanoseconds into the second.
    pub closed spec fn nano(self) -> int {
        self.nanosecond as int
    }

    pub open spec fn hour(self) -> int {
        self.second_of_day() / 3600
    }

    pub open spec fn minute(self) -> int {
        (self.second_of_day() % 3600) / 60
    }

    pub open spec fn second(self) -> int {
        self.second_of_day() % 60
    }

    /// Nanoseconds since midnight.
    pub open spec fn nanos_of_day(self) -> int {
        self.second_of_day() * NANOS_PER_SECOND + self.nano()
    }

    /// The time `second` seconds and `nanosecond` nanoseconds after
    /// midnight, where that is a time of day.
    pub fn new(second: u32, nanosecond: u32) -> (r: Option<TimeOfDay>)
        ensures
            r is Some <==> second < SECONDS_PER_DAY && nanosecond < NANOS_PER_SECOND,
            r matches Some(t) ==> t.second_of_day() == second && t.nano() == nanosecond && t
                == TimeOfDay::at(second as int, nanosecond as int),
    {
        if second < SECONDS_PER_DAY && nanosecond < NANOS_PER_SECOND {
            Some(TimeOfDay { second, nanosecond })
        } else {
            None
        }
    }

    /// `hour:minute:second` on the dot, where that is a time of day.
    pub fn from_hms(hour: u32, minute: u32, second: u32) -> (r: Option<TimeOfDay>)
        ensures
            r is Some <==> hour < 24 && minute < 60 && second < 60,
            r matches Some(t) ==> t.second_of_day() == hour * 3600 + minute * 60 + second
                && t.nano() == 0,
    {
        if hour < 24 && minute < 60 && second < 60 {
            Some(TimeOfDay { second: hour * 3600 + minute * 60 + second, nanosecond: 0 })
        } else {
            None
        }
    }

    /// Seconds since midnight.
    pub fn seconds_from_midnight(&self) -> (r: u32)
        ensures
            r == self.second_of_day(),
            r < SECONDS_PER_DAY,
    {
        proof {
            use_type_invariant(self);
        }
        self.second
    }

    /// Nanoseconds into the second.
    pub fn nanosecond(&self) -> (r: u32)
        ensures
            r == self.nano(),
            r < NANOS_PER_SECOND,
    {
        proof {
            use_type_invariant(self);
        }
        self.nanosecond
    }

    pub proof fn lemma_view_injective(a: TimeOfDay, b: TimeOfDay)
        requires
            a.second_of_day() == b.second_of_day(),
            a.nano() == b.nano(),
        ensures
            a == b,
    {
    }
}

/// A moment of naive local wall-clock time.
#[derive(Clone, Copy, Debug, PartialEq, Eq, Structural)]
pub struct Moment {
    pub day: Day,
    pub time: TimeOfDay,
}

impl Moment {
    /// Nanoseconds since midnight at the start of day 0. Moments are ordered
    /// by this count, which is chrono's order: by day, then by time of day.
    pub open spec fn ticks(self) -> int {
        self.day@ * NANOS_PER_DAY + self.time.nanos_of_day()
    }

    /// Whether the moment's day and time are ones chrono represents; every
    /// `Moment` built from a `Day` and a `TimeOfDay` is.
    pub open spec fn is_valid(self) -> bool {
        self.day.is_represented() && self.time.is_time()
    }

    /// Whether the moment falls on a whole second.
    pub open spec fn is_whole_second(self) -> bool {
        self.time.nano() == 0
    }

    pub fn new(day: Day, time: TimeOfDay) -> (r: Moment)
        ensures
            r.day == day,
            r.time == time,
            r.is_valid(),
    {
        proof {
            use_type_invariant(&day);
            use_type_invariant(&time);
        }
        Moment { day, time }
    }

    /// The moment's tick count, executably.
    pub fn tick_count(&self) -> (r: i128)
        ensures
            r == self.ticks(),
            -9_000_000_000_000_000_000_000 < r < 9_000_000_000_000_000_000_000,
    {
        let d = self.day.number() as i128;
        let s = self.time.seconds_from_midnight() as i128;
        let n = self.time.nanosecond() as i128;
        assert(-95746129 <= d <= 95745399);
        d * 86_400_000_000_000i128 + s * 1_000_000_000i128 + n
    }

    /// Whether `self` is at or before `other`.
    pub fn is_at_or_before(&self, other: &Moment) -> (r: bool)
        ensures
            r == (self.ticks() <= other.ticks()),
    {
        self.tick_count() <= other.tick_count()
    }
}

/// chrono's date numbered by `NaiveDate::from_ymd_opt`, then
/// `num_days_from_ce`: it is the Gregorian day count where the date exists
/// within chrono's years.
#[verifier::external_body]
fn chrono_day_number(year: i32, month: u32, day: u32) -> (r: Option<i32>)
    ensures
        r is Some <==> is_calendar_date(year as int, month as int, day as int),
        r matches Some(n) ==> n == day_count(year as int, month as int, day as int),
{
    match chrono::NaiveDate::from_ymd_opt(year, month, day) {
        Some(date) => Some(date.num_days_from_ce()),
        None => None,
    }
}

/// Whether `text` is day `n`'s calendar date as `%Y-%m-%d` writes it.
pub open spec fn is_date_text_of(text: Seq<char>, n: int) -> bool {
    exists|y: int, m: int, d: int|
        is_calendar_date(y, m, d) && day_count(y, m, d) == n && #[trigger] date_text(y, m, d) == text
}

/// Whether `text` is the moment `second` seconds into day `n` as
/// `%Y-%m-%dT%H:%M:%S` writes it.
pub open spec fn is_timestamp_text_of(text: Seq<char>, n: int, second: int) -> bool {
    exists|y: int, m: int, d: int|
        is_calendar_date(y, m, d) && day_count(y, m, d) == n && #[trigger] timestamp_text(
            y,
            m,
            d,
            second / 3600,
            (second % 3600) / 60,
            second % 60,
        ) == text
}

/// Whether a date read from `text` gives back the date, when `text` is
/// exactly a date as `%Y-%m-%d` writes it.
pub open spec fn reads_dates_back(text: Seq<char>, read: Option<i32>) -> bool {
    forall|y: int, m: int, d: int|
        is_calendar_date(y, m, d) && #[trigger] date_text(y, m, d) == text ==> (read matches Some(
            n,
        ) && n == day_count(y, m, d))
}

/// Whether a time read from `text` gives back the time, when `text` is
/// exactly a time as `%H:%M` writes it.
pub open spec fn reads_clock_back(text: Seq<char>, read: Option<(u32, u32)>) -> bool {
    forall|h: int, m: int|
        0 <= h < 24 && 0 <= m < 60 && #[trigger] clock_text(h, m) == text ==> (read matches Some(
            (s, f),
        ) && s == h * 3600 + m * 60 && f == 0)
}

/// Whether a time read from `text` with `%H:%M:%S` gives back the time,
/// when `text` is exactly a time as `%H:%M:%S` writes it.
pub open spec fn reads_clock_seconds_back(text: Seq<char>, read: Option<(u32, u32)>) -> bool {
    forall|h: int, m: int, sec: int|
        0 <= h < 24 && 0 <= m < 60 && 0 <= sec < 60 && #[trigger] clock_seconds_text(h, m, sec)
            == text ==> (read matches Some((s, f)) && s == h * 3600 + m * 60 + sec && f == 0)
}

/// Whether a time read from `text` with `%H:%M` is refused when `text` is a
/// time as `%H:%M:%S` writes it: the seconds are left over, and chrono
/// refuses text with anything left over.
pub open spec fn refuses_clock_seconds(text: Seq<char>, read: Option<(u32, u32)>) -> bool {
    forall|h: int, m: int, sec: int|
        0 <= h < 24 && 0 <= m < 60 && 0 <= sec < 60 && #[trigger] clock_seconds_text(h, m, sec)
            == text ==> read is None
}

/// Whether a moment read from `text` gives back the moment, when `text` is
/// exactly a moment as `%Y-%m-%dT%H:%M:%S` writes it.
pub open spec fn reads_timestamps_back(text: Seq<char>, read: Option<(i32, u32, u32)>) -> bool {
    forall|y: int, m: int, d: int, h: int, mi: int, sec: int|
        is_calendar_date(y, m, d) && 0 <= h < 24 && 0 <= mi < 60 && 0 <= sec < 60
            && #[trigger] timestamp_text(y, m, d, h, mi, sec) == text ==> (read matches Some(
            (n, s, f),
        ) && n == day_count(y, m, d) && s == h * 3600 + mi * 60 + sec && f == 0)
}

/// What chrono's `NaiveDate::parse_from_str` makes of `text` read with
/// `format`: the day number of the date it reads, if it reads one.
pub uninterp spec fn chrono_parsed_date(text: Seq<char>, format: Seq<char>) -> Option<int>;

/// What chrono's `NaiveTime::parse_from_str` makes of `text` read with
/// `format`: seconds since midnight and nanoseconds, if it reads a time.
pub uninterp spec fn chrono_parsed_time(text: Seq<char>, format: Seq<char>) -> Option<(int, int)>;

/// What chrono's `NaiveDateTime::parse_from_str` makes of `text` read with
/// `format`: day number, seconds since midnight and nanoseconds, if it reads
/// a moment.
pub uninterp spec fn chrono_parsed_moment(text: Seq<char>, format: Seq<char>) -> Option<
    (int, int, int),
>;

/// `chrono::NaiveDate::format` with `%Y-%m-%d`, on the day numbered
/// `day_number`. Claimed: the text is the calendar date of that day,
/// written as `%Y-%m-%d` writes it (chrono's `write_year` and `write_two`).
#[verifier::external_body]
pub(crate) fn chrono_format_date(day_number: i32, format: &str) -> (r: String)
    requires
        MIN_DAY_NUMBER <= day_number <= MAX_DAY_NUMBER,
        format@ == "%Y-%m-%d"@,
    ensures
        is_date_text_of(r@, day_number as int),
{
    chrono::NaiveDate::from_num_days_from_ce_opt(day_number).unwrap().format(format).to_string()
}

/// `chrono::NaiveTime::format` with `%H:%M`. Claimed: the hour and the
/// minute, two digits each, around a colon.
#[verifier::external_body]
pub(crate) fn chrono_format_time(second: u32, nanosecond: u32, format: &str) -> (r: String)
    requires
        second < SECONDS_PER_DAY,
        nanosecond < NANOS_PER_SECOND,
        format@ == "%H:%M"@,
    ensures
        r@ == clock_text(second as int / 3600, (second as int % 3600) / 60),
{
    chrono::NaiveTime::from_num_seconds_from_midnight_opt(second, nanosecond).unwrap().format(
        format,
    ).to_string()
}

/// `chrono::NaiveDateTime::format` with `%Y-%m-%dT%H:%M:%S`. Claimed: the
/// calendar date of the day, `T`, and the hour, minute and second, as the
/// `%Y`, `%m`, `%d`, `%H`, `%M` and `%S` writers spell them.
#[verifier::external_body]
pub(crate) fn chrono_format_moment(
    day_number: i32,
    second: u32,
    nanosecond: u32,
    format: &str,
) -> (r: String)
    requires
        MIN_DAY_NUMBER <= day_number <= MAX_DAY_NUMBER,
        second < SECONDS_PER_DAY,
        nanosecond < NANOS_PER_SECOND,
        format@ == "%Y-%m-%dT%H:%M:%S"@,
    ensures
        is_timestamp_text_of(r@, day_number as int, second as int),
{
    chrono::NaiveDate::from_num_days_from_ce_opt(day_number).unwrap().and_time(
        chrono::NaiveTime::from_num_seconds_from_midnight_opt(second, nanosecond).unwrap(),
    ).format(format).to_string()
}

/// `chrono::NaiveDate::parse_from_str`, giving the day number of the date
/// read. Claimed beyond the name: a date read is one chrono represents, and
/// text that is exactly a date as `%Y-%m-%d` writes it reads back as that
/// date (each numeric field is scanned as the digits written, the sign
/// included, and the literals match).
#[verifier::external_body]
pub(crate) fn chrono_parse_date(text: &str, format: &str) -> (r: Option<i32>)
    ensures
        r matches Some(n) ==> chrono_parsed_date(text@, format@) == Some(n as int),
        r is None ==> chrono_parsed_date(text@, format@) is None,
        r matches Some(n) ==> MIN_DAY_NUMBER <= n <= MAX_DAY_NUMBER,
        format@ == "%Y-%m-%d"@ ==> reads_dates_back(text@, r),
{
    match chrono::NaiveDate::parse_from_str(text, format) {
        Ok(date) => Some(date.num_days_from_ce()),
        Err(_) => None,
    }
}

/// `chrono::NaiveTime::parse_from_str`, giving seconds since midnight and
/// nanoseconds. Claimed beyond the name: a time read is one chrono
/// represents (a leap second shows as a nanosecond count of a billion or
/// more in the last second of a minute); text that is exactly a time as
/// `%H:%M` writes it reads back as that time, on the minute; text that is
/// exactly a time as `%H:%M:%S` writes it reads back as that time with
/// `%H:%M:%S`, and is refused by `%H:%M`, which leaves its seconds over
/// (chrono's `format::parse` answers `TOO_LONG` for anything left over).
#[verifier::external_body]
pub(crate) fn chrono_parse_time(text: &str, format: &str) -> (r: Option<(u32, u32)>)
    ensures
        r matches Some((s, f)) ==> chrono_parsed_time(text@, format@) == Some(
            (s as int, f as int),
        ),
        r is None ==> chrono_parsed_time(text@, format@) is None,
        r matches Some((s, f)) ==> s < SECONDS_PER_DAY && f < 2 * NANOS_PER_SECOND && (f
            >= NANOS_PER_SECOND ==> s % 60 == 59),
        format@ == "%H:%M"@ ==> reads_clock_back(text@, r),
        format@ == "%H:%M"@ ==> refuses_clock_seconds(text@, r),
        format@ == "%H:%M:%S"@ ==> reads_clock_seconds_back(text@, r),
{
    match chrono::NaiveTime::parse_from_str(text, format) {
        Ok(time) => Some((time.num_seconds_from_midnight(), time.nanosecond())),
        Err(_) => None,
    }
}

/// `chrono::NaiveDateTime::parse_from_str`, giving day number, seconds since
/// midnight and nanoseconds. Claimed beyond the name: a moment read is one
/// chrono represents, and text that is exactly a moment as
/// `%Y-%m-%dT%H:%M:%S` writes it reads back as that moment.
#[verifier::external_body]
pub(crate) fn chrono_parse_moment(text: &str, format: &str) -> (r: Option<(i32, u32, u32)>)
    ensures
        r matches Some((n, s, f)) ==> chrono_parsed_moment(text@, format@) == Some(
            (n as int, s as int, f as int),
        ),
        r is None ==> chrono_parsed_moment(text@, format@) is None,
        r matches Some((n, s, f)) ==> MIN_DAY_NUMBER <= n <= MAX_DAY_NUMBER && s < SECONDS_PER_DAY
            && f < 2 * NANOS_PER_SECOND,
        format@ == "%Y-%m-%dT%H:%M:%S"@ ==> reads_timestamps_back(text@, r),
{
    match chrono::NaiveDateTime::parse_from_str(text, format) {
        Ok(moment) => Some(
            (moment.date().num_days_from_ce(), moment.num_seconds_from_midnight(), moment.nanosecond()),
        ),
        Err(_) => None,
    }
}

} // verus!
