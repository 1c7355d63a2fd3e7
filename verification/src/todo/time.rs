use crate::todo::rank::Ranked;
use vstd::prelude::*;

verus! {

/// The day number of the earliest date a [`Timestamp`] can hold: 1 January of
/// the year -262143.
pub const MIN_DAY: i32 = -95_746_129;

/// The day number of the latest date a [`Timestamp`] can hold: 31 December of
/// the year 262142.
pub const MAX_DAY: i32 = 95_745_399;

/// The number of seconds in a day.
pub const SECONDS_PER_DAY: u32 = 86_400;

/// A date and a time of day, without a time zone.
///
/// The date is a day number in the proleptic Gregorian calendar, where day 1
/// is 1 January of the year 1. The time is a number of seconds since midnight
/// and a number of nanoseconds; a nanosecond count of a billion or more stands
/// for a leap second, and is only met in the last second of a minute.
#[derive(Debug, Clone, Copy, PartialEq, Eq, Structural)]
pub struct Timestamp {
    day: i32,
    secs: u32,
    nanos: u32,
}

/// Whether the three numbers are a date and a time that a [`Timestamp`] holds.
pub open spec fn timestamp_in_range(day: int, secs: int, nanos: int) -> bool {
    &&& MIN_DAY <= day <= MAX_DAY
    &&& 0 <= secs < SECONDS_PER_DAY
    &&& 0 <= nanos < 2_000_000_000
    &&& nanos >= 1_000_000_000 ==> secs % 60 == 59
}

/// The day number of the calendar date with the given year, month and day of
/// the month; `None` where the calendar has no such date, or the date is
/// outside the years that the calendar library handles.
pub uninterp spec fn day_number_of(year: int, month: int, day: int) -> Option<int>;

/// Calls `chrono::NaiveDate::from_ymd_opt` and hands back the date as its
/// day number, read with `chrono::Datelike::num_days_from_ce`. The contract
/// gives that number the name `day_number_of`; nothing else is claimed of it.
#[verifier::external_body]
fn civil_day_number(year: i32, month: u32, day: u32) -> (r: Option<i32>)
    ensures
        r matches Some(n) ==> day_number_of(year as int, month as int, day as int) == Some(
            n as int,
        ),
        r is None ==> day_number_of(year as int, month as int, day as int) is None,
{
    let date = chrono::NaiveDate::from_ymd_opt(year, month, day)?;
    Some(chrono::Datelike::num_days_from_ce(&date))
}

/// The text that the calendar library writes for the date and time of the
/// three numbers under a `strftime` pattern.
pub uninterp spec fn formatted(day: int, secs: int, nanos: int, pattern: Seq<char>) -> Seq<char>;

/// The date and time that the calendar library reads from a text under a
/// `strftime` pattern, as day number, seconds since midnight and nanoseconds;
/// `None` where the text does not follow the pattern.
pub uninterp spec fn parsed_datetime(text: Seq<char>, pattern: Seq<char>) -> Option<
    (int, int, int),
>;

/// The day number of the date that the calendar library reads from a text
/// under a `strftime` pattern; `None` where the text does not follow the
/// pattern.
pub uninterp spec fn parsed_date(text: Seq<char>, pattern: Seq<char>) -> Option<int>;

/// The date and time that the calendar library gives for a date and time
/// and a number of minutes after it; `None` where it has none.
pub uninterp spec fn minutes_later(day: int, secs: int, nanos: int, minutes: int) -> Option<
    (int, int, int),
>;

/// Whether the pattern is one of those that dates are shown with.
pub open spec fn is_display_pattern(pattern: Seq<char>) -> bool {
    pattern == "%d-%m-%Y %H:%M"@ || pattern == "%H:%M"@ || pattern == "%d-%m %H:%M"@ || pattern
        == "%d-%m-%Y"@
}

/// Builds a `chrono::NaiveDateTime` from the three numbers
/// (`NaiveDate::from_num_days_from_ce_opt`,
/// `NaiveTime::from_num_seconds_from_midnight_opt`) and writes it with
/// `NaiveDateTime::format`. The contract gives the text the name `formatted`.
/// It asks for numbers in the range that the two constructors accept, and
/// for one of the four display patterns, which hold no faulty specifier.
#[verifier::external_body]
pub(crate) fn format_timestamp(day: i32, secs: u32, nanos: u32, pattern: &str) -> (r: String)
    requires
        timestamp_in_range(day as int, secs as int, nanos as int),
        is_display_pattern(pattern@),
    ensures
        r@ == formatted(day as int, secs as int, nanos as int, pattern@),
{
    let date = chrono::NaiveDate::from_num_days_from_ce_opt(day).unwrap();
    let time = chrono::NaiveTime::from_num_seconds_from_midnight_opt(secs, nanos).unwrap();
    chrono::NaiveDateTime::new(date, time).format(pattern).to_string()
}

/// Calls `chrono::NaiveDateTime::parse_from_str` and hands back what it read
/// as day number (`Datelike::num_days_from_ce`), seconds since midnight
/// (`Timelike::num_seconds_from_midnight`) and nanoseconds
/// (`Timelike::nanosecond`). The contract gives them the name
/// `parsed_datetime`; an error of the call is `None`.
#[verifier::external_body]
pub(crate) fn parse_datetime_with(text: &str, pattern: &str) -> (r: Option<(i32, u32, u32)>)
    ensures
        r matches Some(t) ==> parsed_datetime(text@, pattern@) == Some(
            (t.0 as int, t.1 as int, t.2 as int),
        ),
        r is None ==> parsed_datetime(text@, pattern@) is None,
{
    let read = chrono::NaiveDateTime::parse_from_str(text, pattern).ok()?;
    let day = chrono::Datelike::num_days_from_ce(&read);
    let secs = chrono::Timelike::num_seconds_from_midnight(&read);
    Some((day, secs, chrono::Timelike::nanosecond(&read)))
}

/// Calls `chrono::NaiveDate::parse_from_str` and hands back the date as its
/// day number (`Datelike::num_days_from_ce`). The contract gives it the name
/// `parsed_date`; an error of the call is `None`.
#[verifier::external_body]
pub(crate) fn parse_date_with(text: &str, pattern: &str) -> (r: Option<i32>)
    ensures
        r matches Some(day) ==> parsed_date(text@, pattern@) == Some(day as int),
        r is None ==> parsed_date(text@, pattern@) is None,
{
    let read = chrono::NaiveDate::parse_from_str(text, pattern).ok()?;
    Some(chrono::Datelike::num_days_from_ce(&read))
}

/// Builds a `chrono::NaiveDateTime` from the three numbers and adds the
/// minutes with `NaiveDateTime::checked_add_signed`, the minutes made a
/// `TimeDelta` by `TimeDelta::try_minutes`. The contract gives the result the
/// name `minutes_later`; `None` stands for a step that gave nothing.
#[verifier::external_body]
pub(crate) fn add_minutes(day: i32, secs: u32, nanos: u32, minutes: i64) -> (r: Option<
    (i32, u32, u32),
>)
    ensures
        r matches Some(t) ==> minutes_later(day as int, secs as int, nanos as int, minutes as int)
            == Some((t.0 as int, t.1 as int, t.2 as int)),
        r is None ==> minutes_later(day as int, secs as int, nanos as int, minutes as int)
            is None,
{
    let date = chrono::NaiveDate::from_num_days_from_ce_opt(day)?;
    let time = chrono::NaiveTime::from_num_seconds_from_midnight_opt(secs, nanos)?;
    let step = chrono::TimeDelta::try_minutes(minutes)?;
    let later = chrono::NaiveDateTime::new(date, time).checked_add_signed(step)?;
    let day = chrono::Datelike::num_days_from_ce(&later);
    let secs = chrono::Timelike::num_seconds_from_midnight(&later);
    Some((day, secs, chrono::Timelike::nanosecond(&later)))
}

/// The patterns that a date is shown with.
#[derive(Debug, Clone, Copy, PartialEq, Eq, Structural)]
pub enum DateFormat {
    /// Day, month, year, hour and minute: `25-12-2025 14:30`.
    DayMonthYearTime,
    /// Hour and minute: `14:30`.
    Time,
    /// Day, month, hour and minute: `25-12 14:30`.
    DayMonthTime,
    /// Day, month and year: `25-12-2025`.
    DayMonthYear,
}

impl DateFormat {
    /// The `strftime` pattern of the format.
    pub open spec fn pattern(self) -> Seq<char> {
        match self {
            DateFormat::DayMonthYearTime => "%d-%m-%Y %H:%M"@,
            DateFormat::Time => "%H:%M"@,
            DateFormat::DayMonthTime => "%d-%m %H:%M"@,
            DateFormat::DayMonthYear => "%d-%m-%Y"@,
        }
    }

    /// The `strftime` pattern of the format.
    pub fn pattern_str(self) -> (r: &'static str)
        ensures
            r@ == self.pattern(),
            is_display_pattern(r@),
    {
        match self {
            DateFormat::DayMonthYearTime => "%d-%m-%Y %H:%M",
            DateFormat::Time => "%H:%M",
            DateFormat::DayMonthTime => "%d-%m %H:%M",
            DateFormat::DayMonthYear => "%d-%m-%Y",
        }
    }
}

impl Timestamp {
    /// The day number of the date.
    pub closed spec fn day(self) -> int {
        self.day as int
    }

    /// The seconds since midnight.
    pub closed spec fn secs(self) -> int {
        self.secs as int
    }

    /// The nanoseconds since the last whole second.
    pub closed spec fn nanos(self) -> int {
        self.nanos as int
    }

    /// The timestamp with the given day number, seconds since midnight and
    /// nanoseconds.
    pub closed spec fn of(day: int, secs: int, nanos: int) -> Timestamp {
        Timestamp { day: day as i32, secs: secs as u32, nanos: nanos as u32 }
    }

    /// The timestamp of three numbers in range holds those numbers, and a
    /// timestamp in range is the timestamp of the numbers it holds.
    pub proof fn lemma_of(day: int, secs: int, nanos: int)
        requires
            timestamp_in_range(day, secs, nanos),
        ensures
            Timestamp::of(day, secs, nanos).day() == day,
            Timestamp::of(day, secs, nanos).secs() == secs,
            Timestamp::of(day, secs, nanos).nanos() == nanos,
            forall|t: Timestamp|
                t.day() == day && t.secs() == secs && t.nanos() == nanos ==> t == Timestamp::of(
                    day,
                    secs,
                    nanos,
                ),
    {
    }

    /// The seconds and the nanoseconds of a timestamp lie below 2^32, and two
    /// timestamps that hold the same three numbers are equal.
    pub proof fn lemma_fields(t: Timestamp)
        ensures
            0 <= t.secs() < 0x1_0000_0000,
            0 <= t.nanos() < 0x1_0000_0000,
            forall|u: Timestamp|
                u.day() == t.day() && u.secs() == t.secs() && u.nanos() == t.nanos() ==> u == t,
    {
    }

    /// Every timestamp in executable code is in range.
    #[verifier::type_invariant]
    pub open spec fn in_range(self) -> bool {
        timestamp_in_range(self.day(), self.secs(), self.nanos())
    }

    /// The timestamp with the given day number, seconds since midnight and
    /// nanoseconds, if they are in range.
    pub fn new(day: i32, secs: u32, nanos: u32) -> (r: Option<Timestamp>)
        ensures
            r is Some <==> timestamp_in_range(day as int, secs as int, nanos as int),
            r matches Some(t) ==> t == Timestamp::of(day as int, secs as int, nanos as int)
                && t.day() == day && t.secs() == secs && t.nanos() == nanos,
    {
        if day < MIN_DAY || day > MAX_DAY {
            return None;
        }
        if secs >= SECONDS_PER_DAY || nanos >= 2_000_000_000 {
            return None;
        }
        if nanos >= 1_000_000_000 && secs % 60 != 59 {
            return None;
        }
        Some(Timestamp { day, secs, nanos })
    }

    /// The timestamp at the given calendar date and time of day, if there is
    /// such a date and such a time: an hour below 24, a minute and a second
    /// below 60.
    pub fn from_ymd_hms(year: i32, month: u32, day: u32, hour: u32, minute: u32, second: u32) -> (r:
        Option<Timestamp>)
        ensures
            r is Some <==> (day_number_of(year as int, month as int, day as int) matches Some(n)
                && MIN_DAY <= n <= MAX_DAY && hour < 24 && minute < 60 && second < 60),
            r matches Some(t) ==> day_number_of(year as int, month as int, day as int) == Some(
                t.day(),
            ) && t.secs() == hour * 3600 + minute * 60 + second && t.nanos() == 0,
    {
        if hour >= 24 || minute >= 60 || second >= 60 {
            return None;
        }
        match civil_day_number(year, month, day) {
            Some(n) => Timestamp::new(n, hour * 3600 + minute * 60 + second, 0),
            None => None,
        }
    }

    /// The first moment of the day with the given number, if it is in range.
    pub fn at_midnight(day: i32) -> (r: Option<Timestamp>)
        ensures
            r is Some <==> MIN_DAY <= day <= MAX_DAY,
            r matches Some(t) ==> t == Timestamp::of(day as int, 0, 0) && t.day() == day
                && t.secs() == 0 && t.nanos() == 0,
    {
        Timestamp::new(day, 0, 0)
    }

    /// The hour of the day, from 0 to 23.
    pub fn hour(&self) -> (r: u32)
        ensures
            r == self.secs() / 3600,
    {
        self.secs / 3600
    }

    /// The minute of the hour, from 0 to 59.
    pub fn minute(&self) -> (r: u32)
        ensures
            r == (self.secs() / 60) % 60,
    {
        (self.secs / 60) % 60
    }

    /// The second of the minute, from 0 to 59.
    pub fn second(&self) -> (r: u32)
        ensures
            r == self.secs() % 60,
    {
        self.secs % 60
    }

    /// The day number of the date.
    pub fn day_number(&self) -> (r: i32)
        ensures
            r == self.day(),
            MIN_DAY <= r <= MAX_DAY,
    {
        proof {
            use_type_invariant(self);
        }
        self.day
    }

    /// The seconds since midnight.
    pub fn seconds_of_day(&self) -> (r: u32)
        ensures
            r == self.secs(),
            r < SECONDS_PER_DAY,
    {
        proof {
            use_type_invariant(self);
        }
        self.secs
    }

    /// The nanoseconds since the last whole second.
    pub fn nanosecond(&self) -> (r: u32)
        ensures
            r == self.nanos(),
            r < 2_000_000_000,
    {
        proof {
            use_type_invariant(self);
        }
        self.nanos
    }

    /// The text of the timestamp in the given format.
    pub open spec fn text(self, format: DateFormat) -> Seq<char> {
        formatted(self.day(), self.secs(), self.nanos(), format.pattern())
    }

    /// Writes the timestamp in the given format.
    pub fn format(&self, format: DateFormat) -> (r: String)
        ensures
            r@ == self.text(format),
    {
        proof {
            use_type_invariant(self);
        }
        format_timestamp(self.day, self.secs, self.nanos, format.pattern_str())
    }

    /// The timestamp that lies the given number of minutes after this one,
    /// as the calendar library reckons it, if it is in range.
    pub open spec fn later_by_minutes(self, minutes: int) -> Option<Timestamp> {
        match minutes_later(self.day(), self.secs(), self.nanos(), minutes) {
            Some((day, secs, nanos)) => if timestamp_in_range(day, secs, nanos) {
                Some(Timestamp::of(day, secs, nanos))
            } else {
                None
            },
            None => None,
        }
    }

    /// The timestamp that lies the given number of minutes after this one,
    /// if it is in range.
    pub fn plus_minutes(&self, minutes: i64) -> (r: Option<Timestamp>)
        ensures
            r == self.later_by_minutes(minutes as int),
    {
        match add_minutes(self.day, self.secs, self.nanos, minutes) {
            Some((day, secs, nanos)) => Timestamp::new(day, secs, nanos),
            None => None,
        }
    }

    /// Whether `self` is strictly earlier than `other`.
    pub open spec fn is_before_spec(&self, other: &Timestamp) -> bool {
        ||| self.day() < other.day()
        ||| self.day() == other.day() && self.secs() < other.secs()
        ||| self.day() == other.day() && self.secs() == other.secs() && self.nanos()
            < other.nanos()
    }

    /// Whether `self` is strictly earlier than `other`.
    #[verifier::when_used_as_spec(is_before_spec)]
    pub fn is_before(&self, other: &Timestamp) -> (r: bool)
        ensures
            r == self.is_before_spec(other),
    {
        self.day < other.day || (self.day == other.day && (self.secs < other.secs || (self.secs
            == other.secs && self.nanos < other.nanos)))
    }
}

impl Ranked for Timestamp {
    /// The day number, the seconds and the nanoseconds side by side in one
    /// number, the day number in front.
    open spec fn rank(&self) -> int {
        (self.day() * 0x1_0000_0000 + self.secs()) * 0x1_0000_0000 + self.nanos()
    }

    fn precedes(&self, other: &Timestamp) -> (r: bool) {
        proof {
            lemma_rank_orders_by_time(*self, *other);
        }
        self.is_before(other)
    }
}

/// The rank orders timestamps by time: the earlier of two has the lower
/// rank, and only equal timestamps have the same rank.
pub proof fn lemma_rank_orders_by_time(a: Timestamp, b: Timestamp)
    ensures
        a.rank() < b.rank() <==> a.is_before_spec(&b),
        a.rank() == b.rank() <==> a == b,
{
    Timestamp::lemma_fields(a);
    Timestamp::lemma_fields(b);
}

} // verus!
