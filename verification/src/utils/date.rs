use crate::todo::error::{result_view, TodoError, TodoErrorView, TodoResult};
use crate::todo::item::optional_str_view;
use crate::todo::time::{
    parse_date_with, parse_datetime_with, parsed_date, parsed_datetime, timestamp_in_range,
    Timestamp, MAX_DAY, MIN_DAY,
};
use crate::utils::number::is_digit;
use crate::utils::text::{lowercased, str_eq, to_lowercase, trim, trimmed};
use vstd::prelude::*;
use vstd::string::StringExecFns;

verus! {

/// The day number of 31 December of the year 9999.
pub const LAST_COMMON_DAY: i32 = 3_652_059;

/// The longest row of digits in a phrase that is handed to the resolver of
/// English dates.
pub const MAX_DIGIT_RUN: usize = 5;

/// The day number, reckoned in universal time, of the moment that the
/// resolver of English dates reads from a phrase such as "next friday" or
/// "3 days". The phrase is read in American English if `american` is set,
/// else in British English, relative to the local date and time of the three
/// numbers, in the zone that lies `utc_offset` seconds east of universal
/// time. `None` where the phrase is no date, or the offset is no offset of a
/// zone.
pub uninterp spec fn english_day(
    phrase: Seq<char>,
    american: bool,
    day: int,
    secs: int,
    nanos: int,
    utc_offset: int,
) -> Option<int>;

/// Whether the characters from `from` up to `to` are all digits.
pub open spec fn digits_between(text: Seq<char>, from: int, to: int) -> bool {
    forall|k: int| from <= k < to ==> is_digit(#[trigger] text[k])
}

/// Whether a phrase can be handed to the resolver of English dates: it holds
/// ASCII characters only, no row of more than `MAX_DIGIT_RUN` digits, and a
/// digit after each full stop.
pub open spec fn is_plain_phrase(text: Seq<char>) -> bool {
    &&& forall|i: int| 0 <= i < text.len() ==> #[trigger] text[i] <= '\u{7f}'
    &&& forall|i: int|
        0 <= i < text.len() && #[trigger] text[i] == '.' ==> i + 1 < text.len() && is_digit(
            text[i + 1],
        )
    &&& forall|i: int|
        0 <= i && i + MAX_DIGIT_RUN < text.len() ==> !#[trigger] digits_between(
            text,
            i,
            i + MAX_DIGIT_RUN + 1,
        )
}

/// Whether the date lies in the years 1 to 9999.
pub open spec fn in_common_era(now: Timestamp) -> bool {
    1 <= now.day() <= LAST_COMMON_DAY
}

/// Hands a phrase to `chrono_english::parse_date_string`, in the dialect
/// `Dialect::Us` or `Dialect::Uk`, and gives back the day number of the date
/// that the moment it found has in universal time (`DateTime::naive_utc`,
/// `Datelike::num_days_from_ce`). The base moment is built with chrono from
/// the three numbers and the offset (`NaiveDate::from_num_days_from_ce_opt`,
/// `NaiveTime::from_num_seconds_from_midnight_opt`, `FixedOffset::east_opt`,
/// `TimeZone::from_local_datetime`). The contract gives the result the name
/// `english_day`; an error of any step is `None`. It asks for a plain phrase
/// and a base date in the years 1 to 9999: the resolver slices names by
/// bytes, multiplies the numbers it reads and unwraps the dates it reckons,
/// and with such input none of these steps fails.
#[verifier::external_body]
pub(crate) fn resolve_english(
    phrase: &str,
    american: bool,
    day: i32,
    secs: u32,
    nanos: u32,
    utc_offset: i32,
) -> (r: Option<i32>)
    requires
        is_plain_phrase(phrase@),
        timestamp_in_range(day as int, secs as int, nanos as int),
        1 <= day <= LAST_COMMON_DAY,
    ensures
        r matches Some(found) ==> english_day(
            phrase@,
            american,
            day as int,
            secs as int,
            nanos as int,
            utc_offset as int,
        ) == Some(found as int),
        r is None ==> english_day(
            phrase@,
            american,
            day as int,
            secs as int,
            nanos as int,
            utc_offset as int,
        ) is None,
{
    let dialect = if american { chrono_english::Dialect::Us } else { chrono_english::Dialect::Uk };
    let date = chrono::NaiveDate::from_num_days_from_ce_opt(day)?;
    let time = chrono::NaiveTime::from_num_seconds_from_midnight_opt(secs, nanos)?;
    let zone = chrono::FixedOffset::east_opt(utc_offset)?;
    let local = chrono::NaiveDateTime::new(date, time);
    let base = chrono::TimeZone::from_local_datetime(&zone, &local).single()?;
    let found = chrono_english::parse_date_string(phrase, base, dialect).ok()?;
    Some(chrono::Datelike::num_days_from_ce(&found.naive_utc().date()))
}

/// Whether a phrase can be handed to the resolver of English dates.
pub fn check_plain_phrase(text: &str) -> (r: bool)
    ensures
        r == is_plain_phrase(text@),
{
    let len = text.unicode_len();
    let mut i: usize = 0;
    let mut run: usize = 0;
    while i < len
        invariant
            i <= len,
            len == text@.len(),
            run <= MAX_DIGIT_RUN,
            run <= i,
            digits_between(text@, i - run, i as int),
            i - run > 0 ==> !is_digit(text@[i - run - 1]),
            forall|k: int| 0 <= k < i ==> #[trigger] text@[k] <= '\u{7f}',
            forall|k: int|
                0 <= k < i && #[trigger] text@[k] == '.' ==> k + 1 < len && is_digit(text@[k + 1]),
            forall|k: int|
                0 <= k && k + MAX_DIGIT_RUN < i ==> !#[trigger] digits_between(
                    text@,
                    k,
                    k + MAX_DIGIT_RUN + 1,
                ),
        decreases len - i,
    {
        let c = text.get_char(i);
        if c > '\u{7f}' {
            return false;
        }
        if c == '.' {
            if i + 1 >= len {
                return false;
            }
            let next = text.get_char(i + 1);
            if next < '0' || next > '9' {
                return false;
            }
        }
        if '0' <= c && c <= '9' {
            if run == MAX_DIGIT_RUN {
                let ghost k = i - MAX_DIGIT_RUN;
                assert(digits_between(text@, k, k + MAX_DIGIT_RUN + 1));
                return false;
            }
            run += 1;
        } else {
            run = 0;
        }
        assert forall|k: int| 0 <= k && k + MAX_DIGIT_RUN < i + 1 implies !#[trigger] digits_between(
            text@,
            k,
            k + MAX_DIGIT_RUN + 1,
        ) by {
            if k + MAX_DIGIT_RUN == i {
                // The row of digits that ends at `i` starts after `k`.
                if run == 0 {
                    assert(!is_digit(text@[i as int]));
                } else {
                    assert(!is_digit(text@[i + 1 - run - 1]));
                }
            }
        }
        i += 1;
    }
    true
}

/// The first moment of the day with the given number, if it is in range.
pub open spec fn midnight_of(day: int) -> Option<Timestamp> {
    if MIN_DAY <= day <= MAX_DAY {
        Some(Timestamp::of(day, 0, 0))
    } else {
        None
    }
}

/// The date and time that a text holds under a pattern, if it holds one.
pub open spec fn datetime_under(text: Seq<char>, pattern: Seq<char>) -> Option<Timestamp> {
    match parsed_datetime(text, pattern) {
        Some((day, secs, nanos)) => if timestamp_in_range(day, secs, nanos) {
            Some(Timestamp::of(day, secs, nanos))
        } else {
            None
        },
        None => None,
    }
}

/// The first moment of the date that a text holds under a pattern, if it
/// holds one.
pub open spec fn date_under(text: Seq<char>, pattern: Seq<char>) -> Option<Timestamp> {
    match parsed_date(text, pattern) {
        Some(day) => midnight_of(day),
        None => None,
    }
}

/// The date, with or without time, that a text holds in one of the written
/// forms. The forms with a time are tried first, each group in this order:
/// `25-12-2025 14:30`, `25/12/2025 14:30`, `2025-12-25 14:30`; then
/// `25-12-2025`, `25/12/2025`, `2025-12-25`, `2025/12/25`. A date without
/// time stands for its first moment.
pub open spec fn absolute_date(text: Seq<char>) -> Option<Timestamp> {
    if datetime_under(text, "%d-%m-%Y %H:%M"@) is Some {
        datetime_under(text, "%d-%m-%Y %H:%M"@)
    } else if datetime_under(text, "%d/%m/%Y %H:%M"@) is Some {
        datetime_under(text, "%d/%m/%Y %H:%M"@)
    } else if datetime_under(text, "%Y-%m-%d %H:%M"@) is Some {
        datetime_under(text, "%Y-%m-%d %H:%M"@)
    } else if date_under(text, "%d-%m-%Y"@) is Some {
        date_under(text, "%d-%m-%Y"@)
    } else if date_under(text, "%d/%m/%Y"@) is Some {
        date_under(text, "%d/%m/%Y"@)
    } else if date_under(text, "%Y-%m-%d"@) is Some {
        date_under(text, "%Y-%m-%d"@)
    } else {
        date_under(text, "%Y/%m/%d"@)
    }
}

/// The day that one of the four fixed phrases names, relative to the day of
/// `now`; `None` for any other text.
pub open spec fn shortcut_day(text: Seq<char>, now: Timestamp) -> Option<int> {
    if text == "tomorrow"@ {
        Some(now.day() + 1)
    } else if text == "yesterday"@ {
        Some(now.day() - 1)
    } else if text == "next week"@ {
        Some(now.day() + 7)
    } else if text == "last week"@ {
        Some(now.day() - 7)
    } else {
        None
    }
}

/// The first moment of the day that a phrase names relative to `now`. The
/// four fixed phrases are reckoned here; any other plain phrase goes to the
/// resolver of English dates, which reads it in British English, if `now`
/// lies in the years 1 to 9999. `None` where the phrase names no day, or the
/// day is out of range.
pub open spec fn relative_date(text: Seq<char>, now: Timestamp, utc_offset: int) -> Option<
    Timestamp,
> {
    match shortcut_day(text, now) {
        Some(day) => midnight_of(day),
        None => if is_plain_phrase(text) && in_common_era(now) {
            match english_day(text, false, now.day(), now.secs(), now.nanos(), utc_offset) {
                Some(day) => midnight_of(day),
                None => None,
            }
        } else {
            None
        },
    }
}

/// What settling a relative date gives: the date if there is one and it is
/// not before `now`; `InvalidDate` with the text if it is; `InvalidDateFormat`
/// with the text if there is none.
pub open spec fn settled_relative(text: Seq<char>, found: Option<Timestamp>, now: Timestamp) -> Result<
    Option<Timestamp>,
    TodoErrorView,
> {
    match found {
        Some(date) => if date.is_before_spec(&now) {
            Err(TodoErrorView::InvalidDate { input: text, reason: "Date cannot be in the past"@ })
        } else {
            Ok(Some(date))
        },
        None => Err(TodoErrorView::InvalidDateFormat { input: text }),
    }
}

/// What reading a due date gives, where `text` is the input in lower case
/// without the blanks around it: no date for an empty text; the date that is
/// written out, if one is; else what a relative date settles to.
pub open spec fn due_date_read(text: Seq<char>, now: Timestamp, utc_offset: int) -> Result<
    Option<Timestamp>,
    TodoErrorView,
> {
    if text.len() == 0 {
        Ok(None)
    } else {
        match absolute_date(text) {
            Some(date) => Ok(Some(date)),
            None => settled_relative(text, relative_date(text, now, utc_offset), now),
        }
    }
}

/// What reading the due date that a user wrote gives: no date for no text;
/// else what its lower-case form without the blanks around it reads as.
pub open spec fn due_date_parsed(due_str: Option<Seq<char>>, now: Timestamp, utc_offset: int) -> Result<
    Option<Timestamp>,
    TodoErrorView,
> {
    match due_str {
        Some(input) => due_date_read(lowercased(trimmed(input)), now, utc_offset),
        None => Ok(None),
    }
}

/// Reads a date and time from a text under a pattern.
fn read_datetime(text: &str, pattern: &str) -> (r: Option<Timestamp>)
    ensures
        r == datetime_under(text@, pattern@),
{
    match parse_datetime_with(text, pattern) {
        Some((day, secs, nanos)) => Timestamp::new(day, secs, nanos),
        None => None,
    }
}

/// Reads a date from a text under a pattern.
fn read_date(text: &str, pattern: &str) -> (r: Option<Timestamp>)
    ensures
        r == date_under(text@, pattern@),
{
    match parse_date_with(text, pattern) {
        Some(day) => Timestamp::at_midnight(day),
        None => None,
    }
}

/// Reads a date that is written out, with or without time.
pub fn parse_absolute_date(text: &str) -> (r: Option<Timestamp>)
    ensures
        r == absolute_date(text@),
{
    let found = read_datetime(text, "%d-%m-%Y %H:%M");
    if found.is_some() {
        return found;
    }
    let found = read_datetime(text, "%d/%m/%Y %H:%M");
    if found.is_some() {
        return found;
    }
    let found = read_datetime(text, "%Y-%m-%d %H:%M");
    if found.is_some() {
        return found;
    }
    let found = read_date(text, "%d-%m-%Y");
    if found.is_some() {
        return found;
    }
    let found = read_date(text, "%d/%m/%Y");
    if found.is_some() {
        return found;
    }
    let found = read_date(text, "%Y-%m-%d");
    if found.is_some() {
        return found;
    }
    read_date(text, "%Y/%m/%d")
}

/// The first moment of the day that lies `days` days from the day of `now`,
/// if it is in range.
fn midnight_from(now: Timestamp, days: i32) -> (r: Option<Timestamp>)
    requires
        -7 <= days <= 7,
    ensures
        r == midnight_of(now.day() + days),
{
    let day: i64 = now.day_number() as i64 + days as i64;
    if day < MIN_DAY as i64 || day > MAX_DAY as i64 {
        None
    } else {
        Timestamp::at_midnight(day as i32)
    }
}

/// Reads a date that is named relative to `now`: "tomorrow", "yesterday",
/// "next week", "last week", or a phrase for the resolver of English dates,
/// which reads it in the zone that lies `utc_offset` seconds east of
/// universal time. It never fails: a text that names no day gives `None`.
pub fn parse_relative_date(input: &str, now: Timestamp, utc_offset: i32) -> (r: TodoResult<
    Option<Timestamp>,
>)
    ensures
        result_view(r) == Ok::<Option<Timestamp>, TodoErrorView>(
            relative_date(input@, now, utc_offset as int),
        ),
{
    if str_eq(input, "tomorrow") {
        Ok(midnight_from(now, 1))
    } else if str_eq(input, "yesterday") {
        Ok(midnight_from(now, -1))
    } else if str_eq(input, "next week") {
        Ok(midnight_from(now, 7))
    } else if str_eq(input, "last week") {
        Ok(midnight_from(now, -7))
    } else if check_plain_phrase(input) && 1 <= now.day_number() && now.day_number()
        <= LAST_COMMON_DAY {
        proof {
            use_type_invariant(&now);
        }
        let found = resolve_english(
            input,
            false,
            now.day_number(),
            now.seconds_of_day(),
            now.nanosecond(),
            utc_offset,
        );
        match found {
            Some(day) => Ok(Timestamp::at_midnight(day)),
            None => Ok(None),
        }
    } else {
        Ok(None)
    }
}

/// Settles what a relative date gives: a date before `now` is refused with
/// `InvalidDate`, no date at all with `InvalidDateFormat`; both hold `text`.
pub fn settle_relative_date(text: &str, found: Option<Timestamp>, now: Timestamp) -> (r:
    TodoResult<Option<Timestamp>>)
    ensures
        result_view(r) == settled_relative(text@, found, now),
{
    match found {
        Some(date) => {
            if date.is_before(&now) {
                Err(
                    TodoError::InvalidDate {
                        input: String::from_str(text),
                        reason: String::from_str("Date cannot be in the past"),
                    },
                )
            } else {
                Ok(Some(date))
            }
        },
        None => Err(TodoError::InvalidDateFormat { input: String::from_str(text) }),
    }
}

/// Reads a due date from a text that is in lower case and has no blanks
/// around it.
pub fn read_due_date(text: &str, now: Timestamp, utc_offset: i32) -> (r: TodoResult<
    Option<Timestamp>,
>)
    ensures
        result_view(r) == due_date_read(text@, now, utc_offset as int),
{
    if text.unicode_len() == 0 {
        return Ok(None);
    }
    match parse_absolute_date(text) {
        Some(date) => Ok(Some(date)),
        None => match parse_relative_date(text, now, utc_offset) {
            Ok(found) => settle_relative_date(text, found, now),
            Err(e) => Err(e),
        },
    }
}

/// Reads the due date that a user wrote, at the local time `now` in the zone
/// that lies `utc_offset` seconds east of universal time.
///
/// No text, or a blank one, is no due date. Else the text is taken in lower
/// case and without the blanks around it. A date that is written out is
/// taken as it stands, also where it lies in the past. A relative date is
/// refused with `InvalidDate` if it lies before `now`. Anything else is
/// refused with `InvalidDateFormat`.
pub fn parse_due_date(due_str: Option<&str>, now: Timestamp, utc_offset: i32) -> (r: TodoResult<
    Option<Timestamp>,
>)
    ensures
        result_view(r) == due_date_parsed(optional_str_view(due_str), now, utc_offset as int),
{
    match due_str {
        Some(input) => {
            let text = to_lowercase(trim(input));
            read_due_date(text.as_str(), now, utc_offset)
        },
        None => Ok(None),
    }
}

} // verus!
