use crate::todo::priority::Priority;
use crate::todo::time::{DateFormat, Timestamp};
use crate::utils::text::{byte_len, decimal, decimal_string};
use vstd::prelude::*;
use vstd::string::{StringExecFns, StringSliceAdditionalSpecFns};
use vstd::utf8::{decode_utf8, encode_utf8, is_char_boundary};

verus! {

/// The mark that shows whether a todo is done.
pub open spec fn status_mark(status: bool) -> Seq<char> {
    if status {
        "✅"@
    } else {
        "⬜"@
    }
}

/// The mark that shows whether a todo is done.
pub fn format_status(status: bool) -> (r: &'static str)
    ensures
        r@ == status_mark(status),
{
    if status {
        "✅"
    } else {
        "⬜"
    }
}

/// The text that shows a priority that may be absent: its label, or a dash.
pub open spec fn priority_text(priority: Option<Priority>) -> Seq<char> {
    match priority {
        Some(p) => p.label(),
        None => "-"@,
    }
}

/// The text that shows a priority that may be absent: its label, or a dash.
pub fn format_priority(priority: Option<Priority>) -> (r: String)
    ensures
        r@ == priority_text(priority),
{
    match priority {
        Some(p) => p.to_string(),
        None => String::from_str("-"),
    }
}

/// The number of bytes kept of a text that is cut to fit `max_len` bytes
/// with three dots after it.
pub open spec fn kept_bytes(max_len: nat) -> nat {
    if max_len >= 3 {
        (max_len - 3) as nat
    } else {
        0
    }
}

/// Whether a text can be shortened to `max_len` bytes: it is short enough as
/// it is, or the cut falls between two characters.
pub open spec fn can_truncate(text: Seq<char>, max_len: nat) -> bool {
    byte_len(text) <= max_len || is_char_boundary(encode_utf8(text), kept_bytes(max_len) as int)
}

/// The text itself if it takes at most `max_len` bytes; else its first
/// `max_len - 3` bytes (none if `max_len` is below 3) followed by three dots.
pub open spec fn truncated(text: Seq<char>, max_len: nat) -> Seq<char> {
    if byte_len(text) <= max_len {
        text
    } else {
        decode_utf8(encode_utf8(text).subrange(0, kept_bytes(max_len) as int)) + "..."@
    }
}

/// Shortens a text to `max_len` bytes, the last three of them dots.
pub fn truncate_text(text: &str, max_len: usize) -> (r: String)
    requires
        can_truncate(text@, max_len as nat),
    ensures
        r@ == truncated(text@, max_len as nat),
{
    if text.as_bytes().len() <= max_len {
        String::from_str(text)
    } else {
        let cut: usize = if max_len >= 3 {
            max_len - 3
        } else {
            0
        };
        let (head, _) = text.split_at(cut);
        proof {
            vstd::utf8::encode_utf8_decode_utf8(head@);
            assert(head.spec_bytes() == encode_utf8(head@));
        }
        let mut out = String::from_str(head);
        out.append("...");
        out
    }
}

/// Whether a text can be shortened to `max_len` bytes without cutting a
/// character in two.
pub fn fits_truncation(text: &str, max_len: usize) -> (r: bool)
    ensures
        r == can_truncate(text@, max_len as nat),
{
    if text.as_bytes().len() <= max_len {
        true
    } else {
        let cut: usize = if max_len >= 3 {
            max_len - 3
        } else {
            0
        };
        text.is_char_boundary(cut)
    }
}

/// How a due date is shown at the time `now`, by the number of days from the
/// day of `now` to the day it falls on: before that day as overdue, with day
/// and time; on that day and on the next with the time alone; up to seven
/// days ahead with day, month, time and the number of days; later with the
/// date alone. No due date is shown as a dash.
pub open spec fn due_date_text(due_date: Option<Timestamp>, now: Timestamp) -> Seq<char> {
    match due_date {
        Some(due) => {
            let ahead = due.day() - now.day();
            if ahead < 0 {
                "🔴 "@ + due.text(DateFormat::DayMonthYearTime) + " (overdue)"@
            } else if ahead == 0 {
                "🟡 "@ + due.text(DateFormat::Time) + " (today)"@
            } else if ahead == 1 {
                "🟢 "@ + due.text(DateFormat::Time) + " (tomorrow)"@
            } else if ahead <= 7 {
                "🟢 "@ + due.text(DateFormat::DayMonthTime) + " ("@ + decimal(ahead as nat)
                    + " days)"@
            } else {
                "⚪ "@ + due.text(DateFormat::DayMonthYear)
            }
        },
        None => "-"@,
    }
}

/// Shows a due date as it looks at the time `now`.
pub fn format_due_date_with_now(due_date: Option<Timestamp>, now: Timestamp) -> (r: String)
    ensures
        r@ == due_date_text(due_date, now),
{
    match due_date {
        Some(due) => {
            let ahead: i64 = due.day_number() as i64 - now.day_number() as i64;
            if ahead < 0 {
                let mut text = String::from_str("🔴 ");
                text.append(due.format(DateFormat::DayMonthYearTime).as_str());
                text.append(" (overdue)");
                text
            } else if ahead == 0 {
                let mut text = String::from_str("🟡 ");
                text.append(due.format(DateFormat::Time).as_str());
                text.append(" (today)");
                text
            } else if ahead == 1 {
                let mut text = String::from_str("🟢 ");
                text.append(due.format(DateFormat::Time).as_str());
                text.append(" (tomorrow)");
                text
            } else if ahead <= 7 {
                let mut text = String::from_str("🟢 ");
                text.append(due.format(DateFormat::DayMonthTime).as_str());
                text.append(" (");
                text.append(decimal_string(ahead as u64).as_str());
                text.append(" days)");
                text
            } else {
                let mut text = String::from_str("⚪ ");
                text.append(due.format(DateFormat::DayMonthYear).as_str());
                text
            }
        },
        None => String::from_str("-"),
    }
}

/// Shows a due date as it looks at the time `now`.
pub fn format_due_date(due_date: Option<Timestamp>, now: Timestamp) -> (r: String)
    ensures
        r@ == due_date_text(due_date, now),
{
    format_due_date_with_now(due_date, now)
}

} // verus!
