//! Timestamps as metadata files write them: a full RFC 3339 timestamp, or a
//! bare `YYYY-MM-DD` date taken as midnight UTC.
use vstd::prelude::*;

use chrono::{DateTime, Datelike, NaiveDate, Timelike, Utc};

use crate::model::track::Timestamp;
use crate::text::{chars_of, string_of, strip, strip_chars, trim, trim_chars, CharClass};

verus! {

/// What chrono's RFC 3339 parser reads from a text, brought to UTC.
pub uninterp spec fn rfc3339_utc(s: Seq<char>) -> Option<Timestamp>;

/// The calendar date chrono's `NaiveDate` parser reads from a text in a
/// format, as year, month and day.
pub uninterp spec fn date_in_format(s: Seq<char>, fmt: Seq<char>) -> Option<(i32, u32, u32)>;

/// Relies on `chrono::DateTime::parse_from_rfc3339` and `with_timezone(&Utc)`:
/// the instant read depends on the text alone.
#[verifier::external_body]
fn parse_rfc3339(s: &str) -> (r: Option<Timestamp>)
    ensures
        r == rfc3339_utc(s@),
{
    let u = DateTime::parse_from_rfc3339(s).ok()?.with_timezone(&Utc);
    Some(Timestamp {
        year: u.year(),
        month: u.month(),
        day: u.day(),
        hour: u.hour(),
        minute: u.minute(),
        second: u.second(),
        nanosecond: u.nanosecond(),
    })
}

/// Relies on `chrono::NaiveDate::parse_from_str`: the date read depends on
/// the text and the format alone.
#[verifier::external_body]
fn parse_date(s: &str, fmt: &str) -> (r: Option<(i32, u32, u32)>)
    ensures
        r == date_in_format(s@, fmt@),
{
    let d = NaiveDate::parse_from_str(s, fmt).ok()?;
    Some((d.year(), d.month(), d.day()))
}

/// A date text without surrounding whitespace or parentheses.
pub open spec fn date_text(s: Seq<char>) -> Seq<char> {
    trim(strip(strip(trim(s), CharClass::Exactly('(')), CharClass::Exactly(')')))
}

/// Midnight UTC of a day.
pub open spec fn midnight(d: (i32, u32, u32)) -> Timestamp {
    Timestamp { year: d.0, month: d.1, day: d.2, hour: 0, minute: 0, second: 0, nanosecond: 0 }
}

/// The instant that a full timestamp gives, else midnight of the date that a
/// date-only text gives, else none.
pub open spec fn pick_datetime(
    full: Option<Timestamp>,
    date: Option<(i32, u32, u32)>,
) -> Option<Timestamp> {
    match full {
        Some(t) => Some(t),
        None => match date {
            Some(d) => Some(midnight(d)),
            None => None,
        },
    }
}

/// The instant a metadata date text names, if any.
pub open spec fn datetime_of(s: Seq<char>) -> Option<Timestamp> {
    let t = date_text(s);
    pick_datetime(rfc3339_utc(t), date_in_format(t, "%Y-%m-%d"@))
}

/// Combines the two readings of a date text: the full timestamp wins, and a
/// bare date stands for its midnight UTC.
pub fn choose_datetime(full: Option<Timestamp>, date: Option<(i32, u32, u32)>) -> (r: Option<
    Timestamp,
>)
    ensures
        r == pick_datetime(full, date),
{
    match full {
        Some(t) => Some(t),
        None => match date {
            Some(d) => Some(
                Timestamp {
                    year: d.0,
                    month: d.1,
                    day: d.2,
                    hour: 0,
                    minute: 0,
                    second: 0,
                    nanosecond: 0,
                },
            ),
            None => None,
        },
    }
}

/// Reads a metadata date: surrounding whitespace and parentheses are
/// dropped, then a full RFC 3339 timestamp is tried, then a `YYYY-MM-DD`
/// date; anything else gives none.
pub fn parse_datetime(s: &str) -> (r: Option<Timestamp>)
    ensures
        r == datetime_of(s@),
{
    let v = chars_of(s);
    let a = trim_chars(&v);
    let b = strip_chars(&a, CharClass::Exactly('('));
    let c = strip_chars(&b, CharClass::Exactly(')'));
    let d = trim_chars(&c);
    let t = string_of(&d);
    let full = parse_rfc3339(t.as_str());
    match full {
        Some(x) => Some(x),
        None => {
            let date = parse_date(t.as_str(), "%Y-%m-%d");
            choose_datetime(None, date)
        },
    }
}

} // verus!
