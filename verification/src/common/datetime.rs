//! Calendar dates and instants as plain values.
use chrono::Datelike;
use vstd::prelude::*;

verus! {

/// A calendar date (proleptic Gregorian), as the database's `date` holds it.
#[derive(Debug, Clone, Copy, PartialEq, Eq, Structural)]
pub struct Date {
    pub year: i32,
    pub month: u32,
    pub day: u32,
}

/// An instant in UTC: seconds since the Unix epoch and the nanoseconds
/// within that second.
#[derive(Debug, Clone, Copy, PartialEq, Eq, Structural)]
pub struct Timestamp {
    pub secs: i64,
    pub nanos: u32,
}

impl Date {
    /// The date that a date column takes before anything is read into it:
    /// 1970-01-01.
    pub open spec fn spec_epoch() -> Date {
        Date { year: 1970, month: 1, day: 1 }
    }

    pub fn epoch() -> (r: Date)
        ensures
            r == Date::spec_epoch(),
    {
        Date { year: 1970, month: 1, day: 1 }
    }

    /// The date as a triple that orders like the calendar.
    pub open spec fn key(self) -> (i32, u32, u32) {
        (self.year, self.month, self.day)
    }
}

/// What `chrono::NaiveDate::parse_from_str(s, fmt)` gives back, as
/// (year, month, day); `None` where chrono reports a parse error.
pub uninterp spec fn chrono_parse_date(s: Seq<char>, fmt: Seq<char>) -> Option<(i32, u32, u32)>;

/// `chrono::NaiveDate::parse_from_str`, with the date taken apart into
/// year, month and day. Nothing is claimed of the result beyond that it
/// is a function of the text and the format.
#[verifier::external_body]
fn naive_date_parse_from_str(s: &str, fmt: &str) -> (r: Option<(i32, u32, u32)>)
    ensures
        r == chrono_parse_date(s@, fmt@),
{
    match chrono::NaiveDate::parse_from_str(s, fmt) {
        Ok(d) => Some((d.year(), d.month(), d.day())),
        Err(_) => None,
    }
}

pub open spec fn date_of(t: Option<(i32, u32, u32)>) -> Option<Date> {
    match t {
        Some(t) => Some(Date { year: t.0, month: t.1, day: t.2 }),
        None => None,
    }
}

/// The dates written `%Y-%m-%d` are read first; `%Y/%m/%d` is the fallback.
pub open spec fn spec_parse_date(s: Seq<char>) -> Option<Date> {
    match chrono_parse_date(s, "%Y-%m-%d"@) {
        Some(t) => date_of(Some(t)),
        None => date_of(chrono_parse_date(s, "%Y/%m/%d"@)),
    }
}

/// Chooses between the two readings of a date: the dashed one when it
/// succeeded, the slashed one otherwise.
pub fn date_from_readings(dashed: Option<(i32, u32, u32)>, slashed: Option<(i32, u32, u32)>) -> (r: Option<Date>)
    ensures
        r == (match dashed {
            Some(t) => date_of(Some(t)),
            None => date_of(slashed),
        }),
{
    match dashed {
        Some(t) => Some(Date { year: t.0, month: t.1, day: t.2 }),
        None => match slashed {
            Some(t) => Some(Date { year: t.0, month: t.1, day: t.2 }),
            None => None,
        },
    }
}

/// Reads a date written `YYYY-MM-DD` or, failing that, `YYYY/MM/DD`.
pub fn parse_date(date: &str) -> (r: Option<Date>)
    ensures
        r == spec_parse_date(date@),
{
    let dashed = naive_date_parse_from_str(date, "%Y-%m-%d");
    let slashed = if dashed.is_none() {
        naive_date_parse_from_str(date, "%Y/%m/%d")
    } else {
        None
    };
    date_from_readings(dashed, slashed)
}

} // verus!
