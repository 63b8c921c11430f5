//! Local date-times as plain values, read from text and from the clock through chrono.
use crate::text::{padded, push_padded};
use chrono::{Datelike, Timelike};
use vstd::prelude::*;

verus! {

/// A local calendar date and wall-clock time, to the nanosecond.
///
/// A nanosecond count of one second or more marks a leap second; `second` is then 59.
#[derive(Clone, Copy, Debug, PartialEq, Eq, Structural)]
pub struct Timestamp {
    pub year: i32,
    pub month: u32,
    pub day: u32,
    pub hour: u32,
    pub minute: u32,
    pub second: u32,
    pub nanosecond: u32,
}

/// Whether `year` is a leap year of the proleptic Gregorian calendar.
pub open spec fn is_leap_year(year: int) -> bool {
    year % 4 == 0 && (year % 100 != 0 || year % 400 == 0)
}

/// The number of days of `month` (1..=12) in `year`.
pub open spec fn days_in_month(year: int, month: int) -> int {
    if month == 2 {
        if is_leap_year(year) {
            29
        } else {
            28
        }
    } else if month == 4 || month == 6 || month == 9 || month == 11 {
        30
    } else {
        31
    }
}

/// What the text of a date-time reads as, where it reads as one.
pub uninterp spec fn timestamp_of(text: Seq<char>) -> Option<Timestamp>;

/// The whole seconds from `earlier` to `later`, counted toward zero.
pub uninterp spec fn seconds_between(later: Timestamp, earlier: Timestamp) -> int;

impl Timestamp {
    /// A date-time that exists: chrono's range of years, a real day of the month, a time of day
    /// below 24:00, and a leap second only in the last second of a minute.
    pub open spec fn wf(self) -> bool {
        &&& -262143 <= self.year <= 262142
        &&& 1 <= self.month <= 12
        &&& 1 <= self.day <= days_in_month(self.year as int, self.month as int)
        &&& self.hour < 24
        &&& self.minute < 60
        &&& self.second < 60
        &&& self.nanosecond < 2_000_000_000
        &&& self.nanosecond >= 1_000_000_000 ==> self.second == 59
    }

    /// "YYYY-MM-DD HH:MM:SS", the form in which session boundaries are stored.
    pub open spec fn text(self) -> Seq<char> {
        padded(self.year as int, 4) + "-"@ + padded(self.month as int, 2) + "-"@ + padded(
            self.day as int,
            2,
        ) + " "@ + padded(self.hour as int, 2) + ":"@ + padded(self.minute as int, 2) + ":"@
            + padded(self.second as int, 2)
    }

    /// "YYYY/MM/DD".
    pub open spec fn date_text(self) -> Seq<char> {
        padded(self.year as int, 4) + "/"@ + padded(self.month as int, 2) + "/"@ + padded(
            self.day as int,
            2,
        )
    }

    /// "HH:MM".
    pub open spec fn clock_text(self) -> Seq<char> {
        padded(self.hour as int, 2) + ":"@ + padded(self.minute as int, 2)
    }

    /// Renders the date-time as "YYYY-MM-DD HH:MM:SS".
    pub fn to_text(&self) -> (r: String)
        ensures
            r@ == self.text(),
    {
        let mut out = String::new();
        push_padded(&mut out, self.year as i128, 4);
        out.append("-");
        push_padded(&mut out, self.month as i128, 2);
        out.append("-");
        push_padded(&mut out, self.day as i128, 2);
        out.append(" ");
        push_padded(&mut out, self.hour as i128, 2);
        out.append(":");
        push_padded(&mut out, self.minute as i128, 2);
        out.append(":");
        push_padded(&mut out, self.second as i128, 2);
        assert(out@ =~= self.text());
        out
    }

    /// Renders the date as "YYYY/MM/DD".
    pub fn date_string(&self) -> (r: String)
        ensures
            r@ == self.date_text(),
    {
        let mut out = String::new();
        push_padded(&mut out, self.year as i128, 4);
        out.append("/");
        push_padded(&mut out, self.month as i128, 2);
        out.append("/");
        push_padded(&mut out, self.day as i128, 2);
        assert(out@ =~= self.date_text());
        out
    }

    /// Renders the time of day as "HH:MM".
    pub fn clock_string(&self) -> (r: String)
        ensures
            r@ == self.clock_text(),
    {
        let mut out = String::new();
        push_padded(&mut out, self.hour as i128, 2);
        out.append(":");
        push_padded(&mut out, self.minute as i128, 2);
        assert(out@ =~= self.clock_text());
        out
    }
}

/// Relies on chrono's `NaiveDateTime::parse_from_str` with the format "%Y-%m-%d %H:%M:%S", read
/// out field by field. What it returns is a `NaiveDateTime`, which holds only date-times that
/// exist; an empty text holds no year and fails.
#[verifier::external_body]
pub(crate) fn parse_timestamp(text: &str) -> (r: Option<Timestamp>)
    ensures
        r == timestamp_of(text@),
        r matches Some(t) ==> t.wf(),
        text@.len() == 0 ==> r is None,
{
    match chrono::NaiveDateTime::parse_from_str(text, "%Y-%m-%d %H:%M:%S") {
        Ok(d) => Some(Timestamp {
            year: d.year(),
            month: d.month(),
            day: d.day(),
            hour: d.hour(),
            minute: d.minute(),
            second: d.second(),
            nanosecond: d.nanosecond(),
        }),
        Err(_) => None,
    }
}

/// Relies on chrono's `Local::now().naive_local()`, the local wall-clock time, read out field by
/// field; a `NaiveDateTime` holds only date-times that exist.
#[verifier::external_body]
pub(crate) fn now_local() -> (r: Timestamp)
    ensures
        r.wf(),
{
    let d = chrono::Local::now().naive_local();
    Timestamp {
        year: d.year(),
        month: d.month(),
        day: d.day(),
        hour: d.hour(),
        minute: d.minute(),
        second: d.second(),
        nanosecond: d.nanosecond(),
    }
}

/// Relies on chrono: `NaiveDate::from_ymd_opt` and `and_hms_nano_opt` accept every date-time that
/// exists, and `signed_duration_since(..).num_seconds()` counts the whole seconds between two of
/// them, within the range of a `TimeDelta` (`i64::MAX` milliseconds either way).
#[verifier::external_body]
pub(crate) fn elapsed_seconds(later: &Timestamp, earlier: &Timestamp) -> (r: Option<i64>)
    ensures
        later.wf() && earlier.wf() ==> r is Some,
        r matches Some(s) ==> s == seconds_between(*later, *earlier),
        r matches Some(s) ==> -(i64::MAX / 1000) <= s <= i64::MAX / 1000,
{
    let a = chrono::NaiveDate::from_ymd_opt(later.year, later.month, later.day)?
        .and_hms_nano_opt(later.hour, later.minute, later.second, later.nanosecond)?;
    let b = chrono::NaiveDate::from_ymd_opt(earlier.year, earlier.month, earlier.day)?
        .and_hms_nano_opt(earlier.hour, earlier.minute, earlier.second, earlier.nanosecond)?;
    Some(a.signed_duration_since(b).num_seconds())
}

} // verus!
