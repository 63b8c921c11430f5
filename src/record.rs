//! One work session of one person, and what is derived from it.
use crate::hours::{decimal_seconds, hours_text, record_seconds_limit, Hours};
use crate::period::Period;
use crate::text::{padded, push_padded};
use crate::timestamp::{
    elapsed_seconds, now_local, parse_timestamp, seconds_between, timestamp_of, Timestamp,
};
use vstd::prelude::*;

verus! {

/// The longest session, in seconds, that counts as finished.
pub const MAX_SECONDS: i64 = 60 * 60 * 15;

/// Why an operation on the records failed.
#[derive(Clone, Copy, Debug, PartialEq, Eq, Structural)]
pub enum HoursError {
    /// A stored date-time is not in the form "YYYY-MM-DD HH:MM:SS".
    Parse,
    /// No open session was found for the person.
    NotFound,
}

/// A column of the stored table: its name and its type.
#[derive(Debug, PartialEq)]
pub struct Field {
    pub name: String,
    pub datatype: String,
}

impl Clone for Field {
    fn clone(&self) -> (r: Field)
        ensures
            r == *self,
    {
        Field { name: self.name.clone(), datatype: self.datatype.clone() }
    }
}

impl Field {
    pub fn new(name: &str, datatype: &str) -> (r: Field)
        ensures
            r.name@ == name@,
            r.datatype@ == datatype@,
    {
        Field { name: name.to_string(), datatype: datatype.to_string() }
    }
}

/// The description of the stored table: its columns, its key and the version of its format.
#[derive(Debug, PartialEq)]
pub struct Schema {
    pub fields: Vec<Field>,
    pub primary_key: Vec<String>,
    pub pandas_version: String,
}

impl Clone for Schema {
    fn clone(&self) -> (r: Schema)
        ensures
            r.same_as(*self),
    {
        let fields = self.fields.clone();
        let primary_key = self.primary_key.clone();
        assert(fields@ =~= self.fields@);
        assert(primary_key@ =~= self.primary_key@);
        Schema { fields, primary_key, pandas_version: self.pandas_version.clone() }
    }
}

impl Schema {
    /// Whether two schemas hold the same columns, key and version.
    pub open spec fn same_as(self, other: Schema) -> bool {
        &&& self.fields@ == other.fields@
        &&& self.primary_key@ == other.primary_key@
        &&& self.pandas_version == other.pandas_version
    }

    /// The column names and types of the standard table, in order.
    pub open spec fn standard_columns() -> Seq<(Seq<char>, Seq<char>)> {
        seq![
            ("index"@, "integer"@),
            ("rowid"@, "integer"@),
            ("name"@, "string"@),
            ("year"@, "integer"@),
            ("month"@, "integer"@),
            ("start"@, "string"@),
            ("end"@, "string"@),
            ("hours"@, "string"@),
        ]
    }

    /// Whether this is the standard table: its columns, keyed by "index", format "0.20.0".
    pub open spec fn is_standard(self) -> bool {
        &&& self.fields@.len() == 8
        &&& forall|i: int|
            0 <= i < 8 ==> (#[trigger] self.fields@[i]).name@ == Self::standard_columns()[i].0
                && self.fields@[i].datatype@ == Self::standard_columns()[i].1
        &&& self.primary_key@.len() == 1
        &&& self.primary_key@[0]@ == "index"@
        &&& self.pandas_version@ == "0.20.0"@
    }
}

impl Default for Schema {
    fn default() -> (r: Schema)
        ensures
            r.is_standard(),
    {
        let fields = vec![
            Field::new("index", "integer"),
            Field::new("rowid", "integer"),
            Field::new("name", "string"),
            Field::new("year", "integer"),
            Field::new("month", "integer"),
            Field::new("start", "string"),
            Field::new("end", "string"),
            Field::new("hours", "string"),
        ];
        let primary_key = vec!["index".to_string()];
        Schema { fields, primary_key, pandas_version: "0.20.0".to_string() }
    }
}

/// One work session: who, in which month, when it started and ended, and the hours entered by
/// hand, if any. An empty `end` marks a session still open; an empty `hours` means that the
/// hours come from the two date-times.
#[derive(Debug, PartialEq)]
pub struct HoursRecord {
    pub index: isize,
    pub rowid: isize,
    pub name: String,
    pub year: i32,
    pub month: u32,
    pub start: String,
    pub end: String,
    pub hours: String,
}

impl Clone for HoursRecord {
    fn clone(&self) -> (r: HoursRecord)
        ensures
            r == *self,
    {
        HoursRecord {
            index: self.index,
            rowid: self.rowid,
            name: self.name.clone(),
            year: self.year,
            month: self.month,
            start: self.start.clone(),
            end: self.end.clone(),
            hours: self.hours.clone(),
        }
    }
}

/// "HH:MM" for a session of `d` seconds: the hours of the day and the minutes of the hour.
pub open spec fn session_text(d: int) -> Seq<char> {
    padded((d / 3600) % 24, 2) + ":"@ + padded((d / 60) % 60, 2)
}

/// Whether a session of `d` seconds counts as finished.
pub open spec fn plausible(d: int) -> bool {
    0 < d < MAX_SECONDS
}

/// The hours shown for a session: those entered by hand (`manual`), else the time from start to
/// end (`elapsed`) where it is plausible, else "unfinished"; "?" where neither is known.
pub open spec fn hours_label_text(manual: Option<int>, elapsed: Option<int>) -> Seq<char> {
    match manual {
        Some(m) => hours_text(m),
        None => match elapsed {
            Some(e) => if plausible(e) {
                hours_text(e)
            } else {
                "unfinished"@
            },
            None => "?"@,
        },
    }
}

/// The time worked in a session of `session` seconds: "HH:MM" where it is plausible, else
/// "Not finished"; "Not started" where the session has no start.
pub open spec fn worked_label_text(session: Option<int>) -> Seq<char> {
    match session {
        Some(d) => if plausible(d) {
            session_text(d)
        } else {
            "Not finished"@
        },
        None => "Not started"@,
    }
}

/// Renders the hours shown for a session from the hours entered by hand, where they read, and
/// the time from start to end, where the date-times read.
pub fn hours_label(manual: Option<Hours>, elapsed: Option<Hours>) -> (r: String)
    ensures
        r@ == hours_label_text(
            match manual {
                Some(h) => Some(h@),
                None => None,
            },
            match elapsed {
                Some(h) => Some(h@),
                None => None,
            },
        ),
{
    match manual {
        Some(h) => h.to_string(),
        None => match elapsed {
            Some(h) => {
                if h.seconds > 0 && h.seconds < MAX_SECONDS as i128 {
                    h.to_string()
                } else {
                    "unfinished".to_string()
                }
            },
            None => "?".to_string(),
        },
    }
}

/// Renders the time worked in a session of `session` seconds, `None` where it has no start.
pub fn worked_label(session: Option<i64>) -> (r: String)
    ensures
        r@ == worked_label_text(
            match session {
                Some(d) => Some(d as int),
                None => None,
            },
        ),
{
    match session {
        Some(d) => {
            if d > 0 && d < MAX_SECONDS {
                let mut out = String::new();
                push_padded(&mut out, ((d / 3600) % 24) as i128, 2);
                out.append(":");
                push_padded(&mut out, ((d / 60) % 60) as i128, 2);
                assert(out@ =~= session_text(d as int));
                out
            } else {
                "Not finished".to_string()
            }
        },
        None => "Not started".to_string(),
    }
}

impl HoursRecord {
    pub open spec fn period_of(self) -> Period {
        Period { year: self.year, month: self.month }
    }

    pub open spec fn start_stamp(self) -> Option<Timestamp> {
        timestamp_of(self.start@)
    }

    pub open spec fn end_stamp(self) -> Option<Timestamp> {
        timestamp_of(self.end@)
    }

    /// The seconds from start to end, where both read as date-times.
    pub open spec fn elapsed(self) -> Option<int> {
        match (self.end_stamp(), self.start_stamp()) {
            (Some(e), Some(s)) => Some(seconds_between(e, s)),
            _ => None,
        }
    }

    /// The hours entered by hand, in seconds, where they read as a decimal number.
    pub open spec fn manual_seconds(self) -> Option<int> {
        decimal_seconds(self.hours@)
    }

    /// The seconds that the session counts for: the hours entered by hand, else the time from
    /// start to end, else nothing.
    pub open spec fn counted_seconds(self) -> int {
        match self.manual_seconds() {
            Some(m) => m,
            None => match self.elapsed() {
                Some(e) => e,
                None => 0,
            },
        }
    }

    /// The hours shown for the session.
    pub open spec fn shown_hours(self) -> Seq<char> {
        hours_label_text(self.manual_seconds(), self.elapsed())
    }

    /// The seconds from start to end, reading `now` as the end while the end is not a
    /// date-time.
    pub open spec fn session_seconds(self, now: Timestamp) -> Option<int> {
        match self.start_stamp() {
            Some(s) => Some(
                seconds_between(
                    match self.end_stamp() {
                        Some(e) => e,
                        None => now,
                    },
                    s,
                ),
            ),
            None => None,
        }
    }

    pub open spec fn finished_at_spec(self, now: Timestamp) -> bool {
        match self.session_seconds(now) {
            Some(d) => plausible(d),
            None => false,
        }
    }

    pub open spec fn worked_text(self, now: Timestamp) -> Seq<char> {
        worked_label_text(self.session_seconds(now))
    }

    pub fn new(
        index: isize,
        rowid: isize,
        name: String,
        year: i32,
        month: u32,
        start: String,
        end: String,
        hours: String,
    ) -> (r: HoursRecord)
        ensures
            r == (HoursRecord { index, rowid, name, year, month, start, end, hours }),
    {
        HoursRecord { index, rowid, name, year, month, start, end, hours }
    }

    pub fn period(&self) -> (r: Period)
        ensures
            r == self.period_of(),
    {
        Period::new(self.year, self.month)
    }

    pub fn start_dt(&self) -> (r: Result<Timestamp, HoursError>)
        ensures
            r == (match self.start_stamp() {
                Some(t) => Ok(t),
                None => Err(HoursError::Parse),
            }),
            r matches Ok(t) ==> t.wf(),
    {
        match parse_timestamp(self.start.as_str()) {
            Some(t) => Ok(t),
            None => Err(HoursError::Parse),
        }
    }

    pub fn end_dt(&self) -> (r: Result<Timestamp, HoursError>)
        ensures
            r == (match self.end_stamp() {
                Some(t) => Ok(t),
                None => Err(HoursError::Parse),
            }),
            r matches Ok(t) ==> t.wf(),
    {
        match parse_timestamp(self.end.as_str()) {
            Some(t) => Ok(t),
            None => Err(HoursError::Parse),
        }
    }

    /// The time from start to end; it fails where either is not a date-time.
    pub fn calculate_hours(&self) -> (r: Result<Hours, HoursError>)
        ensures
            r matches Ok(h) ==> self.elapsed() == Some(h@),
            r is Err <==> self.elapsed() is None,
            r matches Err(e) ==> e == HoursError::Parse,
            r matches Ok(h) ==> -record_seconds_limit() <= h@ <= record_seconds_limit(),
    {
        let end = match self.end_dt() {
            Ok(t) => t,
            Err(e) => {
                return Err(e);
            },
        };
        let start = match self.start_dt() {
            Ok(t) => t,
            Err(e) => {
                return Err(e);
            },
        };
        match elapsed_seconds(&end, &start) {
            Some(s) => Ok(Hours::from_seconds(s as i128)),
            None => Err(HoursError::Parse),
        }
    }

    /// The time from start to end as "HH:MM", or "-".
    pub fn original_hours(&self) -> (r: String)
        ensures
            r@ == (match self.elapsed() {
                Some(e) => hours_text(e),
                None => "-"@,
            }),
    {
        match self.calculate_hours() {
            Ok(h) => h.to_string(),
            Err(_) => "-".to_string(),
        }
    }

    /// The hours shown for the session: those entered by hand, else the time from start to end
    /// where it is a plausible session, else "unfinished", or "?" where the date-times do not
    /// read.
    pub fn hours(&self) -> (r: String)
        ensures
            r@ == self.shown_hours(),
    {
        let manual = Hours::parse(self.hours.as_str());
        let elapsed = match self.calculate_hours() {
            Ok(h) => Some(h),
            Err(_) => None,
        };
        hours_label(manual, elapsed)
    }

    /// The hours that the session counts for.
    pub fn hours_worked(&self) -> (r: Hours)
        ensures
            r@ == self.counted_seconds(),
            -record_seconds_limit() <= r@ <= record_seconds_limit(),
    {
        if let Some(h) = Hours::parse(self.hours.as_str()) {
            h
        } else {
            match self.calculate_hours() {
                Ok(h) => h,
                Err(_) => Hours::zero(),
            }
        }
    }

    /// The start date as "YYYY/MM/DD", or "?".
    pub fn date(&self) -> (r: String)
        ensures
            r@ == (match self.start_stamp() {
                Some(t) => t.date_text(),
                None => "?"@,
            }),
    {
        match self.start_dt() {
            Ok(t) => t.date_string(),
            Err(_) => "?".to_string(),
        }
    }

    /// The start time as "HH:MM", or nothing.
    pub fn start_time(&self) -> (r: String)
        ensures
            r@ == (match self.start_stamp() {
                Some(t) => t.clock_text(),
                None => Seq::empty(),
            }),
    {
        match self.start_dt() {
            Ok(t) => t.clock_string(),
            Err(_) => String::new(),
        }
    }

    /// The end time as "HH:MM", or nothing.
    pub fn end_time(&self) -> (r: String)
        ensures
            r@ == (match self.end_stamp() {
                Some(t) => t.clock_text(),
                None => Seq::empty(),
            }),
    {
        match self.end_dt() {
            Ok(t) => t.clock_string(),
            Err(_) => String::new(),
        }
    }

    /// The seconds from start to end, with `now` standing in for an end that is not a
    /// date-time.
    fn session_seconds_at(&self, now: &Timestamp) -> (r: Option<i64>)
        requires
            now.wf(),
        ensures
            r matches Some(d) ==> self.session_seconds(*now) == Some(d as int),
            r is None <==> self.session_seconds(*now) is None,
    {
        let start = match self.start_dt() {
            Ok(t) => t,
            Err(_) => {
                return None;
            },
        };
        let end = match self.end_dt() {
            Ok(t) => t,
            Err(_) => *now,
        };
        elapsed_seconds(&end, &start)
    }

    /// Whether the session lasted a plausible time, with `now` as its end while it is open.
    pub fn finished_at(&self, now: &Timestamp) -> (r: bool)
        requires
            now.wf(),
        ensures
            r == self.finished_at_spec(*now),
    {
        match self.session_seconds_at(now) {
            Some(d) => d > 0 && d < MAX_SECONDS,
            None => false,
        }
    }

    /// Whether the session lasted a plausible time, with the present as its end while it is
    /// open.
    pub fn finished(&self) -> (r: bool)
        ensures
            exists|now: Timestamp| now.wf() && r == self.finished_at_spec(now),
    {
        let now = now_local();
        self.finished_at(&now)
    }

    /// The time worked as "HH:MM", "Not finished" or "Not started", with `now` as the end while
    /// the session is open.
    pub fn worked_at(&self, now: &Timestamp) -> (r: String)
        requires
            now.wf(),
        ensures
            r@ == self.worked_text(*now),
    {
        worked_label(self.session_seconds_at(now))
    }

    /// The time worked as "HH:MM", "Not finished" or "Not started", with the present as the end
    /// while the session is open.
    pub fn worked(&self) -> (r: String)
        ensures
            exists|now: Timestamp| now.wf() && r@ == self.worked_text(now),
    {
        let now = now_local();
        self.worked_at(&now)
    }
}

} // verus!
