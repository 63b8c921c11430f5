//! Calendar months: the unit in which hours are grouped and reported.
use crate::text::{padded, push_padded};
use crate::timestamp::{now_local, Timestamp};
use core::cmp::Ordering;
use vstd::prelude::*;

verus! {

/// A month of a year. Months are meant to run from 1 to 12; nothing here enforces it.
#[derive(Clone, Copy, Debug, PartialEq, Eq, Structural, Hash, Default, Ord)]
pub struct Period {
    pub year: i32,
    pub month: u32,
}

/// How two periods compare: by year, then by month.
pub open spec fn period_order(a: Period, b: Period) -> Ordering {
    if a.year < b.year {
        Ordering::Less
    } else if a.year > b.year {
        Ordering::Greater
    } else if a.month < b.month {
        Ordering::Less
    } else if a.month > b.month {
        Ordering::Greater
    } else {
        Ordering::Equal
    }
}

/// Whether period `a` comes strictly before period `b`.
pub open spec fn period_before(a: Period, b: Period) -> bool {
    a.year < b.year || (a.year == b.year && a.month < b.month)
}

impl PartialOrd for Period {
    fn partial_cmp(&self, other: &Period) -> (r: Option<Ordering>)
        ensures
            r == Some(period_order(*self, *other)),
    {
        if self.year < other.year {
            Some(Ordering::Less)
        } else if self.year > other.year {
            Some(Ordering::Greater)
        } else if self.month < other.month {
            Some(Ordering::Less)
        } else if self.month > other.month {
            Some(Ordering::Greater)
        } else {
            Some(Ordering::Equal)
        }
    }
}

impl vstd::std_specs::cmp::PartialOrdSpecImpl for Period {
    open spec fn obeys_partial_cmp_spec() -> bool {
        true
    }

    open spec fn partial_cmp_spec(&self, other: &Period) -> Option<Ordering> {
        Some(period_order(*self, *other))
    }
}

impl Period {
    /// The month after this one; December rolls over into January of the next year.
    pub open spec fn following(self) -> Period {
        if self.month == 12 {
            Period { year: (self.year + 1) as i32, month: 1 }
        } else {
            Period { year: self.year, month: (self.month + 1) as u32 }
        }
    }

    /// The month before this one; January rolls back into December of the year before.
    pub open spec fn preceding(self) -> Period {
        if self.month == 1 {
            Period { year: (self.year - 1) as i32, month: 12 }
        } else {
            Period { year: self.year, month: (self.month - 1) as u32 }
        }
    }

    /// The month in which a date-time falls.
    pub open spec fn of_spec(t: Timestamp) -> Period {
        Period { year: t.year, month: t.month }
    }

    /// "YYYY/MM".
    pub open spec fn text(self) -> Seq<char> {
        padded(self.year as int, 4) + "/"@ + padded(self.month as int, 2)
    }

    pub fn new(year: i32, month: u32) -> (r: Period)
        ensures
            r.year == year,
            r.month == month,
    {
        Period { year, month }
    }

    /// The month in which a date-time falls.
    pub fn of(t: &Timestamp) -> (r: Period)
        ensures
            r == Period::of_spec(*t),
    {
        Period { year: t.year, month: t.month }
    }

    /// The month that the local clock shows now.
    pub fn current() -> (r: Period)
        ensures
            exists|now: Timestamp| now.wf() && r == Period::of_spec(now),
            1 <= r.month <= 12,
    {
        let now = now_local();
        Period::of(&now)
    }

    pub fn next(&self) -> (r: Period)
        requires
            self.month != 12 || self.year < i32::MAX,
            self.month < u32::MAX,
        ensures
            r == self.following(),
    {
        if self.month == 12 {
            Period::new(self.year + 1, 1)
        } else {
            Period::new(self.year, self.month + 1)
        }
    }

    pub fn previous(&self) -> (r: Period)
        requires
            self.month != 1 || self.year > i32::MIN,
            self.month > 0,
        ensures
            r == self.preceding(),
    {
        if self.month == 1 {
            Period::new(self.year - 1, 12)
        } else {
            Period::new(self.year, self.month - 1)
        }
    }

    /// Renders the period as "YYYY/MM".
    pub fn to_string(&self) -> (r: String)
        ensures
            r@ == self.text(),
    {
        let mut out = String::new();
        push_padded(&mut out, self.year as i128, 4);
        out.append("/");
        push_padded(&mut out, self.month as i128, 2);
        assert(out@ =~= self.text());
        out
    }
}

/// For a month from 1 to 12, stepping forward and then back returns the same period,
/// across the turn of a year too.
pub proof fn lemma_next_then_previous(p: Period)
    requires
        1 <= p.month <= 12,
        p.month != 12 || p.year < i32::MAX,
    ensures
        p.following().month != 1 || p.following().year > i32::MIN,
        p.following().month > 0,
        p.following().preceding() == p,
{
}

/// For a month from 1 to 12, stepping back and then forward returns the same period,
/// across the turn of a year too.
pub proof fn lemma_previous_then_next(p: Period)
    requires
        1 <= p.month <= 12,
        p.month != 1 || p.year > i32::MIN,
    ensures
        p.preceding().month != 12 || p.preceding().year < i32::MAX,
        p.preceding().month < u32::MAX,
        p.preceding().following() == p,
{
}

/// Periods are ordered by year, then by month: a total order in which `a < b` holds exactly when
/// `a`'s year is earlier, or the years agree and `a`'s month is earlier.
pub proof fn lemma_order_is_lexicographic(a: Period, b: Period, c: Period)
    ensures
        (period_order(a, b) == Ordering::Less) <==> period_before(a, b),
        (period_order(a, b) == Ordering::Greater) <==> period_before(b, a),
        (period_order(a, b) == Ordering::Equal) <==> a == b,
        period_before(a, b) && period_before(b, c) ==> period_before(a, c),
        period_before(a, b) || period_before(b, a) || a == b,
{
}

} // verus!
