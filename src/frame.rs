//! The table of sessions, and the questions asked of it per person and month.
use crate::hours::{record_seconds_limit, Hours};
use crate::period::{period_before, Period};
use crate::record::{HoursRecord, Schema};
use crate::timestamp::{now_local, Timestamp};
use vstd::prelude::*;

verus! {

/// All sessions, in the order in which they were started, with the description of the table.
#[derive(Debug)]
pub struct HoursDataFrame {
    pub schema: Schema,
    pub data: Vec<HoursRecord>,
}

/// Whether a session belongs to the person `name` and the month `period`.
pub open spec fn belongs_to(r: HoursRecord, name: Seq<char>, period: Period) -> bool {
    r.period_of() == period && r.name@ == name
}

/// The sessions of `data` that belong to `name` in `period`, in their order.
pub open spec fn entries_for(data: Seq<HoursRecord>, name: Seq<char>, period: Period) -> Seq<
    HoursRecord,
>
    decreases data.len(),
{
    if data.len() == 0 {
        Seq::empty()
    } else {
        let rest = entries_for(data.drop_last(), name, period);
        if belongs_to(data.last(), name, period) {
            rest.push(data.last())
        } else {
            rest
        }
    }
}

/// The seconds that a sequence of sessions counts for, in all.
pub open spec fn counted_total(entries: Seq<HoursRecord>) -> int
    decreases entries.len(),
{
    if entries.len() == 0 {
        0
    } else {
        counted_total(entries.drop_last()) + entries.last().counted_seconds()
    }
}

/// What the status of a person in a month reads: the time worked in the latest of their
/// sessions, or " - " where there is none.
pub open spec fn status_text(entries: Seq<HoursRecord>, now: Timestamp) -> Seq<char> {
    if entries.len() == 0 {
        " - "@
    } else {
        entries.last().worked_text(now)
    }
}

/// The period from which the search for the earliest one starts: later than any real month.
pub open spec fn no_first_period() -> Period {
    Period { year: 9999, month: 99 }
}

/// The period from which the search for the latest one starts: earlier than any real month.
pub open spec fn no_last_period() -> Period {
    Period { year: 0, month: 0 }
}

proof fn lemma_entries_step(data: Seq<HoursRecord>, i: int, name: Seq<char>, period: Period)
    requires
        0 <= i < data.len(),
    ensures
        entries_for(data.take(i + 1), name, period) == (if belongs_to(data[i], name, period) {
            entries_for(data.take(i), name, period).push(data[i])
        } else {
            entries_for(data.take(i), name, period)
        }),
{
    assert(data.take(i + 1).drop_last() =~= data.take(i));
    assert(data.take(i + 1).last() == data[i]);
}

impl Clone for HoursDataFrame {
    fn clone(&self) -> (r: HoursDataFrame)
        ensures
            r.schema.same_as(self.schema),
            r.data@ == self.data@,
    {
        let data = self.data.clone();
        assert(data@ =~= self.data@);
        HoursDataFrame { schema: self.schema.clone(), data }
    }
}

impl Default for HoursDataFrame {
    fn default() -> (r: HoursDataFrame)
        ensures
            r.schema.is_standard(),
            r.data@.len() == 0,
    {
        HoursDataFrame::new()
    }
}

impl HoursDataFrame {
    /// An empty table with the standard description.
    pub fn new() -> (r: HoursDataFrame)
        ensures
            r.schema.is_standard(),
            r.data@.len() == 0,
    {
        HoursDataFrame { schema: Schema::default(), data: Vec::new() }
    }

    /// The sessions of `name` in `period`, in their order, under the same description.
    pub fn for_period(&self, name: &str, period: &Period) -> (r: HoursDataFrame)
        ensures
            r.schema.same_as(self.schema),
            r.data@ == entries_for(self.data@, name@, *period),
    {
        let wanted = name.to_string();
        let mut data: Vec<HoursRecord> = Vec::new();
        let mut i: usize = 0;
        while i < self.data.len()
            invariant
                i <= self.data@.len(),
                wanted@ == name@,
                data@ == entries_for(self.data@.take(i as int), name@, *period),
            decreases self.data@.len() - i,
        {
            proof {
                lemma_entries_step(self.data@, i as int, name@, *period);
            }
            let r = &self.data[i];
            if r.period() == *period && r.name == wanted {
                data.push(r.clone());
            }
            i = i + 1;
        }
        assert(self.data@.take(i as int) =~= self.data@);
        HoursDataFrame { schema: self.schema.clone(), data }
    }

    /// The hours that the sessions of `name` in `period` count for, in all.
    pub fn hours_for_period(&self, name: &str, period: &Period) -> (r: Hours)
        ensures
            r@ == counted_total(entries_for(self.data@, name@, *period)),
    {
        let wanted = name.to_string();
        let mut total = Hours::zero();
        let mut i: usize = 0;
        let ghost limit = record_seconds_limit();
        while i < self.data.len()
            invariant
                i <= self.data@.len(),
                wanted@ == name@,
                limit == record_seconds_limit(),
                total@ == counted_total(entries_for(self.data@.take(i as int), name@, *period)),
                -(i * limit) <= total@ <= i * limit,
            decreases self.data@.len() - i,
        {
            proof {
                lemma_entries_step(self.data@, i as int, name@, *period);
            }
            let r = &self.data[i];
            if r.period() == *period && r.name == wanted {
                let h = r.hours_worked();
                let ghost before = total@;
                let ghost es = entries_for(self.data@.take(i as int), name@, *period);
                assert(es.push(self.data@[i as int]).drop_last() =~= es);
                assert(-((i + 1) * limit) <= before + h@ <= (i + 1) * limit) by (nonlinear_arith)
                    requires
                        -(i * limit) <= before <= i * limit,
                        -limit <= h@ <= limit,
                ;
                assert((i + 1) * limit <= 0x1_0000_0000_0000_0000 * 0x40_0000_0000_0000)
                    by (nonlinear_arith)
                    requires
                        i < 0x1_0000_0000_0000_0000,
                        limit == 0x40_0000_0000_0000,
                ;
                total = total.add(h);
            } else {
                assert(i * limit <= (i + 1) * limit) by (nonlinear_arith)
                    requires
                        limit >= 0,
                ;
            }
            i = i + 1;
        }
        assert(self.data@.take(i as int) =~= self.data@);
        total
    }

    /// The time worked in the latest session of `name` in `period`, with `now` as the end of a
    /// session still open, or " - " where there is none.
    pub fn status_for_period_at(&self, name: &str, period: &Period, now: &Timestamp) -> (r:
        String)
        requires
            now.wf(),
        ensures
            r@ == status_text(entries_for(self.data@, name@, *period), *now),
    {
        let wanted = name.to_string();
        let mut latest: Option<usize> = None;
        let mut i: usize = 0;
        while i < self.data.len()
            invariant
                i <= self.data@.len(),
                wanted@ == name@,
                latest matches Some(j) ==> j < i && entries_for(
                    self.data@.take(i as int),
                    name@,
                    *period,
                ).len() > 0 && entries_for(self.data@.take(i as int), name@, *period).last()
                    == self.data@[j as int],
                latest is None ==> entries_for(self.data@.take(i as int), name@, *period).len()
                    == 0,
            decreases self.data@.len() - i,
        {
            proof {
                lemma_entries_step(self.data@, i as int, name@, *period);
            }
            let r = &self.data[i];
            if r.period() == *period && r.name == wanted {
                latest = Some(i);
            }
            i = i + 1;
        }
        assert(self.data@.take(i as int) =~= self.data@);
        match latest {
            Some(j) => self.data[j].worked_at(now),
            None => " - ".to_string(),
        }
    }

    /// The time worked in the latest session of `name` in `period`, with the present as the end
    /// of a session still open, or " - " where there is none.
    pub fn status_for_period(&self, name: &str, period: &Period) -> (r: String)
        ensures
            exists|now: Timestamp|
                now.wf() && r@ == status_text(entries_for(self.data@, name@, *period), now),
    {
        let now = now_local();
        self.status_for_period_at(name, period, &now)
    }

    /// The earliest month of any session; (9999, 99) where none is earlier than that, as in an
    /// empty table.
    pub fn first_period(&self) -> (r: Period)
        ensures
            r == no_first_period() || period_before(r, no_first_period()),
            forall|i: int|
                0 <= i < self.data@.len() ==> !period_before(
                    #[trigger] self.data@[i].period_of(),
                    r,
                ),
            r == no_first_period() || exists|i: int|
                0 <= i < self.data@.len() && #[trigger] self.data@[i].period_of() == r,
            self.data@.len() == 0 ==> r == no_first_period(),
    {
        let mut min = Period::new(9999, 99);
        let mut i: usize = 0;
        while i < self.data.len()
            invariant
                i <= self.data@.len(),
                min == no_first_period() || period_before(min, no_first_period()),
                forall|k: int|
                    0 <= k < i ==> !period_before(#[trigger] self.data@[k].period_of(), min),
                min == no_first_period() || exists|k: int|
                    0 <= k < i && #[trigger] self.data@[k].period_of() == min,
            decreases self.data@.len() - i,
        {
            let p = self.data[i].period();
            if p < min {
                min = p;
            }
            i = i + 1;
        }
        min
    }

    /// The latest month of any session; (0, 0) where none is later than that, as in an empty
    /// table.
    pub fn last_period(&self) -> (r: Period)
        ensures
            r == no_last_period() || period_before(no_last_period(), r),
            forall|i: int|
                0 <= i < self.data@.len() ==> !period_before(
                    r,
                    #[trigger] self.data@[i].period_of(),
                ),
            r == no_last_period() || exists|i: int|
                0 <= i < self.data@.len() && #[trigger] self.data@[i].period_of() == r,
            self.data@.len() == 0 ==> r == no_last_period(),
    {
        let mut max = Period::new(0, 0);
        let mut i: usize = 0;
        while i < self.data.len()
            invariant
                i <= self.data@.len(),
                max == no_last_period() || period_before(no_last_period(), max),
                forall|k: int|
                    0 <= k < i ==> !period_before(max, #[trigger] self.data@[k].period_of()),
                max == no_last_period() || exists|k: int|
                    0 <= k < i && #[trigger] self.data@[k].period_of() == max,
            decreases self.data@.len() - i,
        {
            let p = self.data[i].period();
            if p > max {
                max = p;
            }
            i = i + 1;
        }
        max
    }
}

} // verus!
