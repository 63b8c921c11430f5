//! The sessions together with the roster of people: starting and ending sessions.
use crate::frame::HoursDataFrame;
use crate::record::{HoursError, HoursRecord};
use crate::timestamp::{now_local, Timestamp};
use vstd::prelude::*;

verus! {

/// The roster: the people that sessions are kept for, in the order chosen for them.
pub type Names = Vec<String>;

/// Everything that is kept: the table of sessions and the roster.
#[derive(Debug)]
pub struct HoursData {
    pub dataframe: HoursDataFrame,
    pub names: Names,
}

/// The position of the latest open session of `name`.
pub open spec fn last_open(data: Seq<HoursRecord>, name: Seq<char>) -> Option<int>
    decreases data.len(),
{
    if data.len() == 0 {
        None
    } else if data.last().name@ == name && data.last().end@.len() == 0 {
        Some(data.len() - 1)
    } else {
        last_open(data.drop_last(), name)
    }
}

/// Whether the latest session of `name` is still open.
pub open spec fn latest_is_open(data: Seq<HoursRecord>, name: Seq<char>) -> bool
    decreases data.len(),
{
    if data.len() == 0 {
        false
    } else if data.last().name@ == name {
        data.last().end@.len() == 0
    } else {
        latest_is_open(data.drop_last(), name)
    }
}

/// Whether `r` is the session opened for `name` at `now` as entry number `idx`.
pub open spec fn opened(r: HoursRecord, idx: int, name: Seq<char>, now: Timestamp) -> bool {
    &&& r.index == idx
    &&& r.rowid == idx
    &&& r.name@ == name
    &&& r.year == now.year
    &&& r.month == now.month
    &&& r.start@ == now.text()
    &&& r.end@.len() == 0
    &&& r.hours@.len() == 0
}

/// Whether `after` is session `before` closed at `now`, its hours left to the date-times.
pub open spec fn closed(before: HoursRecord, after: HoursRecord, now: Timestamp) -> bool {
    &&& after.index == before.index
    &&& after.rowid == before.rowid
    &&& after.name == before.name
    &&& after.year == before.year
    &&& after.month == before.month
    &&& after.start == before.start
    &&& after.end@ == now.text()
    &&& after.hours@.len() == 0
}

/// Whether `after` is `before` with a session for `name` opened at `now` at the end.
pub open spec fn started_from(
    before: HoursData,
    after: HoursData,
    name: Seq<char>,
    now: Timestamp,
) -> bool {
    let old_data = before.dataframe.data@;
    let new_data = after.dataframe.data@;
    &&& after.names == before.names
    &&& after.dataframe.schema == before.dataframe.schema
    &&& new_data.len() == old_data.len() + 1
    &&& new_data.drop_last() == old_data
    &&& opened(new_data.last(), old_data.len() as int, name, now)
}

/// Whether `after` and `outcome` are what ending the session of `name` at `now` makes of
/// `before`: the latest open session of `name` closed, or nothing changed and `NotFound`.
pub open spec fn ended_from(
    before: HoursData,
    after: HoursData,
    name: Seq<char>,
    now: Timestamp,
    outcome: Result<(), HoursError>,
) -> bool {
    let old_data = before.dataframe.data@;
    let new_data = after.dataframe.data@;
    match last_open(old_data, name) {
        None => outcome == Err::<(), HoursError>(HoursError::NotFound) && after == before,
        Some(i) => {
            &&& outcome == Ok::<(), HoursError>(())
            &&& after.names == before.names
            &&& after.dataframe.schema == before.dataframe.schema
            &&& new_data.len() == old_data.len()
            &&& forall|j: int| 0 <= j < old_data.len() && j != i ==> new_data[j] == old_data[j]
            &&& closed(old_data[i], new_data[i], now)
        },
    }
}

proof fn lemma_last_open_in_range(data: Seq<HoursRecord>, name: Seq<char>)
    ensures
        last_open(data, name) matches Some(i) ==> 0 <= i < data.len() && data[i].name@ == name
            && data[i].end@.len() == 0,
    decreases data.len(),
{
    if data.len() > 0 {
        lemma_last_open_in_range(data.drop_last(), name);
    }
}

/// After a session for `name` is opened at the end of `data`, the latest open session of `name`
/// is that one.
proof fn lemma_last_open_after_push(data: Seq<HoursRecord>, r: HoursRecord, name: Seq<char>)
    requires
        r.name@ == name,
        r.end@.len() == 0,
    ensures
        last_open(data.push(r), name) == Some(data.len() as int),
{
    assert(data.push(r).last() == r);
}

/// Where no session of `data` is open for `name`, none is found.
proof fn lemma_none_open(data: Seq<HoursRecord>, name: Seq<char>)
    requires
        forall|j: int|
            0 <= j < data.len() ==> !((#[trigger] data[j]).name@ == name && data[j].end@.len()
                == 0),
    ensures
        last_open(data, name) is None,
    decreases data.len(),
{
    if data.len() > 0 {
        let d = data.drop_last();
        assert forall|j: int| 0 <= j < d.len() implies !((#[trigger] d[j]).name@ == name
            && d[j].end@.len() == 0) by {
            assert(d[j] == data[j]);
        }
        lemma_none_open(d, name);
    }
}

impl Default for HoursData {
    fn default() -> (r: HoursData)
        ensures
            r.dataframe.schema.is_standard(),
            r.dataframe.data@.len() == 0,
            r.names@.len() == 0,
    {
        HoursData { dataframe: HoursDataFrame::new(), names: Vec::new() }
    }
}

impl HoursData {
    /// Opens a session for `name` at `now`, at the end of the table. An open session of `name`
    /// does not prevent another.
    pub fn start_at(&mut self, name: &str, now: &Timestamp)
        requires
            old(self).dataframe.data@.len() < isize::MAX,
        ensures
            started_from(*old(self), *final(self), name@, *now),
    {
        let index = self.dataframe.data.len() as isize;
        let record = HoursRecord::new(
            index,
            index,
            name.to_string(),
            now.year,
            now.month,
            now.to_text(),
            String::new(),
            String::new(),
        );
        let ghost before = self.dataframe.data@;
        self.dataframe.data.push(record);
        assert(self.dataframe.data@.drop_last() =~= before);
    }

    /// Opens a session for `name` at the present local time.
    pub fn start(&mut self, name: &str)
        requires
            old(self).dataframe.data@.len() < isize::MAX,
        ensures
            exists|now: Timestamp| now.wf() && started_from(*old(self), *final(self), name@, now),
    {
        let now = now_local();
        self.start_at(name, &now);
    }

    /// Closes the latest open session of `name` at `now`; fails with `NotFound` where `name`
    /// has none.
    pub fn end_at(&mut self, name: &str, now: &Timestamp) -> (r: Result<(), HoursError>)
        ensures
            ended_from(*old(self), *final(self), name@, *now, r),
    {
        let wanted = name.to_string();
        let mut found: Option<usize> = None;
        let mut i: usize = 0;
        while i < self.dataframe.data.len()
            invariant
                i <= self.dataframe.data@.len(),
                wanted@ == name@,
                found matches Some(j) ==> last_open(self.dataframe.data@.take(i as int), name@)
                    == Some(j as int),
                found is None ==> last_open(self.dataframe.data@.take(i as int), name@) is None,
            decreases self.dataframe.data@.len() - i,
        {
            let ghost data = self.dataframe.data@;
            assert(data.take(i + 1).drop_last() =~= data.take(i as int));
            assert(data.take(i + 1).last() == data[i as int]);
            let r = &self.dataframe.data[i];
            if r.name == wanted && r.end.as_str().is_empty() {
                found = Some(i);
            }
            i = i + 1;
        }
        assert(self.dataframe.data@.take(i as int) =~= self.dataframe.data@);
        match found {
            None => Err(HoursError::NotFound),
            Some(j) => {
                proof {
                    lemma_last_open_in_range(self.dataframe.data@, name@);
                }
                let end = now.to_text();
                self.dataframe.data[j].end = end;
                self.dataframe.data[j].hours = String::new();
                Ok(())
            },
        }
    }

    /// Closes the latest open session of `name` at the present local time; fails with
    /// `NotFound` where `name` has none.
    pub fn end(&mut self, name: &str) -> (r: Result<(), HoursError>)
        ensures
            exists|now: Timestamp| now.wf() && ended_from(*old(self), *final(self), name@, now, r),
    {
        let now = now_local();
        self.end_at(name, &now)
    }

    /// Whether the latest session of `name` is still open.
    pub fn is_started(&self, name: &str) -> (r: bool)
        ensures
            r == latest_is_open(self.dataframe.data@, name@),
    {
        let wanted = name.to_string();
        let mut started = false;
        let mut i: usize = 0;
        while i < self.dataframe.data.len()
            invariant
                i <= self.dataframe.data@.len(),
                wanted@ == name@,
                started == latest_is_open(self.dataframe.data@.take(i as int), name@),
            decreases self.dataframe.data@.len() - i,
        {
            let ghost data = self.dataframe.data@;
            assert(data.take(i + 1).drop_last() =~= data.take(i as int));
            assert(data.take(i + 1).last() == data[i as int]);
            let r = &self.dataframe.data[i];
            if r.name == wanted {
                started = r.end.as_str().is_empty();
            }
            i = i + 1;
        }
        assert(self.dataframe.data@.take(i as int) =~= self.dataframe.data@);
        started
    }
}

/// Starting a session for a person with no sessions and then ending one leaves exactly one
/// session of that person, with an end; ending once more then fails with `NotFound`.
pub proof fn lemma_start_then_end(
    d0: HoursData,
    d1: HoursData,
    d2: HoursData,
    d3: HoursData,
    name: Seq<char>,
    t1: Timestamp,
    t2: Timestamp,
    t3: Timestamp,
    r2: Result<(), HoursError>,
    r3: Result<(), HoursError>,
)
    requires
        forall|j: int|
            0 <= j < d0.dataframe.data@.len() ==> (#[trigger] d0.dataframe.data@[j]).name@
                != name,
        started_from(d0, d1, name, t1),
        ended_from(d1, d2, name, t2, r2),
        ended_from(d2, d3, name, t3, r3),
    ensures
        r2 is Ok,
        d2.dataframe.data@.len() == d0.dataframe.data@.len() + 1,
        forall|j: int|
            0 <= j < d2.dataframe.data@.len() && (#[trigger] d2.dataframe.data@[j]).name@ == name
                ==> j == d0.dataframe.data@.len(),
        d2.dataframe.data@.last().name@ == name,
        d2.dataframe.data@.last().end@.len() > 0,
        r3 == Err::<(), HoursError>(HoursError::NotFound),
{
    let data0 = d0.dataframe.data@;
    let data1 = d1.dataframe.data@;
    let data2 = d2.dataframe.data@;
    let n = data0.len() as int;
    assert(data1 =~= data0.push(data1.last()));
    lemma_last_open_after_push(data0, data1.last(), name);
    assert(data2[n].end@ == t2.text());
    assert(t2.text().len() > 0);
    assert forall|j: int| 0 <= j < data2.len() && (#[trigger] data2[j]).name@ == name implies j
        == n by {
        if j < n {
            assert(data2[j] == data1[j]);
            assert(data1[j] == data0[j]);
        }
    }
    assert forall|j: int| 0 <= j < data2.len() implies !((#[trigger] data2[j]).name@ == name
        && data2[j].end@.len() == 0) by {
        if j < n {
            assert(data2[j] == data1[j]);
            assert(data1[j] == data0[j]);
        }
    }
    lemma_none_open(data2, name);
}

} // verus!
