use hourrs_classic::frame::HoursDataFrame;
use hourrs_classic::record::{hours_label, worked_label};
use hourrs_classic::{Field, Hours, HoursData, HoursError, HoursRecord, Mode, Period, Schema, Timestamp};
use std::cmp::Ordering;

fn stamp(year: i32, month: u32, day: u32, hour: u32, minute: u32, second: u32) -> Timestamp {
    Timestamp { year, month, day, hour, minute, second, nanosecond: 0 }
}

fn record(name: &str, year: i32, month: u32, start: &str, end: &str, hours: &str) -> HoursRecord {
    HoursRecord::new(
        0,
        0,
        name.to_string(),
        year,
        month,
        start.to_string(),
        end.to_string(),
        hours.to_string(),
    )
}

#[test]
fn next_then_previous_returns_the_period() {
    for year in [-3, 0, 1999, 2024] {
        for month in 1..=12u32 {
            let p = Period::new(year, month);
            assert_eq!(p.next().previous(), p);
            assert_eq!(p.previous().next(), p);
        }
    }
}

#[test]
fn next_and_previous_cross_the_year() {
    assert_eq!(Period::new(2023, 12).next(), Period::new(2024, 1));
    assert_eq!(Period::new(2024, 1).previous(), Period::new(2023, 12));
    assert_eq!(Period::new(2024, 5).next(), Period::new(2024, 6));
    assert_eq!(Period::new(2024, 5).previous(), Period::new(2024, 4));
}

#[test]
fn periods_order_by_year_then_month() {
    let a = Period::new(2023, 12);
    let b = Period::new(2024, 1);
    let c = Period::new(2024, 2);
    assert!(a < b);
    assert!(b < c);
    assert!(c > a);
    assert_eq!(a.partial_cmp(&b), Some(Ordering::Less));
    assert_eq!(b.partial_cmp(&b), Some(Ordering::Equal));
    assert_eq!(Period::new(2025, 1).partial_cmp(&Period::new(2024, 12)), Some(Ordering::Greater));
    assert_eq!(a.cmp(&b), Ordering::Less);
}

#[test]
fn period_renders_zero_padded() {
    assert_eq!(Period::new(2024, 3).to_string(), "2024/03");
    assert_eq!(Period::new(987, 11).to_string(), "0987/11");
}

#[test]
fn hours_render_hours_and_minutes() {
    assert_eq!(Hours::parse("1.5").unwrap().to_string(), "01:30");
    assert_eq!(Hours::parse("0.0").unwrap().to_string(), "00:00");
    assert_eq!(Hours::from_seconds(0).to_string(), "00:00");
    assert_eq!(Hours::from_seconds(8 * 3600 + 30 * 60 + 59).to_string(), "08:30");
    assert_eq!(Hours::from_seconds(125 * 3600).to_string(), "125:00");
}

#[test]
fn negative_hours_round_down() {
    // -0.5 hours: the hours round down to -1 and 30 minutes remain.
    assert_eq!(Hours::parse("-0.5").unwrap().to_string(), "-1:30");
    assert_eq!(Hours::from_seconds(-1).to_string(), "-1:59");
    assert_eq!(Hours::from_seconds(i128::MIN).seconds, i128::MIN);
    let _ = Hours::from_seconds(i128::MIN).to_string();
}

#[test]
fn hours_parse_decimal_forms() {
    assert_eq!(Hours::parse("1.5"), Some(Hours::from_seconds(5400)));
    assert_eq!(Hours::parse("8"), Some(Hours::from_seconds(28800)));
    assert_eq!(Hours::parse("+2"), Some(Hours::from_seconds(7200)));
    assert_eq!(Hours::parse(".25"), Some(Hours::from_seconds(900)));
    assert_eq!(Hours::parse("5."), Some(Hours::from_seconds(18000)));
    assert_eq!(Hours::parse("-0.25"), Some(Hours::from_seconds(-900)));
    assert_eq!(Hours::parse("0.0001"), Some(Hours::from_seconds(0)));
    assert_eq!(Hours::parse("-0.0001"), Some(Hours::from_seconds(-1)));
    assert_eq!(Hours::parse("1000000000000"), Some(Hours::from_seconds(3_600_000_000_000_000)));
}

#[test]
fn hours_parse_rejects_other_text() {
    for text in ["", "-", "+", ".", "abc", "1.2.3", "1e3", "inf", "NaN", " 1", "1 ", "1,5", "1000000000001"] {
        assert_eq!(Hours::parse(text), None, "{text}");
    }
}

#[test]
fn summing_no_hours_gives_zero() {
    assert_eq!(Hours::sum(&Vec::new()), Hours::zero());
    assert_eq!(Hours::sum(&Vec::new()).to_string(), "00:00");
}

#[test]
fn hours_add_subtract_and_sum() {
    let a = Hours::from_seconds(5400);
    let b = Hours::from_seconds(1800);
    assert_eq!(a.add(b), Hours::from_seconds(7200));
    assert_eq!(a.sub(b), Hours::from_seconds(3600));
    assert_eq!(Hours::sum(&vec![a, b, b]), Hours::from_seconds(9000));
}

#[test]
fn a_day_session_computes_hours() {
    let r = record("alice", 2024, 1, "2024-01-01 09:00:00", "2024-01-01 17:30:00", "");
    assert_eq!(r.calculate_hours(), Ok(Hours::from_seconds(30600)));
    assert_eq!(r.hours(), "08:30");
    assert_eq!(r.original_hours(), "08:30");
    assert_eq!(r.hours_worked(), Hours::from_seconds(30600));
    assert_eq!(r.date(), "2024/01/01");
    assert_eq!(r.start_time(), "09:00");
    assert_eq!(r.end_time(), "17:30");
    assert!(r.finished());
    assert_eq!(r.worked(), "08:30");
}

#[test]
fn a_session_without_start_reads_as_unknown() {
    let r = record("alice", 2024, 1, "", "", "");
    assert_eq!(r.date(), "?");
    assert_eq!(r.start_time(), "");
    assert_eq!(r.end_time(), "");
    assert_eq!(r.start_dt(), Err(HoursError::Parse));
    assert_eq!(r.calculate_hours(), Err(HoursError::Parse));
    assert_eq!(r.original_hours(), "-");
    assert_eq!(r.hours(), "?");
    assert_eq!(r.hours_worked(), Hours::zero());
    assert_eq!(r.worked(), "Not started");
    assert!(!r.finished());
}

#[test]
fn hours_entered_by_hand_take_priority() {
    let r = record("bob", 2024, 1, "2024-01-01 09:00:00", "2024-01-01 17:30:00", "2.25");
    assert_eq!(r.hours(), "02:15");
    assert_eq!(r.hours_worked(), Hours::from_seconds(8100));
    assert_eq!(r.original_hours(), "08:30");
    let unreadable = record("bob", 2024, 1, "2024-01-01 09:00:00", "2024-01-01 10:00:00", "x");
    assert_eq!(unreadable.hours(), "01:00");
    assert_eq!(unreadable.hours_worked(), Hours::from_seconds(3600));
}

#[test]
fn implausible_sessions_are_unfinished() {
    let long = record("carol", 2024, 1, "2024-01-01 00:00:00", "2024-01-01 15:00:00", "");
    assert_eq!(long.hours(), "unfinished");
    assert_eq!(long.worked(), "Not finished");
    assert!(!long.finished());
    assert_eq!(long.hours_worked(), Hours::from_seconds(54000));
    let backwards = record("carol", 2024, 1, "2024-01-01 10:00:00", "2024-01-01 09:00:00", "");
    assert_eq!(backwards.hours(), "unfinished");
    assert_eq!(backwards.original_hours(), "-1:00");
    let open = record("carol", 2024, 1, "2024-01-01 10:00:00", "", "");
    assert_eq!(open.hours(), "?");
    assert_eq!(open.end_time(), "");
}

#[test]
fn worked_uses_now_for_an_open_session() {
    let open = record("dave", 2024, 1, "2024-01-01 08:00:00", "", "");
    assert_eq!(open.worked_at(&stamp(2024, 1, 1, 10, 45, 30)), "02:45");
    assert!(open.finished_at(&stamp(2024, 1, 1, 10, 45, 30)));
    assert_eq!(open.worked_at(&stamp(2024, 1, 1, 23, 0, 0)), "Not finished");
    assert!(!open.finished_at(&stamp(2024, 1, 1, 23, 0, 0)));
    assert_eq!(open.worked_at(&stamp(2024, 1, 1, 8, 0, 0)), "Not finished");
    let closed = record("dave", 2024, 1, "2024-01-01 08:00:00", "2024-01-01 09:05:00", "");
    assert_eq!(closed.worked_at(&stamp(2030, 1, 1, 0, 0, 0)), "01:05");
}

#[test]
fn sessions_across_midnight_count() {
    let r = record("erin", 2024, 2, "2024-02-28 22:00:00", "2024-02-29 01:15:00", "");
    assert_eq!(r.calculate_hours(), Ok(Hours::from_seconds(3 * 3600 + 15 * 60)));
    assert_eq!(r.hours(), "03:15");
}

#[test]
fn start_dt_reads_the_fields() {
    let r = record("erin", 2024, 3, "2024-03-05 07:08:09", "not a time", "");
    assert_eq!(r.start_dt(), Ok(stamp(2024, 3, 5, 7, 8, 9)));
    assert_eq!(r.end_dt(), Err(HoursError::Parse));
    let leap = record("erin", 2016, 12, "2016-12-31 23:59:60", "", "");
    let t = leap.start_dt().unwrap();
    assert_eq!((t.second, t.nanosecond), (59, 1_000_000_000));
    let invalid = record("erin", 2023, 2, "2023-02-29 10:00:00", "", "");
    assert_eq!(invalid.start_dt(), Err(HoursError::Parse));
}

#[test]
fn timestamps_render() {
    let t = stamp(2024, 1, 2, 3, 4, 5);
    assert_eq!(t.to_text(), "2024-01-02 03:04:05");
    assert_eq!(t.date_string(), "2024/01/02");
    assert_eq!(t.clock_string(), "03:04");
    assert_eq!(stamp(-5, 1, 1, 0, 0, 0).to_text(), "-005-01-01 00:00:00");
}

#[test]
fn start_then_end_closes_one_session() {
    let mut data = HoursData::default();
    data.start_at("alice", &stamp(2024, 1, 1, 9, 0, 0));
    assert!(data.is_started("alice"));
    assert_eq!(data.end_at("alice", &stamp(2024, 1, 1, 17, 30, 0)), Ok(()));
    let alice: Vec<&HoursRecord> = data.dataframe.data.iter().filter(|r| r.name == "alice").collect();
    assert_eq!(alice.len(), 1);
    assert!(!alice[0].end.is_empty());
    assert_eq!(alice[0].start, "2024-01-01 09:00:00");
    assert_eq!(alice[0].end, "2024-01-01 17:30:00");
    assert_eq!(alice[0].hours(), "08:30");
    assert!(!data.is_started("alice"));
    assert_eq!(data.end_at("alice", &stamp(2024, 1, 1, 18, 0, 0)), Err(HoursError::NotFound));
}

#[test]
fn start_then_end_with_the_clock() {
    let mut data = HoursData::default();
    data.start("alice");
    assert!(data.is_started("alice"));
    assert_eq!(data.end("alice"), Ok(()));
    assert_eq!(data.dataframe.data.len(), 1);
    assert!(!data.dataframe.data[0].end.is_empty());
    assert!(data.dataframe.data[0].start_dt().is_ok());
    assert!(data.dataframe.data[0].end_dt().is_ok());
    assert_eq!(data.end("alice"), Err(HoursError::NotFound));
}

#[test]
fn start_numbers_records_and_stamps_the_month() {
    let mut data = HoursData::default();
    data.start_at("a", &stamp(2024, 6, 30, 23, 59, 59));
    data.start_at("b", &stamp(2024, 7, 1, 0, 0, 0));
    let r = &data.dataframe.data[1];
    assert_eq!((r.index, r.rowid, r.year, r.month), (1, 1, 2024, 7));
    assert_eq!(r.name, "b");
    assert_eq!(r.end, "");
    assert_eq!(r.hours, "");
    assert_eq!(data.dataframe.data[0].period(), Period::new(2024, 6));
}

#[test]
fn end_closes_the_latest_open_session() {
    let mut data = HoursData::default();
    data.start_at("bob", &stamp(2024, 1, 1, 8, 0, 0));
    data.start_at("bob", &stamp(2024, 1, 1, 9, 0, 0));
    assert_eq!(data.end_at("bob", &stamp(2024, 1, 1, 10, 0, 0)), Ok(()));
    assert_eq!(data.dataframe.data[0].end, "");
    assert_eq!(data.dataframe.data[1].end, "2024-01-01 10:00:00");
    assert!(!data.is_started("bob"));
    assert_eq!(data.end_at("bob", &stamp(2024, 1, 1, 11, 0, 0)), Ok(()));
    assert_eq!(data.dataframe.data[0].end, "2024-01-01 11:00:00");
}

#[test]
fn end_clears_hours_entered_by_hand() {
    let mut data = HoursData::default();
    data.start_at("bob", &stamp(2024, 1, 1, 8, 0, 0));
    data.dataframe.data[0].hours = "3".to_string();
    assert_eq!(data.end_at("bob", &stamp(2024, 1, 1, 9, 0, 0)), Ok(()));
    assert_eq!(data.dataframe.data[0].hours, "");
}

#[test]
fn is_started_reads_only_the_latest_session() {
    let mut data = HoursData::default();
    assert!(!data.is_started("x"));
    data.dataframe.data.push(record("x", 2024, 1, "2024-01-01 08:00:00", "", ""));
    data.dataframe.data.push(record("x", 2024, 1, "2024-01-01 09:00:00", "2024-01-01 10:00:00", ""));
    data.dataframe.data.push(record("y", 2024, 1, "2024-01-01 09:00:00", "", ""));
    assert!(!data.is_started("x"));
    assert!(data.is_started("y"));
}

#[test]
fn end_without_session_fails() {
    let mut data = HoursData::default();
    assert_eq!(data.end_at("nobody", &stamp(2024, 1, 1, 8, 0, 0)), Err(HoursError::NotFound));
    assert!(data.dataframe.data.is_empty());
}

#[test]
fn empty_frame_has_sentinel_periods() {
    let df = HoursDataFrame::new();
    assert_eq!(df.first_period(), Period::new(9999, 99));
    assert_eq!(df.last_period(), Period::new(0, 0));
}

#[test]
fn first_and_last_period_span_the_records() {
    let mut df = HoursDataFrame::new();
    df.data.push(record("a", 2024, 3, "", "", ""));
    df.data.push(record("a", 2023, 11, "", "", ""));
    df.data.push(record("b", 2024, 7, "", "", ""));
    assert_eq!(df.first_period(), Period::new(2023, 11));
    assert_eq!(df.last_period(), Period::new(2024, 7));
}

#[test]
fn status_reads_the_latest_session() {
    let mut df = HoursDataFrame::new();
    df.data.push(record("alice", 2024, 1, "2024-01-02 09:00:00", "2024-01-02 10:00:00", ""));
    df.data.push(record("alice", 2024, 1, "2024-01-03 09:00:00", "2024-01-03 12:15:00", ""));
    df.data.push(record("bob", 2024, 1, "2024-01-03 09:00:00", "2024-01-03 09:30:00", ""));
    let p = Period::new(2024, 1);
    let now = stamp(2024, 1, 4, 0, 0, 0);
    assert_eq!(df.status_for_period_at("alice", &p, &now), "03:15");
    assert_eq!(df.status_for_period("alice", &p), "03:15");
    assert_eq!(df.status_for_period("bob", &p), "00:30");
    assert_eq!(df.status_for_period("carol", &p), " - ");
    assert_eq!(df.status_for_period("alice", &Period::new(2024, 2)), " - ");
}

#[test]
fn hours_for_period_adds_the_sessions() {
    let mut df = HoursDataFrame::new();
    df.data.push(record("alice", 2024, 1, "2024-01-02 09:00:00", "2024-01-02 10:00:00", ""));
    df.data.push(record("alice", 2024, 1, "2024-01-03 09:00:00", "2024-01-03 12:15:00", "1.5"));
    df.data.push(record("alice", 2024, 1, "2024-01-04 09:00:00", "", ""));
    df.data.push(record("alice", 2024, 2, "2024-02-01 09:00:00", "2024-02-01 10:00:00", ""));
    df.data.push(record("bob", 2024, 1, "2024-01-03 09:00:00", "2024-01-03 09:30:00", ""));
    let p = Period::new(2024, 1);
    assert_eq!(df.hours_for_period("alice", &p), Hours::from_seconds(3600 + 5400));
    assert_eq!(df.hours_for_period("alice", &p).to_string(), "02:30");
    assert_eq!(df.hours_for_period("bob", &p), Hours::from_seconds(1800));
    assert_eq!(df.hours_for_period("carol", &p), Hours::zero());
}

#[test]
fn for_period_keeps_the_order_and_schema() {
    let mut df = HoursDataFrame::new();
    df.data.push(record("alice", 2024, 1, "2024-01-02 09:00:00", "", ""));
    df.data.push(record("bob", 2024, 1, "2024-01-02 09:00:00", "", ""));
    df.data.push(record("alice", 2024, 2, "2024-02-02 09:00:00", "", ""));
    df.data.push(record("alice", 2024, 1, "2024-01-05 09:00:00", "", ""));
    let sub = df.for_period("alice", &Period::new(2024, 1));
    assert_eq!(sub.schema, df.schema);
    assert_eq!(sub.data.len(), 2);
    assert_eq!(sub.data[0].start, "2024-01-02 09:00:00");
    assert_eq!(sub.data[1].start, "2024-01-05 09:00:00");
    assert!(df.for_period("zed", &Period::new(2024, 1)).data.is_empty());
}

#[test]
fn standard_schema_lists_the_columns() {
    let s = Schema::default();
    let names: Vec<(&str, &str)> = s.fields.iter().map(|f| (f.name.as_str(), f.datatype.as_str())).collect();
    assert_eq!(
        names,
        vec![
            ("index", "integer"),
            ("rowid", "integer"),
            ("name", "string"),
            ("year", "integer"),
            ("month", "integer"),
            ("start", "string"),
            ("end", "string"),
            ("hours", "string"),
        ]
    );
    assert_eq!(s.primary_key, vec!["index".to_string()]);
    assert_eq!(s.pandas_version, "0.20.0");
    assert_eq!(Field::new("a", "b"), Field { name: "a".to_string(), datatype: "b".to_string() });
}

#[test]
fn current_period_is_a_real_month() {
    let p = Period::current();
    assert!((1..=12).contains(&p.month));
}

#[test]
fn admin_mode_lasts_ten_minutes() {
    let mut mode = Mode::default();
    assert!(!mode.is_admin_at(&stamp(2024, 1, 1, 12, 0, 0)));
    assert!(!mode.login_at("wrong", "secret", &stamp(2024, 1, 1, 12, 0, 0)));
    assert!(mode.login_time.is_none());
    assert!(mode.login_at("secret", "secret", &stamp(2024, 1, 1, 12, 0, 0)));
    assert!(mode.is_admin_at(&stamp(2024, 1, 1, 12, 9, 59)));
    assert!(!mode.is_admin_at(&stamp(2024, 1, 1, 12, 10, 0)));
    mode.logout();
    assert!(!mode.is_admin_at(&stamp(2024, 1, 1, 12, 0, 1)));
    assert!(mode.login("pw", "pw"));
    assert!(mode.is_admin());
}

#[test]
fn hours_label_prefers_hand_entered_hours() {
    let h = |s: i128| Some(Hours::from_seconds(s));
    assert_eq!(hours_label(h(5400), h(30600)), "01:30");
    assert_eq!(hours_label(None, h(30600)), "08:30");
    assert_eq!(hours_label(None, h(54000)), "unfinished");
    assert_eq!(hours_label(None, h(53999)), "14:59");
    assert_eq!(hours_label(None, h(0)), "unfinished");
    assert_eq!(hours_label(None, h(-60)), "unfinished");
    assert_eq!(hours_label(None, None), "?");
    assert_eq!(hours_label(h(-1800), None), "-1:30");
}

#[test]
fn worked_label_reads_the_session() {
    assert_eq!(worked_label(Some(3 * 3600 + 15 * 60 + 59)), "03:15");
    assert_eq!(worked_label(Some(1)), "00:00");
    assert_eq!(worked_label(Some(0)), "Not finished");
    assert_eq!(worked_label(Some(54000)), "Not finished");
    assert_eq!(worked_label(Some(-5)), "Not finished");
    assert_eq!(worked_label(None), "Not started");
}
