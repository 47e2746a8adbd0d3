use chrono::{offset::TimeZone, Duration, Utc};
use fast_utc::{TimeDelta, TimeRange, Timestamp};

fn ts(dt: chrono::DateTime<Utc>) -> Timestamp {
    Timestamp::from_calendar_nanos(dt.timestamp_nanos_opt())
}

fn collect(mut range: TimeRange) -> Vec<Timestamp> {
    let mut out = Vec::new();
    while let Some(t) = range.next() {
        out.push(t);
    }
    out
}

#[test]
fn open_time_range() {
    let start = Utc.with_ymd_and_hms(2019, 4, 14, 0, 0, 0).unwrap();
    let end = Utc.with_ymd_and_hms(2019, 4, 16, 0, 0, 0).unwrap();
    let step = Duration::hours(12);
    let tr: Vec<_> = collect(TimeRange::right_closed(ts(start), ts(end), TimeDelta::from_calendar_nanos(step.num_nanoseconds())));
    assert_eq!(
        tr,
        vec![
            ts(Utc.with_ymd_and_hms(2019, 4, 14, 0, 0, 0).unwrap()),
            ts(Utc.with_ymd_and_hms(2019, 4, 14, 12, 0, 0).unwrap()),
            ts(Utc.with_ymd_and_hms(2019, 4, 15, 0, 0, 0).unwrap()),
            ts(Utc.with_ymd_and_hms(2019, 4, 15, 12, 0, 0).unwrap()),
            ts(Utc.with_ymd_and_hms(2019, 4, 16, 0, 0, 0).unwrap()),
        ]
    );
}

#[test]
fn timestamp_and_delta_vs_chrono() {
    let c_dt = Utc.with_ymd_and_hms(2019, 3, 13, 16, 14, 9).unwrap();
    let c_td = Duration::nanoseconds(123456000000);

    let my_dt = ts(c_dt);
    let my_td = TimeDelta::from_nanoseconds(123456000000);
    assert_eq!(TimeDelta::from_calendar_nanos(c_td.num_nanoseconds()), my_td);

    let c_result = c_dt + c_td * 555;
    let my_result = my_dt + my_td * 555;
    assert_eq!(ts(c_result), my_result);
}

#[test]
fn timestamp_ord_eq() {
    let ts1: Timestamp = Timestamp::from_nanoseconds(111);
    let ts2: Timestamp = Timestamp::from_nanoseconds(222);
    let ts3: Timestamp = Timestamp::from_nanoseconds(222);

    assert!(ts1 < ts2);
    assert!(ts2 > ts1);
    assert!(ts1 <= ts2);
    assert!(ts2 >= ts3);
    assert!(ts2 <= ts3);
    assert!(ts2 >= ts3);
    assert_eq!(ts2, ts3);
    assert_ne!(ts1, ts3);
}

#[test]
fn align_to_anchored() {
    let day_naive = chrono::NaiveDate::from_ymd_opt(2020, 9, 28).unwrap();
    let at = |h, m, s| {
        ts(chrono::DateTime::<Utc>::from_naive_utc_and_offset(
            day_naive.and_hms_opt(h, m, s).unwrap(),
            Utc,
        ))
    };
    let t = at(19, 32, 51);

    assert_eq!(t.align_to_anchored(at(0, 0, 0), TimeDelta::from_seconds(60 * 5)), at(19, 30, 0));
    assert_eq!(t.align_to_anchored(at(9, 1, 3), TimeDelta::from_seconds(60 * 5)), at(19, 31, 3));
}

#[test]
fn align_to_anchored_eq() {
    let day_naive = chrono::NaiveDate::from_ymd_opt(2020, 1, 1).unwrap();
    let at = |h, m, s| {
        ts(chrono::DateTime::<Utc>::from_naive_utc_and_offset(
            day_naive.and_hms_opt(h, m, s).unwrap(),
            Utc,
        ))
    };
    let anchor = at(0, 0, 0);
    let freq = TimeDelta::from_seconds(5 * 60);

    let ts1 = at(12, 1, 11);
    let ts2 = at(12, 4, 11);
    assert_eq!(ts1.align_to_anchored(anchor, freq), ts2.align_to_anchored(anchor, freq));
}
