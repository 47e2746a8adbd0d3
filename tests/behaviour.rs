use chrono::{offset::TimeZone, Duration, Utc};
use fast_utc::{TimeDelta, TimeRange, Timestamp};

fn ts(dt: chrono::DateTime<Utc>) -> Timestamp {
    Timestamp::from_calendar_nanos(dt.timestamp_nanos_opt())
}

fn collect(mut range: TimeRange, limit: usize) -> Vec<Timestamp> {
    let mut out = Vec::new();
    while out.len() < limit {
        match range.next() {
            Some(t) => out.push(t),
            None => break,
        }
    }
    out
}

fn ns(n: u64) -> Timestamp {
    Timestamp::from_nanoseconds(n)
}

#[test]
fn difference_then_add_round_trips() {
    let t1 = ns(1_000);
    let t2 = ns(5_000);
    assert_eq!((t1 - t2).as_nanoseconds(), -4_000);
    assert_eq!(t2 + (t1 - t2), t1);
    assert_eq!(t1 + (t2 - t1), t2);
    let far = ns(i64::MAX as u64);
    assert_eq!(Timestamp::zero() + (far - Timestamp::zero()), far);
}

#[test]
fn align_is_idempotent_and_not_later() {
    let freq = TimeDelta::from_seconds(300);
    let t = ns(1_234_567_890_123);
    let a = t.align_to(freq);
    assert_eq!(a.as_nanoseconds(), 1_200_000_000_000);
    assert_eq!(a.align_to(freq), a);
    assert!(a <= t);
}

#[test]
fn align_with_negative_frequency_matches_its_magnitude() {
    let t = ns(1_234_567_890_123);
    assert_eq!(
        t.align_to(TimeDelta::from_seconds(-300)),
        t.align_to(TimeDelta::from_seconds(300))
    );
}

#[test]
fn align_before_anchor_floors() {
    let anchor = Timestamp::from_seconds(12);
    let freq = TimeDelta::from_seconds(5);
    assert_eq!(Timestamp::from_seconds(4).align_to_anchored(anchor, freq), Timestamp::from_seconds(2));
    assert_eq!(Timestamp::from_seconds(7).align_to_anchored(anchor, freq), Timestamp::from_seconds(7));
    assert_eq!(Timestamp::from_seconds(1).align_to_anchored(anchor, freq), Timestamp::zero());
}

#[test]
fn align_of_largest_instant() {
    let top = ns(u64::MAX);
    let freq = TimeDelta::from_nanoseconds(10);
    assert_eq!(top.align_to(freq).as_nanoseconds(), 18_446_744_073_709_551_610);
}

#[test]
fn same_bucket_aligns_alike() {
    let anchor = Timestamp::from_seconds(1_577_836_800);
    let freq = TimeDelta::from_minutes(5);
    let a = Timestamp::from_seconds(1_577_836_800 + 12 * 3600 + 60 + 11);
    let b = Timestamp::from_seconds(1_577_836_800 + 12 * 3600 + 4 * 60 + 11);
    let expected = Timestamp::from_seconds(1_577_836_800 + 12 * 3600);
    assert_eq!(a.align_to_anchored(anchor, freq), expected);
    assert_eq!(b.align_to_anchored(anchor, freq), expected);
}

#[test]
fn right_closed_ends_at_end() {
    let r = collect(TimeRange::right_closed(ns(0), ns(30), TimeDelta::from_nanoseconds(10)), 100);
    assert_eq!(r, vec![ns(0), ns(10), ns(20), ns(30)]);
}

#[test]
fn right_open_excludes_end() {
    let start = ts(Utc.with_ymd_and_hms(2019, 4, 14, 0, 0, 0).unwrap());
    let end = ts(Utc.with_ymd_and_hms(2019, 4, 16, 0, 0, 0).unwrap());
    let r = collect(TimeRange::right_open(start, end, TimeDelta::from_hours(12)), 100);
    assert_eq!(r.len(), 4);
    assert_eq!(r[0], start);
    assert_eq!(r[3], ts(Utc.with_ymd_and_hms(2019, 4, 15, 12, 0, 0).unwrap()));
    assert!(!r.contains(&end));
}

#[test]
fn range_past_end_is_empty() {
    assert!(collect(TimeRange::right_closed(ns(5), ns(4), TimeDelta::from_nanoseconds(1)), 10).is_empty());
    assert!(collect(TimeRange::right_open(ns(4), ns(4), TimeDelta::from_nanoseconds(1)), 10).is_empty());
    assert_eq!(collect(TimeRange::right_closed(ns(4), ns(4), TimeDelta::from_nanoseconds(1)), 10), vec![ns(4)]);
}

#[test]
fn calendar_instant_before_epoch_is_zero() {
    let before = Utc.timestamp_opt(-1, 999_999_999).unwrap();
    assert_eq!(before.timestamp_nanos_opt(), Some(-1));
    assert_eq!(ts(before), Timestamp::zero());
    assert_eq!(Timestamp::from_calendar_nanos(None), Timestamp::zero());
    assert_eq!(Timestamp::from_calendar_nanos(Some(42)), ns(42));
}

#[test]
fn calendar_parts() {
    assert_eq!(ns(1_500_000_123).to_calendar_parts(), (1, 500_000_123));
    assert_eq!(ns(u64::MAX).to_calendar_parts(), (18_446_744_073, 709_551_615));
    let dt = Utc.with_ymd_and_hms(2019, 3, 13, 16, 14, 9).unwrap();
    let (secs, nanos) = ts(dt).to_calendar_parts();
    assert_eq!(chrono::DateTime::from_timestamp(secs, nanos), Some(dt));
}

#[test]
fn order_follows_integers() {
    let a = ns(7);
    let b = ns(9);
    assert_eq!(a.partial_cmp(&b), Some(std::cmp::Ordering::Less));
    assert_eq!(b.partial_cmp(&a), Some(std::cmp::Ordering::Greater));
    assert_eq!(a.partial_cmp(&ns(7)), Some(std::cmp::Ordering::Equal));
    assert_eq!(a.cmp(&b), std::cmp::Ordering::Less);
}

#[test]
fn timestamp_unit_constructors() {
    assert_eq!(Timestamp::from_seconds(3).as_nanoseconds(), 3_000_000_000);
    assert_eq!(Timestamp::from_milliseconds(3).as_nanoseconds(), 3_000_000);
    assert_eq!(Timestamp::from_seconds(u64::MAX).as_nanoseconds(), u64::MAX);
    assert_eq!(Timestamp::from_milliseconds(u64::MAX / 1_000).as_nanoseconds(), u64::MAX);
    assert_eq!(ns(3_999_999).as_milliseconds(), 3);
    assert!(Timestamp::zero().is_zero());
    assert!(!ns(1).is_zero());
}

#[test]
fn timestamp_shift_clamps() {
    let t = ns(100);
    assert_eq!(t + TimeDelta::from_nanoseconds(-500), Timestamp::zero());
    assert_eq!(t - TimeDelta::from_nanoseconds(500), Timestamp::zero());
    assert_eq!(t - TimeDelta::from_nanoseconds(-5), ns(105));
    assert_eq!(ns(u64::MAX - 1) + TimeDelta::from_nanoseconds(10), ns(u64::MAX));
    assert_eq!(t + TimeDelta::from_nanoseconds(i64::MIN), Timestamp::zero());
    let mut m = t;
    m += TimeDelta::from_nanoseconds(5);
    assert_eq!(m, ns(105));
    m -= TimeDelta::from_nanoseconds(10);
    assert_eq!(m, ns(95));
}

#[test]
fn delta_arithmetic() {
    let a = TimeDelta::from_nanoseconds(-7);
    let b = TimeDelta::from_nanoseconds(2);
    assert_eq!((a + b).as_nanoseconds(), -5);
    assert_eq!((a - b).as_nanoseconds(), -9);
    assert_eq!((a * 3).as_nanoseconds(), -21);
    assert_eq!((a / 2).as_nanoseconds(), -3);
    assert_eq!(a / b, -3);
    assert_eq!((a % b).as_nanoseconds(), -1);
    assert_eq!(TimeDelta::from_nanoseconds(7) % TimeDelta::from_nanoseconds(-2), TimeDelta::from_nanoseconds(1));
}

#[test]
fn delta_unit_constructors() {
    assert_eq!(TimeDelta::from_hours(2).as_nanoseconds(), 7_200_000_000_000);
    assert_eq!(TimeDelta::from_minutes(-3).as_nanoseconds(), -180_000_000_000);
    assert_eq!(TimeDelta::from_seconds(4).as_nanoseconds(), 4_000_000_000);
    assert_eq!(TimeDelta::from_milliseconds(5).as_nanoseconds(), 5_000_000);
    assert_eq!(TimeDelta::from_nanoseconds(-1_500_000).as_milliseconds(), -1);
    assert!(TimeDelta::zero().is_zero());
    assert!(TimeDelta::from_nanoseconds(1).is_positive());
    assert!(TimeDelta::from_nanoseconds(-1).is_negative());
    assert!(!TimeDelta::zero().is_positive() && !TimeDelta::zero().is_negative());
}

#[test]
fn delta_from_calendar() {
    let nanos = |d: Duration| TimeDelta::from_calendar_nanos(d.num_nanoseconds());
    assert_eq!(nanos(Duration::milliseconds(-1500)).as_nanoseconds(), -1_500_000_000);
    assert_eq!(nanos(Duration::MAX), TimeDelta::zero());
    assert_eq!(TimeDelta::from_calendar_nanos(None), TimeDelta::zero());
    assert_eq!(TimeDelta::from_calendar_nanos(Some(-3)).as_nanoseconds(), -3);
}

#[test]
fn delta_text() {
    assert_eq!(TimeDelta::from_hours(12).to_string(), "PT43200S");
    assert_eq!(TimeDelta::from_milliseconds(1500).to_string(), "PT1.5S");
    assert_eq!(TimeDelta::from_nanoseconds(-2_000_000_000).to_string(), "-PT2S");
}

#[test]
fn instant_text() {
    let t = ts(Utc.with_ymd_and_hms(2019, 4, 14, 0, 0, 0).unwrap());
    assert_eq!(t.to_string(), "2019-04-14 00:00:00 UTC");
    assert_eq!(Timestamp::zero().to_string(), "1970-01-01 00:00:00 UTC");
    assert_eq!(ns(1_500_000_000).to_string(), "1970-01-01 00:00:01.500 UTC");
}
