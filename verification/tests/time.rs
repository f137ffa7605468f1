//! Points in time and spans of time.

use dxfeed::time::{Duration, Timestamp, UtcTime};

#[test]
fn points_in_time() {
    let t = Timestamp::new(10, 500_000_000).unwrap();
    assert!(Timestamp::new(10, 1_000_000_000).is_none());
    assert_eq!(t.secs(), 10);
    assert_eq!(t.subsec_nanos(), 500_000_000);
    let later = t.plus_secs(5).unwrap();
    assert_eq!(later.nanos_since(&t), 5_000_000_000);
    assert_eq!(t.secs_since(&later), -5);
    assert!(t.before(&later) && !later.before(&t));
    assert!(Timestamp::from_secs(i64::MAX).plus_secs(1).is_none());
}

#[test]
fn seconds_round_toward_zero() {
    let a = Timestamp::from_secs(0);
    let b = Timestamp::new(1, 999_999_999).unwrap();
    assert_eq!(b.secs_since(&a), 1);
    assert_eq!(a.secs_since(&b), -1);
}

#[test]
fn spans_of_time() {
    let d = Duration::from_millis(1_500);
    assert_eq!(d.as_secs(), 1);
    assert_eq!(d.subsec_nanos(), 500_000_000);
    assert_eq!(d.as_nanos(), 1_500_000_000);
    assert_eq!(Duration::new(1, 500_000_000), Some(d));
    assert!(Duration::new(0, 1_000_000_000).is_none());
}

#[test]
fn times_of_day() {
    assert_eq!(UtcTime::from_hm(23, 59), Some(UtcTime { hour: 23, minute: 59 }));
    assert_eq!(UtcTime::from_hm(24, 0), None);
    assert_eq!(UtcTime::from_hm(0, 60), None);
}
