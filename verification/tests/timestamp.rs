use chrono::{DateTime, Utc};
use loggy::timestamp::{Timestamp, MAX_SECONDS, MIN_SECONDS, NANOS_PER_SECOND};

#[test]
fn from_millis_splits_seconds_and_nanoseconds() {
    let t = Timestamp::from_millis(1771438594775).unwrap();
    assert_eq!(t.seconds(), 1771438594);
    assert_eq!(t.subsec_nanos(), 775_000_000);
}

#[test]
fn from_millis_before_the_epoch_rounds_down() {
    let t = Timestamp::from_millis(-1).unwrap();
    assert_eq!(t.seconds(), -1);
    assert_eq!(t.subsec_nanos(), 999_000_000);
    let u = Timestamp::from_millis(-1000).unwrap();
    assert_eq!(u.seconds(), -1);
    assert_eq!(u.subsec_nanos(), 0);
    let v = Timestamp::from_millis(-1001).unwrap();
    assert_eq!(v.seconds(), -2);
    assert_eq!(v.subsec_nanos(), 999_000_000);
}

#[test]
fn from_millis_agrees_with_chrono() {
    for millis in [0i64, 1, 999, 1000, -1, -999, -1000, -1001, 1771438594775, -62167219200000] {
        let ours = Timestamp::from_millis(millis).unwrap();
        let theirs = DateTime::from_timestamp_millis(millis).unwrap();
        assert_eq!(ours.seconds(), theirs.timestamp());
        assert_eq!(ours.subsec_nanos(), theirs.timestamp_subsec_nanos());
        assert_eq!(ours.to_rfc3339(), theirs.to_rfc3339());
    }
}

#[test]
fn from_millis_out_of_range_is_none() {
    assert!(Timestamp::from_millis(i64::MAX).is_none());
    assert!(Timestamp::from_millis(i64::MIN).is_none());
}

#[test]
fn new_accepts_exactly_the_representable_range() {
    assert!(Timestamp::new(0, 0).is_some());
    assert!(Timestamp::new(MAX_SECONDS, NANOS_PER_SECOND - 1).is_some());
    assert!(Timestamp::new(MIN_SECONDS, 0).is_some());
    assert!(Timestamp::new(MAX_SECONDS + 1, 0).is_none());
    assert!(Timestamp::new(MIN_SECONDS - 1, 0).is_none());
    assert!(Timestamp::new(0, NANOS_PER_SECOND).is_none());
    assert!(Timestamp::new(59, NANOS_PER_SECOND).is_none());
    assert!(Timestamp::new(0, u32::MAX).is_none());
}

#[test]
fn range_is_that_of_the_calendar() {
    assert_eq!(DateTime::<Utc>::MAX_UTC.timestamp(), MAX_SECONDS);
    assert_eq!(DateTime::<Utc>::MIN_UTC.timestamp(), MIN_SECONDS);
    assert!(DateTime::from_timestamp(MAX_SECONDS, NANOS_PER_SECOND - 1).is_some());
    assert!(DateTime::from_timestamp(MIN_SECONDS, 0).is_some());
    assert!(DateTime::from_timestamp(MAX_SECONDS + 1, 0).is_none());
    assert!(DateTime::from_timestamp(MIN_SECONDS - 1, 0).is_none());
}

#[test]
fn rfc3339_text_of_known_instants() {
    assert_eq!(Timestamp::new(0, 0).unwrap().to_rfc3339(), "1970-01-01T00:00:00+00:00");
    assert_eq!(
        Timestamp::from_millis(1771438594775).unwrap().to_rfc3339(),
        "2026-02-18T18:16:34.775+00:00"
    );
    assert_eq!(
        Timestamp::new(1771438594, 775_001_000).unwrap().to_rfc3339(),
        "2026-02-18T18:16:34.775001+00:00"
    );
    assert_eq!(
        Timestamp::new(1771438594, 1).unwrap().to_rfc3339(),
        "2026-02-18T18:16:34.000000001+00:00"
    );
    assert_eq!(Timestamp::new(-1, 0).unwrap().to_rfc3339(), "1969-12-31T23:59:59+00:00");
}

#[test]
fn rfc3339_text_at_the_ends_of_the_range() {
    let last = Timestamp::new(MAX_SECONDS, NANOS_PER_SECOND - 1).unwrap();
    assert_eq!(last.to_rfc3339(), DateTime::<Utc>::MAX_UTC.to_rfc3339());
    assert_eq!(last.to_rfc3339(), "+262142-12-31T23:59:59.999999999+00:00");
    let first = Timestamp::new(MIN_SECONDS, 0).unwrap();
    assert_eq!(first.to_rfc3339(), DateTime::<Utc>::MIN_UTC.to_rfc3339());
    assert_eq!(first.to_rfc3339(), "-262143-01-01T00:00:00+00:00");
}

#[test]
fn rfc3339_text_parses_back_to_the_same_instant() {
    let t = Timestamp::new(1771438594, 123_456_789).unwrap();
    let parsed = DateTime::parse_from_rfc3339(&t.to_rfc3339()).unwrap();
    assert_eq!(parsed.timestamp(), t.seconds());
    assert_eq!(parsed.timestamp_subsec_nanos(), t.subsec_nanos());
}

#[test]
fn now_reads_the_wall_clock() {
    let before = Utc::now();
    let t = Timestamp::now();
    let after = Utc::now();
    assert!(t.subsec_nanos() < NANOS_PER_SECOND);
    assert!(MIN_SECONDS <= t.seconds() && t.seconds() <= MAX_SECONDS);
    let read = DateTime::from_timestamp(t.seconds(), t.subsec_nanos()).unwrap();
    assert!(before <= read && read <= after);
}

#[test]
fn timestamps_compare_by_value() {
    let a = Timestamp::new(5, 6).unwrap();
    let b = Timestamp::from_millis(5000).unwrap();
    assert_eq!(a, Timestamp::new(5, 6).unwrap());
    assert_ne!(a, b);
    let c = a;
    assert_eq!(a, c);
}
