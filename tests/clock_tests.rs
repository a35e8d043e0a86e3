use keyboard_statistics::clock::{LocalTime, DAY_SECS};

#[test]
fn parts_are_checked() {
    assert!(LocalTime::from_parts(0, 23, 6, 31).is_some());
    assert!(LocalTime::from_parts(0, 24, 0, 1).is_none());
    assert!(LocalTime::from_parts(0, 0, 7, 1).is_none());
    assert!(LocalTime::from_parts(0, 0, 0, 0).is_none());
    assert!(LocalTime::from_parts(0, 0, 0, 32).is_none());
    assert_eq!(DAY_SECS, 86400);
}

#[test]
fn epoch_seconds_get_local_fields() {
    let t = LocalTime::from_epoch(1_700_000_000).unwrap();
    assert_eq!(t.epoch_secs, 1_700_000_000);
    assert!(t.hour < 24 && t.weekday < 7 && (1..=31).contains(&t.day));
    let later = LocalTime::from_epoch(1_700_000_000 + 7 * DAY_SECS).unwrap();
    assert_eq!(later.weekday, t.weekday);
    assert_eq!(later.hour, t.hour);
    let next = LocalTime::from_epoch(1_700_000_000 + DAY_SECS).unwrap();
    assert_eq!(next.weekday, (t.weekday + 1) % 7);
    assert!(LocalTime::from_epoch(i64::MAX).is_none());
}
