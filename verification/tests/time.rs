use meter_core::time::DateTime;

#[test]
fn instants_have_calendar_fields() {
    let t = DateTime::from_timestamp(951_782_400, 5).unwrap();
    assert_eq!((t.year(), t.month(), t.day()), (2000, 2, 29));
    assert_eq!((t.hour(), t.minute(), t.second()), (0, 0, 0));
    assert_eq!(t.weekday_from_sunday(), 2);
    assert_eq!(t.timestamp_subsec_nanos(), 5);
    let t = DateTime::from_timestamp_millis(-1).unwrap();
    assert_eq!((t.year(), t.month(), t.day(), t.second()), (1969, 12, 31, 59));
    assert_eq!(t.timestamp_millis(), -1);
}

#[test]
fn calendar_fields_have_instants() {
    let t = DateTime::with_ymd_and_hms(1970, 1, 2, 0, 0, 0).unwrap();
    assert_eq!(t.timestamp(), 86_400);
    assert!(DateTime::with_ymd_and_hms(2023, 2, 29, 0, 0, 0).is_none());
    assert!(DateTime::with_ymd_and_hms(2024, 1, 1, 24, 0, 0).is_none());
    assert!(DateTime::with_ymd_and_hms(2024, 1, 1, 0, 0, 60).is_none());
}

#[test]
fn the_clock_is_running() {
    assert!(DateTime::now().year() >= 2024);
    let apart = DateTime::local_now().nanos_since(&DateTime::now());
    assert!(apart.abs() < 27 * 3600 * 1_000_000_000);
}

#[test]
fn times_can_be_shifted() {
    let t = DateTime::with_ymd_and_hms(2024, 2, 28, 23, 59, 59).unwrap();
    let next = t.plus_millis(1000);
    assert_eq!((next.month(), next.day()), (2, 29));
    assert!(t.is_before(&next));
    assert_eq!(next.nanos_since(&t), 1_000_000_000);
}
