use lune::julian::{Instant, JulianTime, to_unix_seconds, UNIX_EPOCH_JULIAN_MILLIS};

fn at(year: i32, month: u8, day: u8, hour: u8, minute: u8, second: u8) -> Instant {
    Instant::new(year, month, day, hour, minute, second).unwrap()
}

#[test]
fn j2000_epoch_is_exact() {
    // 2000-01-01T12:00:00 UTC is Julian day 2451545.0 exactly.
    let jt = JulianTime::new(at(2000, 1, 1, 12, 0, 0));
    assert_eq!(jt.day_millis, 2451545i64 * 86400000);
}

#[test]
fn unix_epoch_is_exact() {
    // 1970-01-01T00:00:00 UTC is Julian day 2440587.5 exactly.
    let jt = JulianTime::new(at(1970, 1, 1, 0, 0, 0));
    assert_eq!(jt.day_millis, UNIX_EPOCH_JULIAN_MILLIS);
    assert_eq!(to_unix_seconds(jt.day_millis), 0);
}

#[test]
fn known_julian_day_with_time_of_day() {
    // 1987-04-10T00:00:00 UTC is Julian day 2446895.5.
    let jt = JulianTime::new(at(1987, 4, 10, 0, 0, 0));
    assert_eq!(jt.day_millis, 2446895i64 * 86400000 + 43200000);
    // 19:21:00 on the same day adds exactly that time of day.
    let jt2 = JulianTime::new(at(1987, 4, 10, 19, 21, 0));
    assert_eq!(jt2.day_millis, jt.day_millis + (19 * 3600 + 21 * 60) * 1000);
}

#[test]
fn unix_seconds_of_j2000() {
    let jt = JulianTime::new(at(2000, 1, 1, 12, 0, 0));
    assert_eq!(to_unix_seconds(jt.day_millis), 946728000);
}

#[test]
fn day_count_strictly_increases_across_boundaries() {
    let pairs = [
        (at(1999, 12, 31, 23, 59, 59), at(2000, 1, 1, 0, 0, 0)),
        (at(2000, 2, 28, 23, 59, 59), at(2000, 2, 29, 0, 0, 0)),
        (at(2000, 2, 29, 23, 59, 59), at(2000, 3, 1, 0, 0, 0)),
        (at(1900, 2, 28, 23, 59, 59), at(1900, 3, 1, 0, 0, 0)),
        (at(1, 1, 1, 0, 0, 0), at(1, 1, 1, 0, 0, 1)),
        (at(9999, 12, 31, 23, 59, 58), at(9999, 12, 31, 23, 59, 59)),
        (at(1582, 10, 4, 12, 0, 0), at(1582, 10, 15, 12, 0, 0)),
    ];
    for (a, b) in pairs {
        let ja = JulianTime::new(a);
        let jb = JulianTime::new(b);
        assert!(ja.day_millis < jb.day_millis, "{:?} !< {:?}", a, b);
    }
}

#[test]
fn leap_day_validity() {
    assert!(Instant::new(2000, 2, 29, 0, 0, 0).is_some());
    assert!(Instant::new(2024, 2, 29, 0, 0, 0).is_some());
    assert!(Instant::new(1900, 2, 29, 0, 0, 0).is_none());
    assert!(Instant::new(2023, 2, 29, 0, 0, 0).is_none());
    assert!(Instant::new(2023, 4, 31, 0, 0, 0).is_none());
    assert!(Instant::new(2023, 13, 1, 0, 0, 0).is_none());
    assert!(Instant::new(0, 1, 1, 0, 0, 0).is_none());
    assert!(Instant::new(2023, 1, 1, 24, 0, 0).is_none());
}

#[test]
fn consecutive_days_differ_by_one_day_of_millis() {
    let pairs = [
        (at(2023, 12, 31, 0, 0, 0), at(2024, 1, 1, 0, 0, 0)),
        (at(2024, 1, 31, 0, 0, 0), at(2024, 2, 1, 0, 0, 0)),
        (at(2024, 4, 30, 0, 0, 0), at(2024, 5, 1, 0, 0, 0)),
        (at(2400, 2, 28, 0, 0, 0), at(2400, 2, 29, 0, 0, 0)),
        (at(2100, 2, 28, 0, 0, 0), at(2100, 3, 1, 0, 0, 0)),
    ];
    for (a, b) in pairs {
        let ja = JulianTime::new(a);
        let jb = JulianTime::new(b);
        assert_eq!(jb.day_millis - ja.day_millis, 86400000, "{:?} -> {:?}", a, b);
    }
}

#[test]
fn truncation_toward_zero_before_epoch() {
    // Half a second before the epoch truncates to zero seconds.
    assert_eq!(to_unix_seconds(UNIX_EPOCH_JULIAN_MILLIS - 500), 0);
    assert_eq!(to_unix_seconds(UNIX_EPOCH_JULIAN_MILLIS + 500), 0);
    assert_eq!(to_unix_seconds(UNIX_EPOCH_JULIAN_MILLIS - 1500), -1);
}
