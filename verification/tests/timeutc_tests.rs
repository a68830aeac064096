use lune::julian::{Instant, JulianTime, UNIX_EPOCH_JULIAN_MILLIS};
use lune::timeutc::to_utc;
use chrono::{Datelike, Timelike};

#[test]
fn to_utc_round_trips_through_the_epoch() {
    let dt = to_utc(UNIX_EPOCH_JULIAN_MILLIS).inner;
    assert_eq!(dt.timestamp(), 0);
}

#[test]
fn to_utc_matches_known_timestamp() {
    let jt = JulianTime::new(Instant::new(2000, 1, 1, 12, 0, 0).unwrap());
    let dt = to_utc(jt.day_millis).inner;
    assert_eq!(dt.timestamp(), 946728000);
}

#[test]
fn to_utc_inverts_the_forward_conversion() {
    let civil = Instant::new(2026, 10, 11, 5, 4, 3).unwrap();
    let jt = JulianTime::new(civil);
    let dt = to_utc(jt.day_millis).inner;
    assert_eq!(dt.year(), 2026);
    assert_eq!(dt.month(), 10);
    assert_eq!(dt.day(), 11);
    assert_eq!(dt.hour(), 5);
    assert_eq!(dt.minute(), 4);
    assert_eq!(dt.second(), 3);
}

#[test]
fn to_utc_degrades_to_the_epoch_out_of_range() {
    let dt = to_utc(i64::MAX).inner;
    assert_eq!(dt.timestamp(), 0);
    let dt = to_utc(i64::MIN).inner;
    assert_eq!(dt.timestamp(), 0);
}
