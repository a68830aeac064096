use lune::julian::{Instant, JulianTime};
use lune::lunation::{
    lunation_index_micro, phase_bracket, phase_bracket_of_day, is_primary_phase,
    REF_NEW_MOON_JULIAN_MILLIS,
};
use lune::phase::Phases;

#[test]
fn lunation_index_is_zero_at_reference_new_moon() {
    assert_eq!(lunation_index_micro(REF_NEW_MOON_JULIAN_MILLIS), 0);
}

#[test]
fn lunation_index_after_one_synodic_month() {
    // 29.530588861 days is 2551442877.5904 milliseconds; one millisecond
    // past that lands just beyond one full cycle.
    assert_eq!(lunation_index_micro(REF_NEW_MOON_JULIAN_MILLIS + 2551442878), 1000000);
    assert_eq!(lunation_index_micro(REF_NEW_MOON_JULIAN_MILLIS + 2551442877), 999999);
}

#[test]
fn lunation_index_floors_toward_minus_infinity() {
    let k = lunation_index_micro(REF_NEW_MOON_JULIAN_MILLIS - 2551442878);
    assert_eq!(k, -1000001);
    assert_eq!(lunation_index_micro(REF_NEW_MOON_JULIAN_MILLIS - 1), -1);
}

#[test]
fn bracket_at_reference_new_moon() {
    let b = phase_bracket(0);
    assert_eq!(b.prev_phase, Phases::NewMoon);
    assert_eq!(b.next_phase, Phases::FirstQuarter);
    assert_eq!(b.prev_k_micro, 0);
    assert_eq!(b.next_k_micro, 250000);
}

#[test]
fn bracket_mid_cycle() {
    let b = phase_bracket(300000);
    assert_eq!(b.prev_phase, Phases::FirstQuarter);
    assert_eq!(b.next_phase, Phases::FullMoon);
    assert_eq!(b.prev_k_micro, 250000);
    assert_eq!(b.next_k_micro, 500000);
    let b = phase_bracket(990000);
    assert_eq!(b.prev_phase, Phases::LastQuarter);
    assert_eq!(b.next_phase, Phases::NewMoon);
    assert_eq!(b.prev_k_micro, 750000);
    assert_eq!(b.next_k_micro, 1000000);
}

#[test]
fn bracket_before_reference_epoch() {
    let b = phase_bracket(-1000001);
    assert_eq!(b.prev_phase, Phases::LastQuarter);
    assert_eq!(b.next_phase, Phases::NewMoon);
    assert_eq!(b.prev_k_micro, -1250000);
    assert_eq!(b.next_k_micro, -1000000);
}

#[test]
fn bracket_encloses_index_and_steps_two_phases() {
    let days = [
        JulianTime::new(Instant::new(2024, 1, 1, 0, 0, 0).unwrap()).day_millis,
        JulianTime::new(Instant::new(2026, 7, 15, 6, 30, 0).unwrap()).day_millis,
        JulianTime::new(Instant::new(1969, 7, 20, 20, 17, 0).unwrap()).day_millis,
        JulianTime::new(Instant::new(1, 1, 1, 0, 0, 0).unwrap()).day_millis,
    ];
    for dm in days {
        let k = lunation_index_micro(dm);
        let b = phase_bracket_of_day(dm);
        assert!(b.prev_k_micro <= k && k < b.next_k_micro);
        assert_eq!(b.next_k_micro - b.prev_k_micro, 250000);
        assert_eq!((b.prev_phase.to_int() + 2) % 8, b.next_phase.to_int());
        assert_eq!(b.prev_phase.to_int() % 2, 0);
    }
}

#[test]
fn primary_classification_by_cycle_position() {
    assert!(is_primary_phase(0));
    assert!(is_primary_phase(99999));
    assert!(!is_primary_phase(100000));
    assert!(!is_primary_phase(250000));
    assert!(!is_primary_phase(400000));
    assert!(is_primary_phase(400001));
    assert!(is_primary_phase(500000));
    assert!(is_primary_phase(599999));
    assert!(!is_primary_phase(600000));
    assert!(!is_primary_phase(750000));
    assert!(!is_primary_phase(900000));
    // whole cycles away the classification repeats
    assert!(is_primary_phase(7500000 + 500000));
    assert!(!is_primary_phase(-250000 - 3000000 + 250000 + 250000));
    assert!(is_primary_phase(-3000000));
}
