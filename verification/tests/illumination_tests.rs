use lune::illumination::{phase_index, current_phase};
use lune::phase::Phases;

#[test]
fn new_moon_has_index_zero() {
    // At a documented new moon (2000-01-06 18:14 UTC) the illuminated
    // fraction is near zero and the elongation near zero degrees.
    assert_eq!(phase_index(500, 1000000), 0);
    assert_eq!(current_phase(500, 1000000), Phases::NewMoon);
}

#[test]
fn full_moon_has_index_four() {
    // At a documented full moon (2000-01-21 04:40 UTC) the fraction is
    // near one; just past opposition the elongation exceeds 180 degrees.
    assert_eq!(phase_index(999900, 180500000), 4);
    assert_eq!(current_phase(999900, 180500000), Phases::FullMoon);
    // just before opposition the waxing branch reaches the same bucket
    // only at an exactly full disc
    assert_eq!(phase_index(1000000, 179500000), 4);
    assert_eq!(current_phase(1000000, 179500000), Phases::FullMoon);
}

#[test]
fn same_fraction_waxing_and_waning_fall_in_different_halves() {
    // thirty percent illuminated, on either side of opposition
    let waxing = phase_index(300000, 100000000);
    let waning = phase_index(300000, 260000000);
    assert_eq!(waxing, 1);
    assert_eq!(waning, 6);
    assert!(waxing < 4);
    assert!((4..8).contains(&waning));
}

#[test]
fn quarter_boundaries_round_down() {
    assert_eq!(phase_index(250000, 0), 1);
    assert_eq!(phase_index(249999, 0), 0);
    assert_eq!(phase_index(500000, 0), 2);
    assert_eq!(phase_index(750000, 170000000), 3);
    assert_eq!(phase_index(750000, 190000000), 4 + 1);
}

#[test]
fn empty_disc_on_waning_side_wraps_to_new_moon() {
    // a fully dark disc just before conjunction has index eight, which
    // wraps to new moon on the phase scale
    assert_eq!(phase_index(0, 359000000), 8);
    assert_eq!(current_phase(0, 359000000), Phases::NewMoon);
    assert_eq!(phase_index(0, 0), 0);
    assert_eq!(current_phase(0, 0), Phases::NewMoon);
}
