//! The discrete phase index of an illuminated fraction.
//!
//! The illuminated fraction alone does not tell the two halves of the
//! cycle apart — it rises to one and falls back — so the mean elongation
//! decides the side: past 180 degrees the moon is waning. Fraction and
//! elongation arrive as exactly scaled integers, in millionths of one and
//! millionths of a degree.

use vstd::prelude::*;
use crate::phase::{Phases, phase_of_index};

verus! {

/// The discrete phase index of an illuminated fraction and a mean
/// elongation: on the waxing side (elongation at most 180 degrees) the
/// fraction picks one of the buckets 0 to 3; on the waning side the
/// complement of the fraction picks one of 4 to 8, where 8 stands for a
/// full cycle and wraps to new moon on the phase scale.
pub open spec fn phase_index_spec(fraction_micro: int, elongation_micro: int) -> int {
    if elongation_micro > 180000000 {
        4 + (1000000 - fraction_micro) * 4 / 1000000
    } else {
        fraction_micro * 4 / 1000000
    }
}

/// Computes the discrete phase index, a value in `0..=8`, of an
/// illuminated fraction in millionths and a mean elongation in millionths
/// of a degree.
pub fn phase_index(fraction_micro: u32, elongation_micro: u32) -> (r: u8)
    requires
        fraction_micro <= 1000000,
        elongation_micro < 360000000,
    ensures
        r as int == phase_index_spec(fraction_micro as int, elongation_micro as int),
        r <= 8,
{
    if elongation_micro > 180000000 {
        let c: u32 = 1000000 - fraction_micro;
        4 + (c * 4 / 1000000) as u8
    } else {
        (fraction_micro * 4 / 1000000) as u8
    }
}

/// The phase on the eight-step scale for an illuminated fraction and a
/// mean elongation: the discrete index, with a full waning cycle wrapped
/// back to new moon.
pub fn current_phase(fraction_micro: u32, elongation_micro: u32) -> (r: Phases)
    requires
        fraction_micro <= 1000000,
        elongation_micro < 360000000,
    ensures
        r == phase_of_index(
            phase_index_spec(fraction_micro as int, elongation_micro as int) % 8,
        ),
{
    let idx: u8 = phase_index(fraction_micro, elongation_micro);
    match Phases::from_int(idx) {
        Ok(p) => p,
        Err(_) => Phases::NewMoon,
    }
}

/// Law: one illuminated fraction strictly between empty and full yields a
/// waxing bucket (0 to 3) when the elongation is at most 180 degrees and a
/// waning bucket (4 to 7) when it is beyond, so the two sides of the cycle
/// never collide. At exactly empty or exactly full the two sides meet by
/// design: both give new moon, or both full moon.
pub proof fn lemma_waxing_waning_disambiguation(f: int, d_waxing: int, d_waning: int)
    requires
        0 < f < 1000000,
        0 <= d_waxing <= 180000000,
        180000000 < d_waning < 360000000,
    ensures
        0 <= phase_index_spec(f, d_waxing) < 4,
        4 <= phase_index_spec(f, d_waning) < 8,
        phase_index_spec(f, d_waxing) != phase_index_spec(f, d_waning),
{
    assert(0 <= f * 4 / 1000000 < 4) by {
        vstd::arithmetic::div_mod::lemma_div_is_ordered(f * 4, 3999996, 1000000);
        vstd::arithmetic::div_mod::lemma_div_pos_is_pos(f * 4, 1000000);
    }
    assert(0 <= (1000000 - f) * 4 / 1000000 < 4) by {
        vstd::arithmetic::div_mod::lemma_div_is_ordered((1000000 - f) * 4, 3999996, 1000000);
        vstd::arithmetic::div_mod::lemma_div_pos_is_pos((1000000 - f) * 4, 1000000);
    }
}

} // verus!
