//! Position within the synodic cycle, held in millionths of a lunation.
//!
//! The lunation index counts mean synodic months since a fixed reference
//! new moon; its integer part is the cycle count and its fractional part
//! the position within the cycle. Here the index is held as a whole number
//! of millionths, so the quantisation onto the quarter-cycle boundaries —
//! which quarter precedes a moment, which boundaries bracket it, and
//! whether a boundary is a primary (new or full) one — is exact.

use vstd::prelude::*;
use vstd::arithmetic::div_mod::{
    lemma_fundamental_div_mod, lemma_fundamental_div_mod_converse,
    lemma_mod_division_less_than_divisor, lemma_div_is_ordered,
};
use vstd::arithmetic::mul::lemma_mul_inequality;
use crate::phase::{Phases, phase_of_index};

verus! {

/// Millionths of a lunation in one whole lunation.
pub const LUNATION_MICRO: i64 = 1000000;

/// Julian day count of the reference new moon (Julian day 2451550.09766),
/// in milliseconds.
pub const REF_NEW_MOON_JULIAN_MILLIS: i64 = 211813928437824;

/// The mean synodic month, 29.530588861 days, expressed so that division
/// stays exact: 10_000_000_000 millionths of a lunation span
/// 25_514_428_775_904 ten-thousandths of a millisecond.
pub const SYNODIC_MONTH_SCALED: i64 = 25514428775904;

/// The lunation index of a Julian day count, in millionths of a lunation,
/// rounded toward minus infinity: the day difference to the reference new
/// moon divided by the mean synodic month.
pub open spec fn lunation_micro_spec(day_millis: int) -> int {
    (day_millis - REF_NEW_MOON_JULIAN_MILLIS as int) * 10000000000
        / SYNODIC_MONTH_SCALED as int
}

/// Quotient of a negated nonnegative number: floor division turns into a
/// negated ceiling.
proof fn lemma_neg_div(mag: int, d: int)
    requires
        d > 0,
        mag >= 0,
    ensures
        (-mag) / d == -((mag + d - 1) / d),
{
    lemma_fundamental_div_mod(mag, d);
    lemma_mod_division_less_than_divisor(mag, d);
    let t: int = mag / d;
    let s: int = mag % d;
    if s == 0 {
        assert(-mag == (-t) * d + 0) by (nonlinear_arith)
            requires mag == d * t;
        lemma_fundamental_div_mod_converse(-mag, d, -t, 0);
        assert(mag + d - 1 == t * d + (d - 1)) by (nonlinear_arith)
            requires mag == d * t, d >= 1;
        lemma_fundamental_div_mod_converse(mag + d - 1, d, t, d - 1);
    } else {
        assert(-mag == (-t - 1) * d + (d - s)) by (nonlinear_arith)
            requires mag == d * t + s;
        lemma_fundamental_div_mod_converse(-mag, d, -t - 1, d - s);
        assert(mag + d - 1 == (t + 1) * d + (s - 1)) by (nonlinear_arith)
            requires mag == d * t + s;
        lemma_fundamental_div_mod_converse(mag + d - 1, d, t + 1, s - 1);
    }
}

/// Estimates the lunation index of a Julian day count, in millionths of a
/// lunation: day difference to the reference new moon over the mean
/// synodic month, rounded toward minus infinity.
pub fn lunation_index_micro(day_millis: i64) -> (r: i64)
    ensures
        r as int == lunation_micro_spec(day_millis as int),
{
    if day_millis >= REF_NEW_MOON_JULIAN_MILLIS {
        let diff: u64 = (day_millis - REF_NEW_MOON_JULIAN_MILLIS) as u64;
        proof {
            lemma_mul_inequality(diff as int, 0x7fffffffffffffffint, 10000000000);
            lemma_div_is_ordered(
                diff as int * 10000000000,
                0x7fffffffffffffffint * 10000000000,
                SYNODIC_MONTH_SCALED as int,
            );
        }
        let num: u128 = diff as u128 * 10000000000;
        (num / 25514428775904) as i64
    } else {
        let mag: u64 = (REF_NEW_MOON_JULIAN_MILLIS as i128 - day_millis as i128) as u64;
        proof {
            lemma_mul_inequality(mag as int, 0xffffffffffffffffint, 10000000000);
            lemma_div_is_ordered(
                mag as int * 10000000000 + 25514428775903,
                0xffffffffffffffffint * 10000000000 + 25514428775903,
                SYNODIC_MONTH_SCALED as int,
            );
            lemma_neg_div(mag as int * 10000000000, SYNODIC_MONTH_SCALED as int);
        }
        let num: u128 = mag as u128 * 10000000000;
        -(((num + 25514428775903) / 25514428775904) as i64)
    }
}

/// Which quarter of its cycle a lunation index sits in: 0 for the first
/// quarter-cycle after a new moon, up to 3 for the last.
pub open spec fn octant_spec(k_micro: int) -> int {
    (k_micro % 1000000) * 4 / 1000000
}

/// The index of the quarter-cycle boundary at or before a lunation index,
/// in millionths of a lunation.
pub open spec fn base_k_spec(k_micro: int) -> int {
    (k_micro / 1000000) * 1000000 + octant_spec(k_micro) * 250000
}

/// A boundary is primary — a new or full moon rather than a quarter — when
/// the fractional cycle position lies within a tenth of a cycle of zero or
/// of one half.
pub open spec fn is_primary_spec(k_micro: int) -> bool {
    let rem: int = k_micro % 1000000;
    rem < 100000 || (400000 < rem && rem < 600000)
}

/// Shifting a lunation index by a whole number of cycles moves the
/// quotient and keeps the cycle position.
proof fn lemma_shift_div_mod(k: int)
    ensures
        (k + 1000000000000000000) / 1000000 == k / 1000000 + 1000000000000,
        (k + 1000000000000000000) % 1000000 == k % 1000000,
{
    lemma_fundamental_div_mod(k, 1000000);
    lemma_mod_division_less_than_divisor(k, 1000000);
    lemma_fundamental_div_mod_converse(
        k + 1000000000000000000,
        1000000,
        k / 1000000 + 1000000000000,
        k % 1000000,
    );
}

/// The two phase boundaries that bracket a lunation index: the quarter
/// boundary at or before it and the one strictly after it, with the phases
/// they carry on the eight-step scale.
pub struct PhaseBracket {
    pub prev_phase: Phases,
    pub next_phase: Phases,
    pub prev_k_micro: i64,
    pub next_k_micro: i64,
}

/// Quantises a lunation index onto the bracketing quarter-cycle
/// boundaries. The boundary at or before carries phase `2 q` of the
/// eight-step scale for quarter `q`, the one after carries the phase two
/// steps further around, and the two boundaries enclose the index and lie
/// a quarter cycle apart.
pub fn phase_bracket(k_micro: i64) -> (r: PhaseBracket)
    requires
        -1000000000000000 <= k_micro <= 1000000000000000,
    ensures
        r.prev_k_micro as int == base_k_spec(k_micro as int),
        r.next_k_micro as int == base_k_spec(k_micro as int) + 250000,
        r.prev_k_micro <= k_micro < r.next_k_micro,
        r.prev_phase == phase_of_index(octant_spec(k_micro as int) * 2 % 8),
        r.next_phase == phase_of_index((octant_spec(k_micro as int) + 1) * 2 % 8),
        r.next_phase.index() == (r.prev_phase.index() + 2) % 8,
{
    proof {
        lemma_shift_div_mod(k_micro as int);
        lemma_fundamental_div_mod(k_micro as int + 1000000000000000000, 1000000);
        lemma_mod_division_less_than_divisor(k_micro as int, 1000000);
        lemma_fundamental_div_mod(k_micro as int, 1000000);
    }
    let shifted: u64 = (k_micro + 1000000000000000000) as u64;
    let rem: u64 = shifted % 1000000;
    let oct: u64 = rem * 4 / 1000000;
    proof {
        lemma_fundamental_div_mod(rem as int * 4, 1000000);
        lemma_mod_division_less_than_divisor(rem as int * 4, 1000000);
    }
    let base_shifted: u64 = shifted - rem + oct * 250000;
    let prev_k: i64 = base_shifted as i64 - 1000000000000000000;
    let next_k: i64 = prev_k + 250000;
    let oct8: u8 = oct as u8;
    let prev_phase: Phases = match Phases::from_int(oct8 * 2 % 8) {
        Ok(p) => p,
        Err(_) => Phases::NewMoon,
    };
    let next_phase: Phases = match Phases::from_int((oct8 + 1) * 2 % 8) {
        Ok(p) => p,
        Err(_) => Phases::NewMoon,
    };
    PhaseBracket { prev_phase, next_phase, prev_k_micro: prev_k, next_k_micro: next_k }
}

/// The bracketing phase boundaries of a moment given as a Julian day
/// count in milliseconds: the lunation index is estimated first, then
/// quantised onto the quarter-cycle boundaries around it.
pub fn phase_bracket_of_day(day_millis: i64) -> (r: PhaseBracket)
    requires
        0 <= day_millis <= 2000000000000000,
    ensures
        ({
            let k: int = lunation_micro_spec(day_millis as int);
            &&& r.prev_k_micro as int == base_k_spec(k)
            &&& r.next_k_micro as int == base_k_spec(k) + 250000
            &&& r.prev_k_micro as int <= k < r.next_k_micro as int
            &&& r.prev_phase == phase_of_index(octant_spec(k) * 2 % 8)
            &&& r.next_phase == phase_of_index((octant_spec(k) + 1) * 2 % 8)
            &&& r.next_phase.index() == (r.prev_phase.index() + 2) % 8
        }),
{
    let k: i64 = lunation_index_micro(day_millis);
    proof {
        let num: int = (day_millis as int - REF_NEW_MOON_JULIAN_MILLIS as int) * 10000000000;
        lemma_div_is_ordered(
            -2118139284378240000000000,
            num,
            SYNODIC_MONTH_SCALED as int,
        );
        lemma_div_is_ordered(
            num,
            17881860715621760000000000,
            SYNODIC_MONTH_SCALED as int,
        );
    }
    phase_bracket(k)
}

/// Classifies the boundary nearest a lunation index: primary (new or full
/// moon) against intermediate (first or last quarter). The two kinds take
/// different periodic corrections, so mixing them up would put a boundary
/// hours off.
pub fn is_primary_phase(k_micro: i64) -> (r: bool)
    requires
        -1000000000000000 <= k_micro <= 1000000000000000,
    ensures
        r == is_primary_spec(k_micro as int),
{
    proof {
        lemma_shift_div_mod(k_micro as int);
    }
    let shifted: u64 = (k_micro + 1000000000000000000) as u64;
    let rem: u64 = shifted % 1000000;
    rem < 100000 || (400000 < rem && rem < 600000)
}

} // verus!
