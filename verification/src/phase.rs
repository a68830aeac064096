//! The eight-step discrete phase scale of the synodic cycle.

use vstd::prelude::*;

verus! {

/// The eight named phases of the synodic cycle, ordered from new moon around
/// to waning crescent. The scale wraps: the step after `WaningCrescent` is
/// `NewMoon` again.
#[derive(Clone, Copy, Debug, PartialEq, Eq, Structural)]
pub enum Phases {
    NewMoon,
    WaxingCrescent,
    FirstQuarter,
    WaxingGibbous,
    FullMoon,
    WaningGibbous,
    LastQuarter,
    WaningCrescent,
}

/// The phase that sits at position `n` of the scale, for `n` in `0..8`.
/// Out-of-range positions fall back to `NewMoon`; callers that care pass a
/// reduced index.
pub open spec fn phase_of_index(n: int) -> Phases {
    if n == 1 {
        Phases::WaxingCrescent
    } else if n == 2 {
        Phases::FirstQuarter
    } else if n == 3 {
        Phases::WaxingGibbous
    } else if n == 4 {
        Phases::FullMoon
    } else if n == 5 {
        Phases::WaningGibbous
    } else if n == 6 {
        Phases::LastQuarter
    } else if n == 7 {
        Phases::WaningCrescent
    } else {
        Phases::NewMoon
    }
}

impl Phases {
    /// The position of this phase on the scale, in `0..8`.
    pub open spec fn index(self) -> int {
        match self {
            Phases::NewMoon => 0,
            Phases::WaxingCrescent => 1,
            Phases::FirstQuarter => 2,
            Phases::WaxingGibbous => 3,
            Phases::FullMoon => 4,
            Phases::WaningGibbous => 5,
            Phases::LastQuarter => 6,
            Phases::WaningCrescent => 7,
        }
    }

    /// Converts a numeric index to a phase. Succeeds exactly on `0..=8`;
    /// `8` wraps to `NewMoon`, since an illuminated fraction of one on the
    /// waning branch lands one full step past `WaningCrescent`.
    pub fn from_int(n: u8) -> (r: Result<Phases, String>)
        ensures
            r is Ok <==> n <= 8,
            n <= 8 ==> r == Ok::<Phases, String>(phase_of_index(n as int % 8)),
            n > 8 ==> (r matches Err(e) && e@ == "Invalid moon phase number"@),
    {
        match n {
            0 | 8 => Ok(Phases::NewMoon),
            1 => Ok(Phases::WaxingCrescent),
            2 => Ok(Phases::FirstQuarter),
            3 => Ok(Phases::WaxingGibbous),
            4 => Ok(Phases::FullMoon),
            5 => Ok(Phases::WaningGibbous),
            6 => Ok(Phases::LastQuarter),
            7 => Ok(Phases::WaningCrescent),
            _ => Err("Invalid moon phase number".to_owned()),
        }
    }

    /// The numeric index of this phase, in `0..8`.
    pub fn to_int(&self) -> (r: u8)
        ensures
            r as int == self.index(),
            r < 8,
    {
        match self {
            Phases::NewMoon => 0,
            Phases::WaxingCrescent => 1,
            Phases::FirstQuarter => 2,
            Phases::WaxingGibbous => 3,
            Phases::FullMoon => 4,
            Phases::WaningGibbous => 5,
            Phases::LastQuarter => 6,
            Phases::WaningCrescent => 7,
        }
    }
}

/// Law: converting a phase to its index and back yields the same phase.
pub proof fn lemma_phase_index_round_trip(p: Phases)
    ensures
        phase_of_index(p.index()) == p,
{
}

/// Law: converting an in-range index to a phase and back yields the same
/// index.
pub proof fn lemma_index_phase_round_trip(n: int)
    requires
        0 <= n < 8,
    ensures
        phase_of_index(n).index() == n,
{
}

} // verus!
