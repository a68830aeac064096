//! Lunar phase computations after the low-order periodic series of Meeus:
//! conversion between civil time and Julian day counts, the discrete phase
//! scale, and the quantisation of the lunation index into phase-boundary
//! brackets. All day counts and cycle positions are held as exactly scaled
//! integers (milliseconds of Julian day, millionths of a lunation), so every
//! rule on them is stated and proved exactly.

pub mod illumination;
pub mod initials;
pub mod julian;
pub mod lunation;
pub mod phase;
pub mod timeutc;
