//! Conversion between civil calendar time and Julian day counts.
//!
//! A civil instant is decomposed into year, month, day, hour, minute and
//! second. Its Julian day count is held in whole milliseconds, so the
//! classical floor formula over the adjusted year and month is computed
//! exactly, with no rounding at all: one Julian day is 86_400_000
//! milliseconds, and the half-day offset of the Julian epoch is 43_200_000.

use vstd::prelude::*;
use vstd::arithmetic::div_mod::{
    lemma_fundamental_div_mod, lemma_fundamental_div_mod_converse, lemma_div_multiples_vanish,
    lemma_mod_division_less_than_divisor,
};

verus! {

/// Julian day count of the Unix epoch (1970-01-01T00:00:00 UTC), in
/// milliseconds: 2440587.5 days.
pub const UNIX_EPOCH_JULIAN_MILLIS: i64 = 210866760000000;

/// A calendar year is a leap year under the Gregorian rule.
pub open spec fn is_leap_year(y: int) -> bool {
    y % 4 == 0 && (y % 100 != 0 || y % 400 == 0)
}

/// Number of days of month `m` of year `y`, for `m` in `1..=12`.
pub open spec fn days_in_month(y: int, m: int) -> int {
    if m == 2 {
        if is_leap_year(y) {
            29
        } else {
            28
        }
    } else if m == 4 || m == 6 || m == 9 || m == 11 {
        30
    } else {
        31
    }
}

/// A year, month and day form a real proleptic Gregorian calendar date
/// within the supported year range.
pub open spec fn valid_date(y: int, m: int, d: int) -> bool {
    &&& 1 <= y <= 9999
    &&& 1 <= m <= 12
    &&& 1 <= d <= days_in_month(y, m)
}

/// An absolute point in civil time, with the UTC offset already resolved:
/// a proleptic Gregorian date plus a time of day in whole seconds.
#[derive(Clone, Copy, Debug, PartialEq, Eq, Structural)]
pub struct Instant {
    pub year: i32,
    pub month: u8,
    pub day: u8,
    pub hour: u8,
    pub minute: u8,
    pub second: u8,
}

impl Instant {
    /// The fields form a real calendar date and a real time of day.
    pub open spec fn valid(self) -> bool {
        &&& valid_date(self.year as int, self.month as int, self.day as int)
        &&& self.hour < 24
        &&& self.minute < 60
        &&& self.second < 60
    }

    /// Seconds elapsed since the midnight that began this instant's day.
    pub open spec fn time_of_day_seconds(self) -> int {
        self.hour as int * 3600 + self.minute as int * 60 + self.second as int
    }

    /// Checked constructor: returns the instant exactly when the fields
    /// form a real calendar date and time of day.
    pub fn new(year: i32, month: u8, day: u8, hour: u8, minute: u8, second: u8) -> (r: Option<
        Instant,
    >)
        ensures
            r is Some <==> (Instant { year, month, day, hour, minute, second }).valid(),
            r is Some ==> r->0 == (Instant { year, month, day, hour, minute, second }),
    {
        if 1 <= year && year <= 9999 && 1 <= month && month <= 12 && 1 <= day && day
            <= month_length(year, month) && hour < 24 && minute < 60 && second < 60 {
            Some(Instant { year, month, day, hour, minute, second })
        } else {
            None
        }
    }

    /// The Julian day count of this instant, in whole milliseconds.
    pub fn julian_day_millis(&self) -> (r: i64)
        requires
            self.valid(),
        ensures
            r as int == julian_millis(*self),
            r >= 0,
    {
        proof {
            lemma_julian_millis_nonneg(*self);
        }
        let (ay, am): (u64, u64) = if self.month <= 2 {
            ((self.year - 1) as u64, (self.month + 12) as u64)
        } else {
            (self.year as u64, self.month as u64)
        };
        let a: u64 = ay / 100;
        let t1: u64 = 1461 * (ay + 4716) / 4;
        let t2: u64 = 306001 * (am + 1) / 10000;
        let dn: i64 = t1 as i64 + t2 as i64 + self.day as i64 + 2 - a as i64 + (a / 4) as i64
            - 1525;
        let tod: i64 = self.hour as i64 * 3600 + self.minute as i64 * 60 + self.second as i64;
        dn * 86400000 + 43200000 + tod * 1000
    }
}

/// The whole-day part of the classical Julian day formula: the Julian day
/// count at noon of the given civil date. Dates with month one or two are
/// counted as month thirteen or fourteen of the year before, and the
/// century correction `2 - a + a/4` accounts for the dropped Gregorian
/// leap days.
pub open spec fn day_number(y: int, m: int, d: int) -> int {
    let ay: int = if m <= 2 {
        y - 1
    } else {
        y
    };
    let am: int = if m <= 2 {
        m + 12
    } else {
        m
    };
    let a: int = ay / 100;
    1461 * (ay + 4716) / 4 + 306001 * (am + 1) / 10000 + d + 2 - a + a / 4 - 1525
}

/// The Julian day count of an instant, in milliseconds: midnight of a
/// civil day lies half a day, that is 43_200_000 milliseconds, past its
/// whole day number.
pub open spec fn julian_millis(i: Instant) -> int {
    day_number(i.year as int, i.month as int, i.day as int) * 86400000 + 43200000
        + i.time_of_day_seconds() * 1000
}

/// Number of days of month `m` of year `y`, executable form.
pub fn month_length(year: i32, month: u8) -> (r: u8)
    requires
        1 <= year,
        1 <= month <= 12,
    ensures
        r as int == days_in_month(year as int, month as int),
{
    if month == 2 {
        let y: u64 = year as u64;
        if y % 4 == 0 && (y % 100 != 0 || y % 400 == 0) {
            29
        } else {
            28
        }
    } else if month == 4 || month == 6 || month == 9 || month == 11 {
        30
    } else {
        31
    }
}

/// The day number of every supported date keeps the full Julian day count
/// of the instant nonnegative.
pub proof fn lemma_julian_millis_nonneg(i: Instant)
    requires
        i.valid(),
    ensures
        julian_millis(i) >= 0,
        day_number(i.year as int, i.month as int, i.day as int) >= 1721118,
{
    let y: int = i.year as int;
    let m: int = i.month as int;
    let ay: int = if m <= 2 { y - 1 } else { y };
    let am: int = if m <= 2 { m + 12 } else { m };
    assert(ay >= 0);
    assert(1461 * (ay + 4716) >= 1461 * 4716) by (nonlinear_arith)
        requires ay >= 0;
    assert(1461 * (ay + 4716) / 4 >= 1461 * 4716 / 4) by {
        vstd::arithmetic::div_mod::lemma_div_is_ordered(1461int * 4716, 1461 * (ay + 4716), 4);
    }
    assert(306001 * (am + 1) / 10000 >= 306001 * 4 / 10000) by {
        assert(306001 * (am + 1) >= 306001 * 4) by (nonlinear_arith)
            requires am >= 3;
        vstd::arithmetic::div_mod::lemma_div_is_ordered(306001int * 4, 306001 * (am + 1), 10000);
    }
    let a: int = ay / 100;
    assert(0 <= a <= 99) by {
        assert(ay <= 9999);
        lemma_fundamental_div_mod(ay, 100);
        lemma_mod_division_less_than_divisor(ay, 100);
    }
    assert(a / 4 >= 0) by {
        lemma_fundamental_div_mod(a, 4);
        lemma_mod_division_less_than_divisor(a, 4);
    }
    assert(day_number(y, m, i.day as int) >= 1722369 + 122 + 1 + 2 - 99 + 0 - 1525);
    assert(day_number(y, m, i.day as int) * 86400000 >= 0) by (nonlinear_arith)
        requires day_number(y, m, i.day as int) >= 1;
}

/// Quotient step: dividing `n + 1` raises the quotient exactly when `n`
/// ends a full block of the divisor.
proof fn lemma_div_step(n: int, d: int)
    requires
        d > 0,
    ensures
        (n + 1) / d == n / d + if n % d == d - 1 { 1int } else { 0int },
        (n + 1) % d == if n % d == d - 1 { 0int } else { n % d + 1 },
{
    lemma_fundamental_div_mod(n, d);
    lemma_mod_division_less_than_divisor(n, d);
    let q: int = n / d;
    let r: int = n % d;
    assert(n == q * d + r) by (nonlinear_arith)
        requires n == d * q + r;
    if r == d - 1 {
        assert(n + 1 == (q + 1) * d + 0) by (nonlinear_arith)
            requires n == q * d + r, r == d - 1;
        lemma_fundamental_div_mod_converse(n + 1, d, q + 1, 0);
    } else {
        assert(n + 1 == q * d + (r + 1));
        lemma_fundamental_div_mod_converse(n + 1, d, q, r + 1);
    }
}

/// The quarter-day term in closed form: `1461 n / 4 == 365 n + n / 4`.
proof fn lemma_quarter_term(n: int)
    requires
        n >= 0,
    ensures
        1461 * n / 4 == 365 * n + n / 4,
{
    lemma_fundamental_div_mod(n, 4);
    lemma_mod_division_less_than_divisor(n, 4);
    let q: int = n / 4;
    let r: int = n % 4;
    assert(1461 * n == (365 * n + q) * 4 + r) by (nonlinear_arith)
        requires n == 4 * q + r;
    lemma_fundamental_div_mod_converse(1461 * n, 4, 365 * n + q, r);
}

/// Remainder after adding a constant: `(y + 4715) % 4 == 3` exactly when
/// `y % 4 == 0`.
proof fn lemma_shift_mod4(y: int)
    ensures
        (y + 4715) % 4 == 3 <==> y % 4 == 0,
{
    lemma_fundamental_div_mod(y, 4);
    lemma_mod_division_less_than_divisor(y, 4);
    let q: int = y / 4;
    let r: int = y % 4;
    if r == 0 {
        lemma_fundamental_div_mod_converse(y + 4715, 4, q + 1178, 3);
    } else {
        lemma_fundamental_div_mod_converse(y + 4715, 4, q + 1178 + 1, r - 1);
    }
}

/// A multiple of one hundred is a multiple of four hundred exactly when
/// the hundreds count is a multiple of four.
proof fn lemma_hundreds(y: int)
    requires
        y % 100 == 0,
    ensures
        y / 100 % 4 == 0 <==> y % 400 == 0,
        y == 100 * (y / 100),
{
    lemma_fundamental_div_mod(y, 100);
    let a: int = y / 100;
    lemma_fundamental_div_mod(a, 4);
    lemma_mod_division_less_than_divisor(a, 4);
    let q: int = a / 4;
    let r: int = a % 4;
    assert(y == 400 * q + 100 * r) by (nonlinear_arith)
        requires y == 100 * a, a == 4 * q + r;
    lemma_fundamental_div_mod_converse(y, 400, q, 100 * r);
}

/// The successor of a date: the next day, rolling over month and year ends.
pub open spec fn next_date(y: int, m: int, d: int) -> (int, int, int) {
    if d < days_in_month(y, m) {
        (y, m, d + 1)
    } else if m < 12 {
        (y, m + 1, 1)
    } else {
        (y + 1, 1, 1)
    }
}

/// Law: stepping a date to the next day raises its day number by exactly
/// one, so the day count walks the calendar with no gap and no overlap.
pub proof fn lemma_day_number_succ(y: int, m: int, d: int)
    requires
        valid_date(y, m, d),
    ensures
        ({
            let (ny, nm, nd) = next_date(y, m, d);
            day_number(ny, nm, nd) == day_number(y, m, d) + 1
        }),
{
    if d < days_in_month(y, m) {
        // same month: the formula is linear in the day
    } else if m == 2 {
        // the only rollover that changes the adjusted year: february into march
        let n1: int = y + 4715;
        lemma_quarter_term(n1);
        lemma_quarter_term(n1 + 1);
        lemma_div_step(n1, 4);
        lemma_shift_mod4(y);
        let a1: int = (y - 1) / 100;
        let a2: int = y / 100;
        lemma_div_step(y - 1, 100);
        lemma_mod_division_less_than_divisor(y - 1, 100);
        assert((y - 1) % 100 == 99 <==> y % 100 == 0) by {
            lemma_fundamental_div_mod(y - 1, 100);
            if (y - 1) % 100 == 99 {
                lemma_fundamental_div_mod_converse(y, 100, a1 + 1, 0);
            } else {
                lemma_fundamental_div_mod_converse(y, 100, a1, (y - 1) % 100 + 1);
            }
        }
        if y % 100 == 0 {
            assert(a2 == a1 + 1);
            lemma_div_step(a1, 4);
            lemma_mod_division_less_than_divisor(a1, 4);
            lemma_hundreds(y);
            assert(a1 % 4 == 3 <==> a2 % 4 == 0) by {
                lemma_fundamental_div_mod(a1, 4);
                if a1 % 4 == 3 {
                    lemma_fundamental_div_mod_converse(a2, 4, a1 / 4 + 1, 0);
                } else {
                    lemma_fundamental_div_mod_converse(a2, 4, a1 / 4, a1 % 4 + 1);
                }
            }
        } else {
            assert(a2 == a1);
        }
    } else {
        // month or year rollover that keeps the adjusted year: linear again
    }
}

/// Serial position of a date, strictly increasing along the calendar order;
/// it measures how far apart two dates can lie.
pub open spec fn date_serial(y: int, m: int, d: int) -> int {
    384 * y + 32 * m + d
}

/// Calendar order on dates: year, then month, then day.
pub open spec fn date_lt(y1: int, m1: int, d1: int, y2: int, m2: int, d2: int) -> bool {
    ||| y1 < y2
    ||| (y1 == y2 && m1 < m2)
    ||| (y1 == y2 && m1 == m2 && d1 < d2)
}

/// Law: the day number is strictly monotonic over the calendar order of
/// valid dates.
pub proof fn lemma_day_number_monotonic(y1: int, m1: int, d1: int, y2: int, m2: int, d2: int)
    requires
        valid_date(y1, m1, d1),
        valid_date(y2, m2, d2),
        date_lt(y1, m1, d1, y2, m2, d2),
    ensures
        day_number(y1, m1, d1) < day_number(y2, m2, d2),
    decreases date_serial(y2, m2, d2) - date_serial(y1, m1, d1),
{
    lemma_day_number_succ(y1, m1, d1);
    let (ny, nm, nd) = next_date(y1, m1, d1);
    assert(valid_date(ny, nm, nd));
    if ny == y2 && nm == m2 && nd == d2 {
    } else {
        assert(date_lt(ny, nm, nd, y2, m2, d2));
        assert(date_serial(y1, m1, d1) < date_serial(ny, nm, nd));
        lemma_day_number_monotonic(ny, nm, nd, y2, m2, d2);
    }
}

/// Calendar order on instants: the date order, then the time of day.
pub open spec fn instant_lt(a: Instant, b: Instant) -> bool {
    ||| date_lt(a.year as int, a.month as int, a.day as int, b.year as int, b.month as int,
        b.day as int)
    ||| (a.year == b.year && a.month == b.month && a.day == b.day && a.time_of_day_seconds()
        < b.time_of_day_seconds())
}

/// Law: the Julian day count in milliseconds is strictly monotonic over
/// civil time; two valid instants at least one second apart never share a
/// count, and the later instant always has the larger one.
pub proof fn lemma_julian_millis_strictly_monotonic(a: Instant, b: Instant)
    requires
        a.valid(),
        b.valid(),
        instant_lt(a, b),
    ensures
        julian_millis(a) < julian_millis(b),
{
    let dna: int = day_number(a.year as int, a.month as int, a.day as int);
    let dnb: int = day_number(b.year as int, b.month as int, b.day as int);
    if a.year == b.year && a.month == b.month && a.day == b.day {
        assert(a.time_of_day_seconds() < b.time_of_day_seconds());
    } else {
        lemma_day_number_monotonic(
            a.year as int,
            a.month as int,
            a.day as int,
            b.year as int,
            b.month as int,
            b.day as int,
        );
        assert(dna * 86400000 + 86400000 <= dnb * 86400000) by (nonlinear_arith)
            requires dna < dnb;
        assert(a.time_of_day_seconds() * 1000 < 86400000);
        assert(b.time_of_day_seconds() * 1000 >= 0);
    }
}

/// A civil instant paired with its Julian day count in milliseconds; the
/// count is always the one the instant converts to.
pub struct JulianTime {
    pub instant: Instant,
    pub day_millis: i64,
}

impl JulianTime {
    /// The held day count belongs to the held instant.
    pub open spec fn wf(self) -> bool {
        &&& self.instant.valid()
        &&& self.day_millis as int == julian_millis(self.instant)
    }

    /// Converts a civil instant to its Julian day count.
    pub fn new(instant: Instant) -> (r: JulianTime)
        requires
            instant.valid(),
        ensures
            r.wf(),
            r.instant == instant,
    {
        let day_millis: i64 = instant.julian_day_millis();
        JulianTime { instant, day_millis }
    }
}

/// Whole seconds since the Unix epoch for a Julian day count in
/// milliseconds, the fractional second dropped toward zero.
pub open spec fn unix_seconds_of_millis(day_millis: int) -> int {
    let diff: int = day_millis - UNIX_EPOCH_JULIAN_MILLIS as int;
    if diff >= 0 {
        diff / 1000
    } else {
        -((-diff) / 1000)
    }
}

/// Maps a Julian day count to whole seconds since the Unix epoch: the day
/// difference to the epoch's count, at 86400 seconds per day, truncated to
/// whole seconds.
pub fn to_unix_seconds(day_millis: i64) -> (r: i64)
    ensures
        r as int == unix_seconds_of_millis(day_millis as int),
{
    if day_millis >= UNIX_EPOCH_JULIAN_MILLIS {
        (((day_millis - UNIX_EPOCH_JULIAN_MILLIS) as u64) / 1000) as i64
    } else {
        let mag: u64 = (UNIX_EPOCH_JULIAN_MILLIS as i128 - day_millis as i128) as u64;
        -((mag / 1000) as i64)
    }
}

/// Law: on counts produced from civil instants the epoch mapping is exact,
/// so converting back at 86400 seconds per day loses nothing: second-level
/// precision is preserved both ways.
pub proof fn lemma_unix_seconds_exact(i: Instant)
    requires
        i.valid(),
    ensures
        unix_seconds_of_millis(julian_millis(i)) * 1000 + UNIX_EPOCH_JULIAN_MILLIS as int
            == julian_millis(i),
{
    let dn: int = day_number(i.year as int, i.month as int, i.day as int);
    let secs: int = dn * 86400 + 43200 + i.time_of_day_seconds();
    assert(julian_millis(i) == secs * 1000) by (nonlinear_arith)
        requires julian_millis(i) == dn * 86400000 + 43200000 + i.time_of_day_seconds() * 1000,
            secs == dn * 86400 + 43200 + i.time_of_day_seconds();
    let diff: int = julian_millis(i) - UNIX_EPOCH_JULIAN_MILLIS as int;
    assert(diff == (secs - 210866760000) * 1000);
    if diff >= 0 {
        lemma_div_multiples_vanish(secs - 210866760000, 1000);
        assert(diff / 1000 == secs - 210866760000);
    } else {
        lemma_div_multiples_vanish(210866760000 - secs, 1000);
        assert((-diff) / 1000 == 210866760000 - secs);
    }
}

} // verus!
