//! The inverse time conversion: from a Julian day count back to a civil
//! UTC instant of the host time library.
//!
//! The arithmetic — day difference to the Unix epoch at 86400 seconds per
//! day, truncated to whole seconds — is verified in `julian`; only the
//! final step, wrapping whole seconds into a `chrono` value, is taken on
//! trust from `chrono`'s own conversion.

use vstd::prelude::*;
use crate::julian::{to_unix_seconds, unix_seconds_of_millis};

verus! {

/// A civil UTC instant of the host time library. The held value is opaque
/// here; it is carried through to callers that hand it on to `chrono`.
#[verifier::external_body]
pub struct UtcStamp {
    pub inner: chrono::DateTime<chrono::Utc>,
}

/// Smallest whole-second Unix timestamp that `chrono` can hold (year
/// -262143).
pub const MIN_TIMESTAMP: i64 = -8334601228800;

/// Largest whole-second Unix timestamp that `chrono` can hold (year
/// 262142).
pub const MAX_TIMESTAMP: i64 = 8210266876799;

/// The UTC instant with a given whole-second Unix timestamp; the value
/// depends on the timestamp alone.
pub uninterp spec fn stamp_of_timestamp(secs: int) -> UtcStamp;

/// Relies on chrono::DateTime::from_timestamp: for whole seconds within
/// chrono's representable range it returns the UTC instant with that Unix
/// timestamp, a value depending on the seconds alone; outside that range
/// it returns nothing.
#[verifier::external_body]
fn stamp_from_timestamp(secs: i64) -> (r: Option<UtcStamp>)
    ensures
        r is Some <==> MIN_TIMESTAMP <= secs <= MAX_TIMESTAMP,
        r is Some ==> r->0 == stamp_of_timestamp(secs as int),
{
    match chrono::DateTime::from_timestamp(secs, 0) {
        Some(dt) => Some(UtcStamp { inner: dt }),
        None => None,
    }
}

/// Converts a Julian day count in milliseconds back to a civil UTC
/// instant, at 86400 seconds per day and whole-second precision. A count
/// that the host time type cannot represent degrades to the Unix epoch
/// instant rather than failing.
pub fn to_utc(day_millis: i64) -> (r: UtcStamp)
    ensures
        ({
            let secs: int = unix_seconds_of_millis(day_millis as int);
            if MIN_TIMESTAMP <= secs <= MAX_TIMESTAMP {
                r == stamp_of_timestamp(secs)
            } else {
                r == stamp_of_timestamp(0)
            }
        }),
{
    let secs: i64 = to_unix_seconds(day_millis);
    match stamp_from_timestamp(secs) {
        Some(dt) => dt,
        None => {
            let fallback: Option<UtcStamp> = stamp_from_timestamp(0);
            fallback.unwrap()
        },
    }
}

} // verus!
