//! The one reading of the wall clock the library makes. Every other
//! function takes the current time as an argument, so all decisions are
//! verified for every value of it.

use vstd::prelude::*;
use std::time::Duration;
use std::time::SystemTime;
use std::time::UNIX_EPOCH;

verus! {

/// Relies on std::time::SystemTime::now and the duration since the Unix
/// epoch: the wall clock as whole seconds. A clock before the epoch reads
/// zero, and one beyond the range of `i64` is clamped, so the reading is
/// never negative.
#[verifier::external_body]
pub fn now_unix() -> (r: i64)
    ensures
        r >= 0,
{
    let secs = SystemTime::now().duration_since(UNIX_EPOCH).unwrap_or(
        Duration::from_secs(0),
    ).as_secs();
    i64::try_from(secs).unwrap_or(i64::MAX)
}

} // verus!
