//! Values drawn from the process environment: the wall clock and the
//! random generator. Each call goes through a trusted wrapper; everything
//! that depends on the returned value is verified for every value the
//! wrapper's contract admits.

use vstd::prelude::*;

verus! {

/// The current wall-clock time, in microseconds since the Unix epoch.
///
/// Relies on chrono's Utc::now for the instant; the result depends on the
/// machine's clock, so nothing is promised of it.
#[verifier::external_body]
pub fn now_micros() -> i64 {
    chrono::Utc::now().timestamp_micros()
}

/// A uniformly random synthetic temperature offset, in tenths of a degree.
///
/// Relies on rand's Rng::random_range over the thread-local generator: the
/// result lies within the given bounds. Which value comes back is left open.
#[verifier::external_body]
pub fn random_offset_tenths() -> (r: i64)
    ensures
        -10 <= r <= 10,
{
    rand::Rng::random_range(&mut rand::rng(), -10i64..=10i64)
}

} // verus!
