//! The one place the library reads the wall clock.

use vstd::prelude::*;
use std::time::{SystemTime, UNIX_EPOCH};

verus! {

/// Relies on `std::time::SystemTime::now`: milliseconds since the Unix
/// epoch, zero when the clock reads before it.  Nothing can be promised of
/// a clock reading.
#[verifier::external_body]
pub fn now_unix_millis() -> u64 {
    SystemTime::now().duration_since(UNIX_EPOCH).map(|d| d.as_millis() as u64).unwrap_or(0)
}

} // verus!
