//! Wall-clock access for the session and broadcast timers.

use vstd::prelude::*;

verus! {

/// Relies on `std::time::SystemTime::now`: milliseconds since the Unix
/// epoch, or 0 should the clock lie before it. Nothing is assumed of the
/// reading: every function that consumes it is verified for all possible
/// values.
#[verifier::external_body]
pub fn now_millis() -> u64 {
    match std::time::SystemTime::now().duration_since(std::time::UNIX_EPOCH) {
        Ok(d) => d.as_millis() as u64,
        Err(_) => 0,
    }
}

} // verus!
