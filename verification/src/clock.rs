//! The clock: the current time as whole seconds since the Unix epoch.

use vstd::prelude::*;

verus! {

/// Relies on std::time::SystemTime::now and duration_since: the current
/// time in whole seconds since the Unix epoch. Nothing can be promised of
/// a reading of the clock; one taken before the epoch reads as zero.
#[verifier::external_body]
pub fn now() -> u64 {
    match std::time::SystemTime::now().duration_since(std::time::SystemTime::UNIX_EPOCH) {
        Ok(d) => d.as_secs(),
        Err(_) => 0,
    }
}

} // verus!
