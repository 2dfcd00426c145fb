//! Helpers that ask the machine.

use vstd::prelude::*;
use std::time::{SystemTime, UNIX_EPOCH};

verus! {

/// `SystemTime::now` and `SystemTime::duration_since` the epoch, in whole
/// seconds; 0 where the clock stands before the epoch. Nothing is known of
/// the result: it is the time.
#[verifier::external_body]
fn seconds_since_epoch() -> u64 {
    SystemTime::now().duration_since(UNIX_EPOCH).map(|d| d.as_secs()).unwrap_or(0)
}

/// The time of the machine, in seconds since the epoch.
pub fn now_second() -> u64 {
    seconds_since_epoch()
}

} // verus!
