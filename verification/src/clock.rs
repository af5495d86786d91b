//! The wall clock, read once per inbound request and by the snapshot
//! loop; cells record it as their last-write time.

use vstd::prelude::*;

verus! {

/// Relies on `std::time::SystemTime::now` and
/// `SystemTime::duration_since`: the seconds elapsed since the Unix
/// epoch. Nothing is assumed of the value — the clock may move
/// arbitrarily between calls; a clock set before the epoch yields 0
/// rather than a panic.
#[verifier::external_body]
pub fn current_timestamp() -> u64 {
    match std::time::SystemTime::now().duration_since(std::time::UNIX_EPOCH) {
        Ok(d) => d.as_secs(),
        Err(_) => 0,
    }
}

} // verus!
