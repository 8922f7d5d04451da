//! Wall-clock time.
use vstd::prelude::*;

verus! {

/// Seconds since the Unix epoch, from `std::time::SystemTime::now`; a clock
/// set before the epoch reads as 0. Nothing is stated of the value: it is
/// whatever the system clock holds.
#[verifier::external_body]
pub(crate) fn now_epoch() -> u64 {
    match std::time::SystemTime::now().duration_since(std::time::UNIX_EPOCH) {
        Ok(elapsed) => elapsed.as_secs(),
        Err(_) => 0,
    }
}

} // verus!
