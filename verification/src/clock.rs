//! Monotonic time in whole milliseconds, counted from an epoch the caller keeps.

use vstd::prelude::*;

verus! {

#[verifier::external_type_specification]
#[verifier::external_body]
pub struct ExInstant(std::time::Instant);

/// Calls `std::time::Instant::now`. Nothing is stated of the instant it returns.
#[verifier::external_body]
pub(crate) fn instant_now() -> (r: std::time::Instant) {
    std::time::Instant::now()
}

/// Calls `std::time::Instant::elapsed` on `epoch` and converts the duration to whole
/// milliseconds. The value depends on the clock, so nothing is stated of it.
#[verifier::external_body]
pub(crate) fn millis_since(epoch: &std::time::Instant) -> (r: u64) {
    epoch.elapsed().as_millis() as u64
}

} // verus!
