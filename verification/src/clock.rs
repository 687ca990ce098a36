//! The wall clock that paces the 60 Hz timers.

use vstd::prelude::*;

verus! {

/// `std::time::Instant`, a point on the monotonic clock. Nothing is claimed
/// of what it holds.
#[verifier::external_type_specification]
#[verifier::external_body]
pub struct ExInstant(std::time::Instant);

/// `std::time::Instant::now` reads the clock; nothing is claimed of the
/// reading.
pub assume_specification[ std::time::Instant::now ]() -> std::time::Instant;

/// `std::time::Instant::elapsed` measures the time since the instant was
/// taken; nothing is claimed of the measure.
pub assume_specification[ std::time::Instant::elapsed ](
    anchor: &std::time::Instant,
) -> std::time::Duration;

/// `std::time::Duration::as_micros` gives the whole microseconds in a
/// duration; nothing is claimed of the number.
pub assume_specification[ std::time::Duration::as_micros ](duration: &std::time::Duration) -> u128;

} // verus!
