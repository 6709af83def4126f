//! The monotonic clock: opaque instants captured at guard creation, and the
//! elapsed span read back at disposal. What the clock returns depends on the
//! moment of the call, so nothing is promised of the values beyond the
//! documented shape of a duration's sub-second part.

use vstd::prelude::*;

verus! {

/// Relies on std::time::Instant, an opaque monotonic timestamp.
#[verifier::external_type_specification]
#[verifier::external_body]
pub struct ExInstant(std::time::Instant);

/// Relies on std::time::Instant::now: an instant read from the monotonic
/// clock; nothing holds of its value.
pub assume_specification[ std::time::Instant::now ]() -> std::time::Instant;

/// Relies on std::time::Instant::elapsed: the span from the instant to now;
/// nothing holds of its value beyond being a duration.
pub assume_specification[ std::time::Instant::elapsed ](
    t: &std::time::Instant,
) -> core::time::Duration;

/// Relies on core::time::Duration::as_secs: the whole seconds of the span.
pub assume_specification[ core::time::Duration::as_secs ](d: &core::time::Duration) -> u64;

/// Relies on core::time::Duration::subsec_nanos: the fractional part of the
/// span in nanoseconds, documented to be below one billion.
pub assume_specification[ core::time::Duration::subsec_nanos ](d: &core::time::Duration) -> (r:
    u32)
    ensures
        r < 1_000_000_000,
;

} // verus!
