//! The monotonic clock, behind trusted declarations: readings are opaque
//! instants, and the verified time keeping works on the nanosecond counts
//! between them.

use vstd::prelude::*;

verus! {

#[verifier::external_type_specification]
#[verifier::external_body]
pub struct ExInstant(std::time::Instant);

/// Relies on std::time::Instant::now: a reading of the monotonic clock.
/// Nothing is promised of the value; the verified code states only what
/// holds of every reading.
#[verifier::external_body]
pub(crate) fn instant_now() -> std::time::Instant {
    std::time::Instant::now()
}

/// Relies on std::time::Instant::saturating_duration_since: the span from
/// `earlier` to `later`, zero when `later` is the earlier of the two.
#[verifier::external_body]
pub(crate) fn span_since(later: &std::time::Instant, earlier: &std::time::Instant) -> std::time::Duration {
    later.saturating_duration_since(*earlier)
}

/// Relies on std::time::Duration::as_nanos: the whole number of nanoseconds
/// the span holds.
#[verifier::external_body]
pub(crate) fn span_nanos(d: &std::time::Duration) -> u128 {
    d.as_nanos()
}

/// The nanoseconds from `earlier` to `later`, saturating both below (a
/// non-advancing clock reads as zero) and above (at the largest count that
/// fits).
pub(crate) fn nanos_between(later: &std::time::Instant, earlier: &std::time::Instant) -> u64 {
    let d = span_since(later, earlier);
    let n = span_nanos(&d);
    if n > u64::MAX as u128 {
        u64::MAX
    } else {
        n as u64
    }
}

} // verus!
