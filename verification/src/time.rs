//! Instants of time.
use chrono::Utc;
use vstd::prelude::*;

verus! {

/// An instant: seconds since the Unix epoch and the nanoseconds within the second.
#[derive(Debug, Clone, Copy, PartialEq, Eq, Structural)]
pub struct Timestamp {
    pub secs: i64,
    pub nanos: u32,
}

/// Whether the nanoseconds of an instant stay below a full second.
pub open spec fn is_instant(at: Timestamp) -> bool {
    at.nanos < 1_000_000_000
}

/// The present instant, as `chrono::Utc::now` reads it from the system clock. Nothing is said of
/// which instant that is, only that the nanoseconds stay below a full second. With a clock that
/// stands before the Unix epoch `Utc::now` panics; no argument could rule that out.
#[verifier::external_body]
pub(crate) fn now() -> (instant: Timestamp)
    ensures
        is_instant(instant),
{
    let instant = Utc::now();
    Timestamp { secs: instant.timestamp(), nanos: instant.timestamp_subsec_nanos() }
}

} // verus!
