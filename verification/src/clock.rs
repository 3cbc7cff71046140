//! The clocks the library reads: the monotonic clock that paces order
//! submission and the UTC wall clock that stamps order records.
use std::time::Instant;
use vstd::prelude::*;

verus! {

/// `std::time::Instant`, a reading of the monotonic clock, carried through
/// opaquely.
#[verifier::external_type_specification]
#[verifier::external_body]
pub struct ExInstant(Instant);

/// Reads the monotonic clock with `std::time::Instant::now`. Nothing is
/// stated of the reading: it depends on the time.
#[verifier::external_body]
pub(crate) fn monotonic_now() -> (now: Instant) {
    Instant::now()
}

/// Nanoseconds elapsed on the monotonic clock since `epoch`, read with
/// `Instant::elapsed` and converted to a count by `Duration::as_nanos`.
/// Nothing is stated of the count: it depends on the time.
#[verifier::external_body]
pub(crate) fn nanos_since(epoch: &Instant) -> (nanos: u128) {
    epoch.elapsed().as_nanos()
}

/// A UTC wall-clock time: whole seconds since the Unix epoch and the
/// nanoseconds past that second (up to 1_999_999_999 within a leap second,
/// as chrono represents it).
#[derive(Debug, Clone, Copy, PartialEq, Eq, Structural)]
pub struct UtcStamp {
    pub secs: i64,
    pub nanos: u32,
}

/// The UTC wall-clock time, read with `chrono::Utc::now` and converted to
/// seconds and nanoseconds by `DateTime::timestamp` and
/// `DateTime::timestamp_subsec_nanos`. Only chrono's documented range of the
/// nanoseconds is stated: the reading depends on the time.
#[verifier::external_body]
pub(crate) fn utc_now() -> (now: UtcStamp)
    ensures
        now.nanos < 2_000_000_000,
{
    let now = chrono::Utc::now();
    UtcStamp { secs: now.timestamp(), nanos: now.timestamp_subsec_nanos() }
}

} // verus!
