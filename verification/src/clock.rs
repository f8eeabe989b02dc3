//! Readings of the system clock.
use vstd::prelude::*;

verus! {

/// Seconds since the Unix epoch, read from `std::time::SystemTime::now`.
///
/// The reading depends on the machine's clock, so nothing is stated of it.
/// A clock set before the epoch reads as 0.
#[verifier::external_body]
pub(crate) fn unix_now_secs() -> u64 {
    std::time::SystemTime::now()
        .duration_since(std::time::UNIX_EPOCH)
        .map(|d| d.as_secs())
        .unwrap_or(0)
}

/// The sub-second part, in nanoseconds, of the time since the Unix epoch, read
/// from `std::time::SystemTime::now` and `Duration::subsec_nanos`.
///
/// `Duration::subsec_nanos` is documented to return less than one billion;
/// nothing else is stated of the reading. A clock set before the epoch reads
/// as 0.
#[verifier::external_body]
pub(crate) fn clock_subsec_nanos() -> (res: u32)
    ensures
        res < 1_000_000_000,
{
    std::time::SystemTime::now()
        .duration_since(std::time::UNIX_EPOCH)
        .map(|d| d.subsec_nanos())
        .unwrap_or(0)
}

} // verus!
