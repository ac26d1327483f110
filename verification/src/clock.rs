//! Wall-clock readings used to make tile identifiers distinct.

use vstd::prelude::*;
use core::time::Duration;

verus! {

/// 2^64: nanosecond counts are reduced modulo this when narrowed to `u64`.
pub open spec fn u64_modulus() -> nat {
    0x1_0000_0000_0000_0000
}

/// What `nanos_now` gives for a reading of the clock: the nanoseconds since the
/// Unix epoch narrowed to `u64` (kept modulo 2^64), or 0 when the clock reads
/// earlier than the epoch (`None`).
pub open spec fn narrowed_nanos(elapsed: Option<u128>) -> u64 {
    match elapsed {
        Some(n) => (n as nat % u64_modulus()) as u64,
        None => 0,
    }
}

/// Narrows a clock reading, as nanoseconds since the epoch, to `u64`.
pub fn nanos_from_elapsed(elapsed: Option<u128>) -> (r: u64)
    ensures
        r == narrowed_nanos(elapsed),
{
    match elapsed {
        Some(n) => {
            let low: u128 = n % 0x1_0000_0000_0000_0000u128;
            low as u64
        },
        None => 0,
    }
}

/// `std::time::UNIX_EPOCH.elapsed()`: the time from the Unix epoch to the current
/// system clock, or `None` where the clock reads earlier than the epoch. It reads
/// the clock, so nothing is stated of the result.
#[verifier::external_body]
fn unix_epoch_elapsed() -> Option<Duration> {
    std::time::UNIX_EPOCH.elapsed().ok()
}

/// `Duration::as_nanos`: the whole nanoseconds of `d`. `Duration` is opaque to
/// Verus here, so no clause ties the result to `d`.
#[verifier::external_body]
fn duration_as_nanos(d: &Duration) -> u128 {
    d.as_nanos()
}

/// Nanoseconds since the Unix epoch, narrowed to `u64`; 0 when the clock reads
/// earlier than the epoch.
pub fn nanos_now() -> (r: u64)
    ensures
        exists|elapsed: Option<u128>| r == narrowed_nanos(elapsed),
{
    let elapsed: Option<u128> = match unix_epoch_elapsed() {
        Some(d) => Some(duration_as_nanos(&d)),
        None => None,
    };
    nanos_from_elapsed(elapsed)
}

} // verus!
