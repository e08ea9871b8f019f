//! What the library assumes of `std::time::Duration`.
//!
//! A duration is opaque to the verifier. Its length is named by
//! [`duration_nanos`], and the contracts below say of each operation on a
//! duration that the library calls what the standard library documents.

use std::time::Duration;
use vstd::prelude::*;

verus! {

/// The number of nanoseconds in a second.
pub const NANOS_PER_SEC: u128 = 1_000_000_000;

/// The whole length of a duration in nanoseconds, as `Duration::as_nanos`
/// returns it.
pub uninterp spec fn duration_nanos(d: Duration) -> u128;

/// The whole seconds of a duration.
pub open spec fn duration_secs(d: Duration) -> u128 {
    duration_nanos(d) / NANOS_PER_SEC
}

/// `Duration::as_nanos`: the total number of nanoseconds.
pub assume_specification[ Duration::as_nanos ](d: &Duration) -> (n: u128)
    ensures
        n == duration_nanos(*d),
;

/// `Duration::as_secs`: the number of whole seconds, which always fits in
/// 64 bits.
pub assume_specification[ Duration::as_secs ](d: &Duration) -> (s: u64)
    ensures
        s == duration_secs(*d),
;

/// `<Duration as Clone>::clone`: a duration is copied bit for bit.
pub assume_specification[ <Duration as Clone>::clone ](d: &Duration) -> (copy: Duration)
    ensures
        copy == *d,
;

/// `Duration::from_secs`: a duration of that many whole seconds.
pub assume_specification[ Duration::from_secs ](secs: u64) -> (d: Duration)
    ensures
        duration_nanos(d) == secs * NANOS_PER_SEC,
;

/// The length of the longest duration: `u64::MAX` seconds and 999 999 999
/// nanoseconds.
pub open spec fn max_duration_nanos() -> int {
    u64::MAX * NANOS_PER_SEC + 999_999_999
}

/// `Duration::saturating_mul`: the duration `rhs` times as long, or the
/// longest duration where that would be longer still.
pub assume_specification[ Duration::saturating_mul ](d: Duration, rhs: u32) -> (product: Duration)
    ensures
        duration_nanos(product) == if duration_nanos(d) * rhs <= max_duration_nanos() {
            duration_nanos(d) * rhs
        } else {
            max_duration_nanos()
        },
;

/// Whether the first duration is not longer than the second.
pub fn duration_le(a: Duration, b: Duration) -> (not_longer: bool)
    ensures
        not_longer == (duration_nanos(a) <= duration_nanos(b)),
{
    a.as_nanos() <= b.as_nanos()
}

} // verus!
