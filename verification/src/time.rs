//! `std::time::Duration` as the library reads it: a count of nanoseconds.
use vstd::prelude::*;
use std::time::Duration;

verus! {

/// The total nanoseconds of a `Duration` (`Duration::as_nanos`).
pub uninterp spec fn duration_nanos(d: Duration) -> nat;

/// Calls `Duration::as_nanos`; its result is named `duration_nanos`.
#[verifier::external_body]
pub(crate) fn duration_as_nanos(d: &Duration) -> (n: u128)
    ensures
        n == duration_nanos(*d),
        n <= u64::MAX as nat * 1_000_000_000 + 999_999_999,
{
    d.as_nanos()
}

/// Calls `Duration::saturating_sub`: `a - b`, or zero when `b` is longer.
#[verifier::external_body]
pub(crate) fn duration_saturating_sub(a: Duration, b: Duration) -> (r: Duration)
    ensures
        duration_nanos(r) == if duration_nanos(a) >= duration_nanos(b) {
            (duration_nanos(a) - duration_nanos(b)) as nat
        } else {
            0
        },
{
    a.saturating_sub(b)
}

/// Whole seconds of a duration (`Duration::as_secs`).
pub open spec fn whole_secs(d: Duration) -> nat {
    duration_nanos(d) / 1_000_000_000
}

/// `Duration::as_secs`, computed from the nanoseconds.
pub fn duration_secs(d: &Duration) -> (s: u64)
    ensures
        s == whole_secs(*d),
{
    let n = duration_as_nanos(d);
    let s = n / 1_000_000_000;
    s as u64
}

} // verus!
