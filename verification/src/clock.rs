//! The monotonic clock of std (`std::time::Instant`).

use vstd::prelude::*;

verus! {

/// `std::time::Instant`, carried through the library opaquely.
#[verifier::external_type_specification]
#[verifier::external_body]
pub struct ExInstant(std::time::Instant);

/// `Instant::now()`. Nothing is stated of the value: it is the time.
#[verifier::external_body]
pub(crate) fn instant_now() -> (now: std::time::Instant) {
    std::time::Instant::now()
}

/// `since.elapsed()`. Nothing is stated of the value: it depends on the
/// time.
#[verifier::external_body]
pub(crate) fn elapsed_since(since: &std::time::Instant) -> (elapsed: core::time::Duration) {
    since.elapsed()
}

/// `Duration::as_nanos`: the whole duration in nanoseconds. Nothing is
/// stated of the value: a `Duration` is opaque to the library.
#[verifier::external_body]
pub(crate) fn duration_nanos(d: &core::time::Duration) -> (nanos: u128) {
    d.as_nanos()
}

} // verus!
