//! The time source for the instrumentation timestamps.

use vstd::prelude::*;

verus! {

/// Relies on time::precise_time_ns: the current value of a high-resolution
/// performance counter, in nanoseconds since an unspecified epoch.  Nothing
/// is assumed of the value; the timestamps it feeds are instrumentation only.
#[verifier::external_body]
pub(crate) fn now_ns() -> u64 {
    time::precise_time_ns()
}

} // verus!
