//! Wall-clock durations handed to the caller together with commands.
use vstd::prelude::*;
use std::time::Duration;

verus! {

/// The `Duration` that `Duration::from_millis(ms)` builds.
pub uninterp spec fn duration_of_millis(ms: u64) -> Duration;

/// Calls `std::time::Duration::from_millis`, which never panics and returns the
/// duration of `ms` milliseconds; the contract names that value.
#[verifier::external_body]
pub(crate) fn duration_from_millis(ms: u64) -> (d: Duration)
    ensures
        d == duration_of_millis(ms),
{
    Duration::from_millis(ms)
}

} // verus!
