//! Wall-clock time.

use std::time::UNIX_EPOCH;

use vstd::prelude::*;

verus! {

/// Milliseconds since the Unix epoch (`UNIX_EPOCH.elapsed()`), or 0 when
/// the clock reads before the epoch.
///
/// Trusted: nothing is claimed of the value, which is the machine's clock.
#[verifier::external_body]
pub(crate) fn unix_time_millis() -> u64 {
    UNIX_EPOCH.elapsed().map(|d| d.as_millis() as u64).unwrap_or(0)
}

} // verus!
