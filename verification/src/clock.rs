//! The wall clock that stamps leases.

use vstd::prelude::*;

verus! {

/// The current time in milliseconds since the Unix epoch, read by
/// `rocketmq_common::TimeUtils::get_current_millis`. Trusted, and nothing is
/// claimed of the value: two readings may differ in either direction, since
/// the system clock can be set back. The outside function does not return
/// where the system clock stands before the epoch.
#[verifier::external_body]
pub(crate) fn current_millis() -> u64 {
    rocketmq_common::TimeUtils::get_current_millis()
}

} // verus!
