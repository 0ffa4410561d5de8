//! Trusted bindings to the system clock and the UUID generator. Both results
//! depend on the environment, so neither binding promises anything about the
//! value it returns; every caller states what holds of every outcome.

use vstd::prelude::*;

verus! {

/// Relies on chrono's `Utc::now` for the current time, read as whole seconds
/// since the Unix epoch (chrono aborts below the epoch, before any value is
/// returned). The clock can move arbitrarily, so nothing is promised of the
/// result.
#[verifier::external_body]
pub fn now_seconds() -> i64 {
    chrono::Utc::now().timestamp()
}

/// Relies on uuid's `Uuid::new_v4` for a random version-4 UUID, carried as
/// its 128-bit value. The result is random, so nothing is promised of it.
#[verifier::external_body]
pub fn new_uuid() -> u128 {
    uuid::Uuid::new_v4().as_u128()
}

} // verus!
