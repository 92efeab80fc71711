//! Trusted bridge to the system clock. Timestamps are metadata only: they
//! never enter the hash computation, so nothing is promised of the values.

use vstd::prelude::*;

verus! {

/// Relies on chrono's `Utc::now().to_rfc3339()`: the current UTC time as an
/// RFC 3339 string. The result depends on the clock, so no contract is
/// stated. Panics if the system clock is set before the Unix epoch, which
/// chrono checks with an `expect`.
#[verifier::external_body]
pub fn get_current_timestamp_rfc3339() -> String {
    chrono::Utc::now().to_rfc3339()
}

/// Relies on chrono's `Utc::now().timestamp()`: the current UTC time as
/// seconds since the epoch. The result depends on the clock, so no contract
/// is stated; the cast is applied to a value chrono has already guarded to be
/// nonnegative. Panics if the system clock is set before the Unix epoch,
/// which chrono checks with an `expect`.
#[verifier::external_body]
pub fn get_current_timestamp() -> u64 {
    chrono::Utc::now().timestamp() as u64
}

} // verus!
