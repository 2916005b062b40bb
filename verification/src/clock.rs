//! Access to the wall clock.
//!
//! Both functions read the current time, so nothing can be promised about
//! their results; callers state what holds of every outcome.

use vstd::prelude::*;

verus! {

/// Relies on chrono's Utc::now and DateTime::to_rfc3339: the current time,
/// formatted as an RFC 3339 timestamp.
#[verifier::external_body]
pub fn now_rfc3339() -> String {
    chrono::Utc::now().to_rfc3339()
}

/// Relies on chrono's Utc::now and DateTime::timestamp_millis: the current
/// time as milliseconds since the Unix epoch.
#[verifier::external_body]
pub fn now_unix_ms() -> i64 {
    chrono::Utc::now().timestamp_millis()
}

} // verus!
