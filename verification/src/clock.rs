//! The time.

use vstd::prelude::*;

verus! {

/// Calls `chrono::Utc::now` and takes its seconds since 1970. Nothing is said of the result.
#[verifier::external_body]
pub(crate) fn now_seconds() -> (r: i64) {
    chrono::Utc::now().timestamp()
}

/// Calls `chrono::Utc::now` and takes its nanoseconds since 1970, or zero where they do not fit.
/// Nothing is said of the result.
#[verifier::external_body]
pub(crate) fn now_nanos() -> (r: i64) {
    chrono::Utc::now().timestamp_nanos_opt().unwrap_or(0)
}

/// Calls `chrono::Utc::now` and takes its milliseconds since 1970. Nothing is said of the result.
#[verifier::external_body]
pub(crate) fn now_millis() -> (r: i64) {
    chrono::Utc::now().timestamp_millis()
}

} // verus!
