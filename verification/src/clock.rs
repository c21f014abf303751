//! Wall-clock readings.
//!
//! Rule cooldowns, record timestamps and peer liveness all compare points in
//! time. The verified logic takes the current time as an explicit argument;
//! the two functions here read it. A clock reading depends on the machine,
//! so nothing is promised of the values they return.

use vstd::prelude::*;

verus! {

/// Relies on `chrono::Utc::now` and `DateTime::timestamp`: the current
/// wall-clock time in whole seconds since the Unix epoch.
#[verifier::external_body]
pub fn now_seconds() -> i64 {
    chrono::Utc::now().timestamp()
}

/// Relies on `chrono::Utc::now` and `DateTime::timestamp_millis`: the current
/// wall-clock time in milliseconds since the Unix epoch.
#[verifier::external_body]
pub fn now_millis() -> i64 {
    chrono::Utc::now().timestamp_millis()
}

} // verus!
