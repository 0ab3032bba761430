//! Access to the wall clock.
//!
//! The stores stamp every mutation with the current time.  What the clock
//! returns is outside the program's control, so nothing is assumed about
//! the value; every contract that involves a fresh timestamp holds for
//! whatever the clock produced.

use vstd::prelude::*;

verus! {

/// Relies on `chrono::Utc::now`: the current time as milliseconds since
/// the Unix epoch.  No property of the returned value is assumed.
#[verifier::external_body]
pub fn now_millis() -> crate::Timestamp {
    chrono::Utc::now().timestamp_millis()
}

} // verus!
