//! What only the machine can give: fresh identifiers for waves, and the
//! time.

use vstd::prelude::*;

verus! {

/// A fresh identifier.
///
/// Calls `uuid::Uuid::new_v4` and renders the result with `to_string`. The
/// identifier is drawn at random from the operating system's generator, so
/// nothing is promised of it here: two calls may return anything. (The
/// outside function gives up where the operating system has no random
/// bytes to give.)
#[verifier::external_body]
pub(crate) fn fresh_id() -> String {
    uuid::Uuid::new_v4().to_string()
}

/// The time, in milliseconds since the epoch.
///
/// Calls `chrono::Utc::now` and `timestamp_millis` on the result. It reads
/// the clock of the machine, so nothing is promised of it here. (The
/// outside function gives up where the clock stands before the epoch.)
#[verifier::external_body]
pub(crate) fn now_millis() -> i64 {
    chrono::Utc::now().timestamp_millis()
}

} // verus!
