//! What only the host can provide: fresh identifiers and the current time.
//! Both wrappers promise nothing of their value; every caller states what
//! holds whatever comes back.

use vstd::prelude::*;

verus! {

/// Relies on uuid::Uuid::new_v4: a freshly drawn random identifier, carried
/// as its 128-bit value.  The draw is random, so nothing is promised of it.
#[verifier::external_body]
pub(crate) fn fresh_key() -> u128 {
    uuid::Uuid::new_v4().as_u128()
}

/// Relies on chrono::Utc::now: the current instant in milliseconds since the
/// epoch.  The clock is the host's, so nothing is promised of the value.
#[verifier::external_body]
pub(crate) fn now_millis() -> i64 {
    chrono::Utc::now().timestamp_millis()
}

} // verus!
