use vstd::prelude::*;

verus! {

/// Relies on rand::random (a fresh value from the thread-local generator).
/// Which value comes back is not promised: callers must hold for every
/// outcome.
#[verifier::external_body]
pub(crate) fn random_u64() -> u64 {
    rand::random::<u64>()
}

/// Relies on chrono::Utc::now, read as a Unix timestamp in milliseconds.
/// The clock's reading depends on the machine, so nothing is promised of it.
#[verifier::external_body]
pub(crate) fn now_unix_ms() -> i64 {
    chrono::Utc::now().timestamp_millis()
}

} // verus!
