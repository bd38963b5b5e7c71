use vstd::prelude::*;

verus! {

/// Relies on uuid::Uuid::new_v4, via Uuid::as_u128: a freshly drawn
/// version-4 UUID, carried as its 128-bit value. The draw is random,
/// so nothing is promised of the result.
#[verifier::external_body]
pub(crate) fn fresh_id() -> u128 {
    uuid::Uuid::new_v4().as_u128()
}

/// Relies on chrono::Utc::now, via DateTime::timestamp_millis: the
/// current time in milliseconds since the Unix epoch. The result
/// depends on the clock, so nothing is promised of it.
#[verifier::external_body]
pub(crate) fn now_millis() -> i64 {
    chrono::Utc::now().timestamp_millis()
}

} // verus!
