//! Fresh identifiers and the current time, as the store assigns them to new
//! records.
use vstd::prelude::*;

verus! {

/// Relies on `uuid::Uuid::new_v4` and `Uuid::as_u128`: a random UUID whose
/// version bits read 4 and whose variant bits read 0b10.
#[verifier::external_body]
pub(crate) fn new_id() -> (r: u128)
    ensures
        r & 0xF000_C000_0000_0000_0000u128 == 0x4000_8000_0000_0000_0000u128,
{
    uuid::Uuid::new_v4().as_u128()
}

/// Relies on `chrono::Utc::now` and `DateTime::timestamp_micros`: the
/// current time in microseconds since the Unix epoch, which `now` never
/// gives as earlier than the epoch.
#[verifier::external_body]
pub(crate) fn now_micros() -> (r: i64)
    ensures
        r >= 0,
{
    chrono::Utc::now().timestamp_micros()
}

} // verus!
