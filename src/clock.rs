//! Identity and time sources: fresh message/peer ids and the wall clock.
use vstd::prelude::*;

verus! {

/// Relies on `uuid::Uuid::new_v4` rendered through its `Display` impl: a
/// random version-4 UUID in hyphenated form, which is 36 characters long.
#[verifier::external_body]
pub(crate) fn fresh_id() -> (r: String)
    ensures
        r@.len() == 36,
{
    uuid::Uuid::new_v4().to_string()
}

/// Relies on `std::time::SystemTime::now`: the current time in whole seconds
/// since the Unix epoch (0 if the clock reads earlier than the epoch).
#[verifier::external_body]
pub fn get_current_timestamp() -> (r: u64) {
    std::time::SystemTime::now().duration_since(std::time::UNIX_EPOCH).map(|d| d.as_secs()).unwrap_or(0)
}

} // verus!
