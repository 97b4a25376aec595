use vstd::prelude::*;

verus! {

/// Draws a fresh random identifier (a version-4 UUID as its 128-bit value).
/// Relies on uuid::Uuid::new_v4 and Uuid::as_u128; nothing is promised of
/// a random value but the version nibble, which new_v4 sets to 4.
#[verifier::external_body]
pub(crate) fn fresh_id() -> (r: u128)
    ensures
        (r >> 76u128) & 0xfu128 == 4,
{
    uuid::Uuid::new_v4().as_u128()
}

} // verus!
