//! Generation of fresh entity identifiers.

use vstd::prelude::*;

verus! {

/// Relies on uuid's `Uuid::new_v4` and `Uuid::as_u128`: returns a freshly
/// generated random (version 4) UUID as its 128-bit value. The result is
/// random, so nothing is promised of it; callers must hold for every value.
#[verifier::external_body]
pub fn new_uuid_u128() -> u128 {
    uuid::Uuid::new_v4().as_u128()
}

} // verus!
