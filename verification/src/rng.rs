//! The machine's one source of randomness, behind a trusted boundary.

use vstd::prelude::*;

verus! {

/// Relies on `rand::random`: draws one uniformly random byte. Nothing is
/// assumed of the value returned; callers state what holds of every outcome.
#[verifier::external_body]
pub(crate) fn random_byte() -> u8 {
    rand::random()
}

} // verus!
