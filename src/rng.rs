//! The random generator that sampling draws from.
use rand::rngs::SmallRng;
use vstd::prelude::*;

verus! {

#[verifier::external_type_specification]
#[verifier::external_body]
pub struct ExSmallRng(SmallRng);

/// Relies on `rand_core::RngCore::next_u32` for `SmallRng`: the next 32 bits
/// of the generator's stream. Nothing is promised of their value.
#[verifier::external_body]
pub(crate) fn next_u32(rng: &mut SmallRng) -> (r: u32) {
    rand_core::RngCore::next_u32(rng)
}

} // verus!
