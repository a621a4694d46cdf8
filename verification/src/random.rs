//! The pseudo-random number generator behind the random instruction.

use vstd::prelude::*;
use rand::rngs::SmallRng;
use rand::{RngCore, SeedableRng};

verus! {

/// `rand::rngs::SmallRng`, a small non-cryptographic generator. Nothing is
/// known here of its state.
#[verifier::external_type_specification]
#[verifier::external_body]
pub struct ExSmallRng(rand::rngs::SmallRng);

/// Calls `SeedableRng::seed_from_u64` of `SmallRng`, which expands the seed
/// into a full generator state. Nothing is claimed of the generator made.
#[verifier::external_body]
pub(crate) fn seeded_generator(seed: u64) -> (generator: SmallRng) {
    SmallRng::seed_from_u64(seed)
}

/// Calls `RngCore::next_u64` of `SmallRng`, which advances the generator
/// and hands out 64 bits. Nothing is claimed of the value: the algorithm
/// differs between platforms and versions.
#[verifier::external_body]
pub(crate) fn next_random(generator: &mut SmallRng) -> (value: u64) {
    generator.next_u64()
}

} // verus!
