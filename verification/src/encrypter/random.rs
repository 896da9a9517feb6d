//! The random number generator that salts, nonces and keys are drawn from.

use vstd::prelude::*;

verus! {

/// `rand_hc::Hc128Rng`, the HC-128 random number generator. Nothing of its
/// state is visible to the proofs.
#[verifier::external_type_specification]
#[verifier::external_body]
pub struct ExHc128Rng(rand_hc::Hc128Rng);

/// `rand::Error`, the error of a random source. Nothing of it is visible to
/// the proofs.
#[verifier::external_type_specification]
#[verifier::external_body]
pub struct ExRandError(rand::Error);

/// The operating system gave no entropy to seed a generator with.
#[derive(Debug, Clone, Copy, PartialEq, Eq, Structural)]
pub struct NoEntropy;

/// Calls `SeedableRng::from_rng` for `Hc128Rng` with `OsRng`, which seeds
/// the generator from the operating system and fails where that can
/// provide no entropy.
///
/// Trusted: nothing is claimed of the generator.
#[verifier::external_body]
fn os_seeded_rng() -> Result<rand_hc::Hc128Rng, rand::Error> {
    <rand_hc::Hc128Rng as rand::SeedableRng>::from_rng(rand::rngs::OsRng)
}

/// A generator seeded from the operating system.
pub(crate) fn seeded_rng() -> Result<rand_hc::Hc128Rng, NoEntropy> {
    match os_seeded_rng() {
        Ok(rng) => Ok(rng),
        Err(_) => Err(NoEntropy),
    }
}

/// Calls `RngCore::fill_bytes` on a fresh array of `N` bytes.
///
/// Trusted: nothing is claimed of the bytes; the array type gives their
/// number.
#[verifier::external_body]
pub(crate) fn random_bytes<const N: usize>(rng: &mut rand_hc::Hc128Rng) -> [u8; N] {
    let mut bytes = [0u8; N];
    rand::RngCore::fill_bytes(rng, &mut bytes);
    bytes
}

} // verus!
