//! Wiping of secrets from memory once they are no longer needed.

use vstd::prelude::*;

verus! {

/// Calls `Zeroize::zeroize` on the array as a slice, which overwrites every
/// element with zero.
///
/// Trusted: every byte is zero afterwards.
#[verifier::external_body]
pub(crate) fn wipe_array<const N: usize>(bytes: &mut [u8; N])
    ensures
        forall|i: int| 0 <= i < N ==> #[trigger] final(bytes)@[i] == 0u8,
    opens_invariants none
    no_unwind
{
    zeroize::Zeroize::zeroize(&mut bytes[..]);
}

/// Calls `Zeroize::zeroize` on the vector, which overwrites its elements and
/// its spare capacity with zero and then clears it.
///
/// Trusted: the vector is empty afterwards.
#[verifier::external_body]
pub(crate) fn wipe_vec(bytes: &mut Vec<u8>)
    ensures
        final(bytes)@.len() == 0,
{
    zeroize::Zeroize::zeroize(bytes);
}

/// Wipes bytes that held a secret, such as a password that was typed in.
pub fn forget(bytes: &mut Vec<u8>)
    ensures
        final(bytes)@.len() == 0,
{
    wipe_vec(bytes);
}

} // verus!
