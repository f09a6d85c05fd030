//! Ed25519 keys that are held as seeds.

use crate::encoding::{ed25519_public_key, ed25519_sign, random_bytes};
use crate::protocol::array_32;
use vstd::prelude::*;

verus! {

/// Draws the seed of a key from the operating system; any 32 bytes may come out.
pub fn generate_seed() -> [u8; 32] {
    let drawn: Vec<u8> = random_bytes(32);
    array_32(&drawn)
}

/// The public key of a seed.
pub fn public_key(seed: &[u8; 32]) -> (key: [u8; 32])
    ensures
        key@ == crate::encoding::ed25519_public(seed@),
        crate::encoding::ed25519_point(key@),
{
    ed25519_public_key(seed)
}

/// Signs a message. The public key of the seed accepts the signature.
pub fn sign(seed: &[u8; 32], message: &[u8]) -> (signature: [u8; 64])
    ensures
        signature@ == crate::encoding::ed25519_signature(seed@, message@),
        crate::encoding::ed25519_accepts(
            crate::encoding::ed25519_public(seed@),
            message@,
            signature@,
        ),
{
    ed25519_sign(seed, message)
}

} // verus!
