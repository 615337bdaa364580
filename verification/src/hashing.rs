//! The cryptographic hashes that the components use, computed by the host
//! environment's hashers.

use vstd::prelude::*;

verus! {

/// The Keccak-256 digest of `input`.
pub uninterp spec fn keccak_256(input: Seq<u8>) -> Seq<u8>;

/// The 256-bit BLAKE2b digest of `input`.
pub uninterp spec fn blake2x256(input: Seq<u8>) -> Seq<u8>;

/// Computes the Keccak-256 digest of `input` with `ink::env::hash_bytes`,
/// which hands the bytes to the `Keccak256` hasher and fills a 32-byte
/// buffer with the digest. The digest is a function of the input alone.
#[verifier::external_body]
pub(crate) fn hash_keccak_256(input: &Vec<u8>) -> (output: [u8; 32])
    ensures
        output@ == keccak_256(input@),
{
    let mut output = [0u8; 32];
    ink::env::hash_bytes::<ink::env::hash::Keccak256>(input, &mut output);
    output
}

/// Computes the 256-bit BLAKE2b digest of `input` with
/// `ink::env::hash_bytes`, which hands the bytes to the `Blake2x256` hasher
/// and fills a 32-byte buffer with the digest. The digest is a function of
/// the input alone.
#[verifier::external_body]
pub(crate) fn hash_blake2x256(input: &Vec<u8>) -> (output: [u8; 32])
    ensures
        output@ == blake2x256(input@),
{
    let mut output = [0u8; 32];
    ink::env::hash_bytes::<ink::env::hash::Blake2x256>(input, &mut output);
    output
}

} // verus!
