//! Derivation of fresh asset identifiers.
//!
//! An identifier is made in three steps, of which the middle one belongs to
//! the host: the registry's nonce is encoded and digested into a subject; the
//! host's randomness source answers the subject with 32 bytes; those bytes
//! are encoded and digested, and the digest is the identifier.
use frame_support::codec::Encode;
use sp_runtime::traits::BlakeTwo256;
use vstd::bytes::spec_u64_to_le_bytes;
use vstd::prelude::*;

use crate::ident::AssetId;

verus! {

/// The 32-byte Blake2b digest of `data`, as `sp_runtime`'s `BlakeTwo256`
/// computes it.
pub uninterp spec fn blake2_256(data: Seq<u8>) -> Seq<u8>;

/// Calls `<BlakeTwo256 as Hash>::hash`.
///
/// Trusted: the digest is a function of the bytes alone, which is given the
/// name `blake2_256`.
#[verifier::external_body]
fn digest(data: &[u8]) -> (out: [u8; 32])
    ensures
        out@ == blake2_256(data@),
{
    <BlakeTwo256 as sp_runtime::traits::Hash>::hash(data).to_fixed_bytes()
}

/// Calls `Encode::encode` on a `u64`.
///
/// Trusted: the codec writes a `u64` as its eight bytes in little-endian
/// order.
#[verifier::external_body]
fn encode_u64(value: u64) -> (out: Vec<u8>)
    ensures
        out@ == spec_u64_to_le_bytes(value),
{
    value.encode()
}

/// Calls `Encode::encode` on the 256-bit hash type that `BlakeTwo256`
/// produces.
///
/// Trusted: the codec writes such a hash as its 32 bytes, unchanged and
/// without a length in front.
#[verifier::external_body]
fn encode_hash(value: &[u8; 32]) -> (out: Vec<u8>)
    ensures
        out@ == value@,
{
    <BlakeTwo256 as sp_runtime::traits::Hash>::Output::from(*value).encode()
}

/// The subject that stands for `nonce` before the randomness source.
pub open spec fn subject_of(nonce: nat) -> Seq<u8> {
    blake2_256(spec_u64_to_le_bytes(nonce as u64))
}

/// The identifier that the randomness source's answer `random` gives.
pub open spec fn id_of(random: Seq<u8>) -> AssetId {
    AssetId::of_bytes(blake2_256(random))
}

/// The subject to hand to the randomness source for the mint that `nonce`
/// counts: the digest of the encoded nonce.
pub fn randomness_subject(nonce: u64) -> (subject: [u8; 32])
    ensures
        subject@ == subject_of(nonce as nat),
{
    let encoded = encode_u64(nonce);
    digest(encoded.as_slice())
}

/// The identifier of the next asset, from what the randomness source
/// answered: the digest of the encoded answer.
pub fn next_id(random: &[u8; 32]) -> (id: AssetId)
    ensures
        id == id_of(random@),
{
    let encoded = encode_hash(random);
    AssetId::from_bytes(digest(encoded.as_slice()))
}

} // verus!
