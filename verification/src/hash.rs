//! Keccak256 hashing using the Soroban host.
use soroban_sdk::{Bytes, BytesN, Env};
use vstd::prelude::*;

verus! {

/// The Keccak-256 digest of `data`.
pub uninterp spec fn keccak256(data: Seq<u8>) -> Seq<u8>;

/// Compute keccak256 hash using Soroban's host function
/// (`soroban_sdk::crypto::Crypto::keccak256`, host function
/// `compute_hash_keccak256`): the 32-byte Keccak-256 digest of the data,
/// named `keccak256`. Not stated: the host traps when the environment's
/// budget runs out.
#[verifier::external_body]
pub fn hash32(env: &Env, data: &[u8]) -> (h: [u8; 32])
    ensures
        h@ == keccak256(data@),
{
    let input = Bytes::from_slice(env, data);
    let digest: BytesN<32> = env.crypto().keccak256(&input).into();
    digest.into()
}

} // verus!
