//! The Soroban environment, through which the host's BN254 and hashing
//! functions are reached.
use vstd::prelude::*;

verus! {

/// `soroban_sdk::Env`, carried through to the host functions; nothing inside
/// it is read.
#[verifier::external_type_specification]
#[verifier::external_body]
pub struct ExEnv(soroban_sdk::Env);

} // verus!
