pub mod ec;
pub mod error;
pub mod field;
pub mod hash;
pub mod host;
pub mod num;
pub mod types;
pub mod utils;

pub use error::VerifierError;

use vstd::prelude::*;

verus! {

/// Number of 32-byte field elements in an encoded proof.
pub const PROOF_FIELDS: usize = 456;

/// Length in bytes of an encoded proof.
pub const PROOF_BYTES: usize = PROOF_FIELDS * 32;

} // verus!
