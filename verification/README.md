# ultrahonk_rust_verifier

Building blocks of an UltraHonk proof verifier over BN254 for Soroban, with
their behaviour stated in Verus contracts and proved.

- `src/num.rs` — big- and little-endian readings of byte strings as numbers, and their lemmas.
- `src/field.rs` — the scalar field `Fr` (canonical limbs; arithmetic by arkworks), its byte and hex encodings.
- `src/ec.rs`, `src/ec/helpers.rs` — point negation on the byte encoding; MSM and the pairing check through the Soroban host.
- `src/hash.rs` — Keccak-256 through the Soroban host.
- `src/types.rs` — wires, G1 points, verification key, proof and transcript types.
- `src/utils.rs` — loading a proof and a verification key from bytes; the split-limb encoding.
- `src/error.rs` — error codes and messages.
- `app/lib.rs` — the error with `Display` and `std::error::Error`.
