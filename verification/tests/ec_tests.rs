use soroban_sdk::Env;
use ultrahonk_rust_verifier::ec::{g1_msm, helpers, msm_result, negate, pairing_check};
use ultrahonk_rust_verifier::field::Fr;
use ultrahonk_rust_verifier::hash::hash32;
use ultrahonk_rust_verifier::types::{G1Point, G1_GENERATOR};
use ultrahonk_rust_verifier::VerifierError;

fn hex_bytes(s: &str) -> Vec<u8> {
    (0..s.len() / 2)
        .map(|i| u8::from_str_radix(&s[2 * i..2 * i + 2], 16).unwrap())
        .collect()
}

fn point(x: &str, y: &str) -> G1Point {
    let mut b = [0u8; 64];
    b[..32].copy_from_slice(&hex_bytes(x));
    b[32..].copy_from_slice(&hex_bytes(y));
    G1Point::from_bytes(b)
}

const TWO_G_X: &str = "030644e72e131a029b85045b68181585d97816a916871ca8d3c208c16d87cfd3";
const TWO_G_Y: &str = "15ed738c0e0a7c92e7845f96b2ae9c0a68a6a449e3538fc7ff3ebf7a5a18a2c4";
const FIVE_G_X: &str = "17c139df0efee0f766bc0204762b774362e4ded88953a39ce849a8a7fa163fa9";
const FIVE_G_Y: &str = "01e0559bacb160664764a357af8a9fe70baa9258e0b959273ffc5718c6d4cc7c";

#[test]
fn negate_generator() {
    let g = G1Point::from_bytes(G1_GENERATOR);
    let n = negate(&g);
    let expected = point(
        "0000000000000000000000000000000000000000000000000000000000000001",
        "30644e72e131a029b85045b68181585d97816a916871ca8d3c208c16d87cfd45",
    );
    assert_eq!(n.bytes, expected.bytes);
    assert_eq!(helpers::negate(&g).bytes, expected.bytes);
}

#[test]
fn negate_twice_is_identity() {
    let p = point(TWO_G_X, TWO_G_Y);
    assert_eq!(negate(&negate(&p)).bytes, p.bytes);
}

#[test]
fn negate_zero_y_unchanged() {
    let z = G1Point::zero();
    assert_eq!(negate(&z).bytes, [0u8; 64]);
    let mut b = [0u8; 64];
    b[5] = 7;
    assert_eq!(negate(&G1Point::from_bytes(b)).bytes, b);
}

#[test]
fn negate_y_above_modulus_reduces_first() {
    // y = p + 1 is 1 mod p, so -y mod p = p - 1
    let p = point(
        "0000000000000000000000000000000000000000000000000000000000000003",
        "30644e72e131a029b85045b68181585d97816a916871ca8d3c208c16d87cfd48",
    );
    let n = negate(&p);
    assert_eq!(
        n.bytes[32..].to_vec(),
        hex_bytes("30644e72e131a029b85045b68181585d97816a916871ca8d3c208c16d87cfd46")
    );
    assert_eq!(&n.bytes[..32], &p.bytes[..32]);
}

#[test]
fn negate_y_equal_to_modulus_gives_zero() {
    let p = point(
        "0000000000000000000000000000000000000000000000000000000000000003",
        "30644e72e131a029b85045b68181585d97816a916871ca8d3c208c16d87cfd47",
    );
    assert_eq!(&negate(&p).bytes[32..], &[0u8; 32][..]);
}

#[test]
fn negate_y_of_all_ones() {
    // the result is p - ((2^256 - 1) mod p)
    let p = point(
        "0000000000000000000000000000000000000000000000000000000000000003",
        "ffffffffffffffffffffffffffffffffffffffffffffffffffffffffffffffff",
    );
    assert_eq!(
        negate(&p).bytes[32..].to_vec(),
        hex_bytes("2259d6b14729c0fa51e1a247090812318d087f6872aabf4f68c3488912edefab")
    );
}

#[test]
fn msm_of_generator() {
    let env = Env::default();
    let g = G1Point::from_bytes(G1_GENERATOR);
    let r = g1_msm(&env, &[g], &[Fr::from_u64(2)]).unwrap();
    assert_eq!(r.bytes, point(TWO_G_X, TWO_G_Y).bytes);
    let r = g1_msm(&env, &[g, g], &[Fr::from_u64(2), Fr::from_u64(3)]).unwrap();
    assert_eq!(r.bytes, point(FIVE_G_X, FIVE_G_Y).bytes);
}

#[test]
fn msm_empty_is_zero_point() {
    let env = Env::default();
    let r = g1_msm(&env, &[], &[]).unwrap();
    assert_eq!(r.bytes, [0u8; 64]);
}

#[test]
fn msm_length_mismatch() {
    let env = Env::default();
    let g = G1Point::from_bytes(G1_GENERATOR);
    let r = g1_msm(&env, &[g], &[]);
    assert_eq!(r.unwrap_err(), VerifierError::MsmLengthMismatch);
}

#[test]
fn msm_result_defaults_to_zero() {
    assert_eq!(msm_result(None).bytes, [0u8; 64]);
    let g = G1Point::from_bytes(G1_GENERATOR);
    assert_eq!(msm_result(Some(g)).bytes, G1_GENERATOR);
}

#[test]
fn pairing_check_of_infinity_holds() {
    let env = Env::default();
    let z = G1Point::zero();
    assert!(pairing_check(&env, &z, &z));
}

#[test]
fn pairing_check_of_generator_fails() {
    let env = Env::default();
    let g = G1Point::from_bytes(G1_GENERATOR);
    let z = G1Point::zero();
    assert!(!pairing_check(&env, &g, &z));
}

#[test]
fn keccak_of_empty_and_abc() {
    let env = Env::default();
    assert_eq!(
        hash32(&env, &[]).to_vec(),
        hex_bytes("c5d2460186f7233c927e7db2dcc703c0e500b653ca82273b7bfad8045d85a470")
    );
    assert_eq!(
        hash32(&env, b"abc").to_vec(),
        hex_bytes("4e03657aea45a94fc7d47ba826c8d667c0d1e6e33a64a036ec44f58fa12d6c45")
    );
}
