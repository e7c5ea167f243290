use ultrahonk_rust_verifier::field::{decode_hex_to_bytes, hex_char_to_nibble, Fr};

fn hex32(s: &str) -> [u8; 32] {
    let mut out = [0u8; 32];
    for i in 0..32 {
        out[i] = u8::from_str_radix(&s[2 * i..2 * i + 2], 16).unwrap();
    }
    out
}

const R_MINUS_ONE: &str = "30644e72e131a029b85045b68181585d2833e84879b9709143e1f593f0000000";

#[test]
fn from_u64_to_bytes_is_big_endian() {
    let f = Fr::from_u64(0x0102030405060708);
    let mut expected = [0u8; 32];
    expected[24..32].copy_from_slice(&[1, 2, 3, 4, 5, 6, 7, 8]);
    assert_eq!(f.to_bytes(), expected);
}

#[test]
fn from_bytes_to_bytes_roundtrip() {
    let b = hex32("1234567890abcdef1234567890abcdef1234567890abcdef1234567890abcdef");
    assert_eq!(Fr::from_bytes(&b).to_bytes(), b);
    let f = Fr::from_u64(987654321);
    assert_eq!(Fr::from_bytes(&f.to_bytes()), f);
}

#[test]
fn from_bytes_reduces_modulo_r() {
    // r + 1 reads as 1
    let b = hex32("30644e72e131a029b85045b68181585d2833e84879b9709143e1f593f0000002");
    assert_eq!(Fr::from_bytes(&b), Fr::one());
    // r reads as 0
    let b = hex32("30644e72e131a029b85045b68181585d2833e84879b9709143e1f593f0000001");
    assert!(Fr::from_bytes(&b).is_zero());
    // 2^256 - 1 reads as (2^256 - 1) mod r
    let b = [0xffu8; 32];
    let expected = hex32("0e0a77c19a07df2f666ea36f7879462e36fc76959f60cd29ac96341c4ffffffa");
    assert_eq!(Fr::from_bytes(&b).to_bytes(), expected);
}

#[test]
fn field_arithmetic() {
    let two = Fr::from_u64(2);
    let three = Fr::from_u64(3);
    assert_eq!(two + three, Fr::from_u64(5));
    assert_eq!(two * three, Fr::from_u64(6));
    assert_eq!(three - two, Fr::one());
    // 2 - 3 wraps to r - 1
    assert_eq!((two - three).to_bytes(), hex32(R_MINUS_ONE));
    assert_eq!((-Fr::one()).to_bytes(), hex32(R_MINUS_ONE));
    assert_eq!(-Fr::zero(), Fr::zero());
    // (r - 1) + 1 wraps to 0
    assert!((Fr::from_bytes(&hex32(R_MINUS_ONE)) + Fr::one()).is_zero());
}

#[test]
fn inverse_and_pow() {
    assert!(Fr::zero().inverse().is_none());
    let inv2 = Fr::from_u64(2).inverse().unwrap();
    assert_eq!(
        inv2.to_bytes(),
        hex32("183227397098d014dc2822db40c0ac2e9419f4243cdcb848a1f0fac9f8000001")
    );
    assert_eq!(inv2 * Fr::from_u64(2), Fr::one());
    assert_eq!(Fr::from_u64(3).pow(5), Fr::from_u64(243));
    assert_eq!(Fr::from_u64(7).pow(0), Fr::one());
    assert_eq!(Fr::zero().pow(0), Fr::one());
    // only the low 64 bits of the exponent are used
    assert_eq!(Fr::from_u64(3).pow((1u128 << 64) + 5), Fr::from_u64(243));
}

#[test]
fn zero_one_is_zero() {
    assert!(Fr::zero().is_zero());
    assert!(!Fr::one().is_zero());
    assert_eq!(Fr::zero().to_bytes(), [0u8; 32]);
    assert_eq!(Fr::one(), Fr::from_u64(1));
}

#[test]
fn from_str_hex() {
    assert_eq!(Fr::from_str("0x2a"), Fr::from_u64(42));
    assert_eq!(Fr::from_str("2a"), Fr::from_u64(42));
    assert_eq!(Fr::from_str("0X2A"), Fr::from_u64(42));
    // odd number of digits is padded with a leading '0'
    assert_eq!(Fr::from_str("abc"), Fr::from_u64(0xabc));
    assert_eq!(Fr::from_str("0x1"), Fr::one());
    assert!(Fr::from_str("").is_zero());
    assert!(Fr::from_str("0x").is_zero());
    // "0x" then "0X" are both stripped
    assert_eq!(Fr::from_str("0x0X10"), Fr::from_u64(16));
    // non-hex characters read as zero
    assert_eq!(Fr::from_str("1g"), Fr::from_u64(0x10));
    // full 64-digit value reduced modulo r
    assert_eq!(
        Fr::from_str("0x30644e72e131a029b85045b68181585d2833e84879b9709143e1f593f0000002"),
        Fr::one()
    );
}

#[test]
fn from_str_reads_at_most_64_digits() {
    let s65 = format!("{}{}", "0".repeat(63), "15");
    // only the first 64 digits "00..01" are read
    assert_eq!(Fr::from_str(&s65), Fr::one());
}

#[test]
fn decode_hex_right_aligns() {
    let mut out = [0xeeu8; 32];
    let n = decode_hex_to_bytes("0xabcde", &mut out);
    assert_eq!(n, 3);
    assert_eq!(&out[29..], &[0x0a, 0xbc, 0xde]);
    assert_eq!(&out[..29], &[0xeeu8; 29][..]);
}

#[test]
fn hex_nibbles() {
    assert_eq!(hex_char_to_nibble(b'0'), 0);
    assert_eq!(hex_char_to_nibble(b'9'), 9);
    assert_eq!(hex_char_to_nibble(b'a'), 10);
    assert_eq!(hex_char_to_nibble(b'F'), 15);
    assert_eq!(hex_char_to_nibble(b'g'), 0);
    assert_eq!(hex_char_to_nibble(b'x'), 0);
}

#[test]
fn sub_undoes_add_and_neg_cancels() {
    let a = Fr::from_bytes(&hex32(R_MINUS_ONE));
    let b = Fr::from_u64(12345);
    assert_eq!((a + b) - b, a);
    assert_eq!((b + a) - a, b);
    assert!((a + (-a)).is_zero());
    assert!((b + (-b)).is_zero());
}
