//! BN254 elliptic curve operations for the verifier.
//!
//! Point negation is computed here on the byte encoding; scalar
//! multiplication, addition and the pairing check are the Soroban host's.
pub mod helpers;


use crate::error::VerifierError;
use crate::field::Fr;
use crate::num::{
    be_bytes, be_nat, lemma_be_bytes_of_be_nat, lemma_be_bytes_value, lemma_be_nat_bound,
    lemma_be_nat_concat, lemma_be_nat_single, lemma_be_nat_zeros, lemma_pow256_values, pow256,
};
use crate::types::{G1Point, G1_POINT_SIZE, G2_POINT_SIZE};
use soroban_sdk::crypto::bn254::{Bn254Fr as HostFr, Bn254G1Affine, Bn254G2Affine};
use soroban_sdk::{Env, Vec as SorobanVec};
use vstd::arithmetic::div_mod::{lemma_fundamental_div_mod_converse, lemma_small_mod};
use vstd::prelude::*;

verus! {

/// The BN254 base field modulus `p`.
pub open spec fn fq_modulus() -> nat {
    21888242871839275222246405745257275088696311157297823662689037894645226208583nat
}

/// BN254 base field modulus (Fq) in big-endian
/// p = 21888242871839275222246405745257275088696311157297823662689037894645226208583
pub const FQ_MODULUS: [u8; 32] = [
    0x30, 0x64, 0x4e, 0x72, 0xe1, 0x31, 0xa0, 0x29,
    0xb8, 0x50, 0x45, 0xb6, 0x81, 0x81, 0x58, 0x5d,
    0x97, 0x81, 0x6a, 0x91, 0x68, 0x71, 0xca, 0x8d,
    0x3c, 0x20, 0x8c, 0x16, 0xd8, 0x7c, 0xfd, 0x47,
];

/// RHS G2 point for pairing check (big-endian: x.c1 || x.c0 || y.c1 || y.c0)
/// This is the second generator point used in the KZG setup.
pub const RHS_G2_BYTES: [u8; G2_POINT_SIZE] = [
    // x.c1
    0x19, 0x8e, 0x93, 0x93, 0x92, 0x0d, 0x48, 0x3a, 0x72, 0x60, 0xbf, 0xb7, 0x31, 0xfb, 0x5d, 0x25,
    0xf1, 0xaa, 0x49, 0x33, 0x35, 0xa9, 0xe7, 0x12, 0x97, 0xe4, 0x85, 0xb7, 0xae, 0xf3, 0x12, 0xc2,
    // x.c0
    0x18, 0x00, 0xde, 0xef, 0x12, 0x1f, 0x1e, 0x76, 0x42, 0x6a, 0x00, 0x66, 0x5e, 0x5c, 0x44, 0x79,
    0x67, 0x43, 0x22, 0xd4, 0xf7, 0x5e, 0xda, 0xdd, 0x46, 0xde, 0xbd, 0x5c, 0xd9, 0x92, 0xf6, 0xed,
    // y.c1
    0x09, 0x06, 0x89, 0xd0, 0x58, 0x5f, 0xf0, 0x75, 0xec, 0x9e, 0x99, 0xad, 0x69, 0x0c, 0x33, 0x95,
    0xbc, 0x4b, 0x31, 0x33, 0x70, 0xb3, 0x8e, 0xf3, 0x55, 0xac, 0xda, 0xdc, 0xd1, 0x22, 0x97, 0x5b,
    // y.c0
    0x12, 0xc8, 0x5e, 0xa5, 0xdb, 0x8c, 0x6d, 0xeb, 0x4a, 0xab, 0x71, 0x80, 0x8d, 0xcb, 0x40, 0x8f,
    0xe3, 0xd1, 0xe7, 0x69, 0x0c, 0x43, 0xd3, 0x7b, 0x4c, 0xe6, 0xcc, 0x01, 0x66, 0xfa, 0x7d, 0xaa,
];

/// LHS G2 point for pairing check (big-endian: x.c1 || x.c0 || y.c1 || y.c0)
/// This is the G2 generator point (negative of the standard generator for pairing equation).
pub const LHS_G2_BYTES: [u8; G2_POINT_SIZE] = [
    // x.c1
    0x26, 0x0e, 0x01, 0xb2, 0x51, 0xf6, 0xf1, 0xc7, 0xe7, 0xff, 0x4e, 0x58, 0x07, 0x91, 0xde, 0xe8,
    0xea, 0x51, 0xd8, 0x7a, 0x35, 0x8e, 0x03, 0x8b, 0x4e, 0xfe, 0x30, 0xfa, 0xc0, 0x93, 0x83, 0xc1,
    // x.c0
    0x01, 0x18, 0xc4, 0xd5, 0xb8, 0x37, 0xbc, 0xc2, 0xbc, 0x89, 0xb5, 0xb3, 0x98, 0xb5, 0x97, 0x4e,
    0x9f, 0x59, 0x44, 0x07, 0x3b, 0x32, 0x07, 0x8b, 0x7e, 0x23, 0x1f, 0xec, 0x93, 0x88, 0x83, 0xb0,
    // y.c1
    0x04, 0xfc, 0x63, 0x69, 0xf7, 0x11, 0x0f, 0xe3, 0xd2, 0x51, 0x56, 0xc1, 0xbb, 0x9a, 0x72, 0x85,
    0x9c, 0xf2, 0xa0, 0x46, 0x41, 0xf9, 0x9b, 0xa4, 0xee, 0x41, 0x3c, 0x80, 0xda, 0x6a, 0x5f, 0xe4,
    // y.c0
    0x22, 0xfe, 0xbd, 0xa3, 0xc0, 0xc0, 0x63, 0x2a, 0x56, 0x47, 0x5b, 0x42, 0x14, 0xe5, 0x61, 0x5e,
    0x11, 0xe6, 0xdd, 0x3f, 0x96, 0xe6, 0xce, 0xa2, 0x85, 0x4a, 0x87, 0xd4, 0xda, 0xcc, 0x5e, 0x55,
];

/// The bytes of `FQ_MODULUS` spell `p`.
pub proof fn lemma_fq_modulus_bytes()
    ensures
        be_nat(FQ_MODULUS@) == fq_modulus(),
{
    reveal_with_fuel(be_nat, 33);
    assert(FQ_MODULUS@ =~= seq![
        0x30u8, 0x64, 0x4e, 0x72, 0xe1, 0x31, 0xa0, 0x29,
        0xb8, 0x50, 0x45, 0xb6, 0x81, 0x81, 0x58, 0x5d,
        0x97, 0x81, 0x6a, 0x91, 0x68, 0x71, 0xca, 0x8d,
        0x3c, 0x20, 0x8c, 0x16, 0xd8, 0x7c, 0xfd, 0x47,
    ]);
}


/// The y coordinate after negation: `-y mod p`, that is
/// `(p - (y mod p)) mod p`, as 32 big-endian bytes.
pub open spec fn negated_y(y: Seq<u8>) -> Seq<u8> {
    be_bytes(((fq_modulus() - be_nat(y) % fq_modulus()) % (fq_modulus() as int)) as nat, 32)
}

/// The encoding of a point after negation: x unchanged, y negated.
pub open spec fn negated_point(b: Seq<u8>) -> Seq<u8> {
    b.subrange(0, 32) + negated_y(b.subrange(32, 64))
}

/// Negate a G1 point by computing -y mod p (the BN254 base field modulus).
/// For the zero point (all zeros), returns the zero point unchanged.
/// This is pure math - no Soroban calls needed.
pub fn negate(pt: &G1Point) -> (r: G1Point)
    ensures
        r.bytes@ == negated_point(pt.bytes@),
{
    let mut result = pt.bytes;

    // Extract y coordinate (bytes 32-63)
    let y = &pt.bytes[32..64];

    // Reduce y modulo p (a 32-byte y may hold a few multiples of p)
    let mut yr = [0u8; 32];
    let mut k: usize = 0;
    while k < 32
        invariant
            y@ == pt.bytes@.subrange(32, 64),
            k <= 32,
            forall|j: int| 0 <= j < k ==> yr[j] == y@[j],
        decreases 32 - k,
    {
        yr[k] = y[k];
        k = k + 1;
    }
    proof {
        assert(yr@ =~= y@);
        lemma_fq_modulus_bytes();
        lemma_pow256_values();
    }
    loop
        invariant
            be_nat(yr@) % fq_modulus() == be_nat(y@) % fq_modulus(),
        ensures
            be_nat(yr@) % fq_modulus() == be_nat(y@) % fq_modulus(),
            be_nat(yr@) < fq_modulus(),
        decreases be_nat(yr@),
    {
        let (d, below) = sub_with_borrow(&yr, &FQ_MODULUS);
        proof {
            lemma_fq_modulus_bytes();
        }
        if below {
            break;
        }
        proof {
            lemma_fq_modulus_bytes();
            lemma_pow256_values();
            vstd::arithmetic::div_mod::lemma_mod_sub_multiples_vanish(
                be_nat(yr@) as int,
                fq_modulus() as int,
            );
        }
        yr = d;
    }

    // Check if the reduced y is zero (the point at infinity has y = 0)
    let mut is_zero = true;
    let mut k: usize = 0;
    while k < 32
        invariant_except_break
            is_zero,
            forall|j: int| 0 <= j < k ==> yr@[j] == 0,
        invariant
            k <= 32,
        ensures
            is_zero <==> (forall|j: int| 0 <= j < 32 ==> yr@[j] == 0),
        decreases 32 - k,
    {
        if yr[k] != 0 {
            is_zero = false;
            break;
        }
        k = k + 1;
    }
    proof {
        lemma_be_nat_zeros(yr@);
        lemma_fq_modulus_bytes();
        lemma_pow256_values();
    }

    // Compute p - y using big-endian subtraction (zero stays zero)
    let neg_y = if is_zero {
        yr
    } else {
        sub_mod(&FQ_MODULUS, &yr)
    };
    let mut i: usize = 0;
    while i < 32
        invariant
            i <= 32,
            forall|j: int| 0 <= j < 32 ==> result[j] == pt.bytes[j],
            forall|j: int| 32 <= j < 32 + i ==> #[trigger] result[j] == neg_y[j - 32],
        decreases 32 - i,
    {
        result[32 + i] = neg_y[i];
        i = i + 1;
    }
    proof {
        let pm = fq_modulus() as int;
        let t = ((fq_modulus() - be_nat(y@) % fq_modulus()) % pm) as nat;
        if is_zero {
            lemma_fundamental_div_mod_converse(pm, pm, 1, 0);
        } else {
            lemma_small_mod((fq_modulus() - be_nat(yr@)) as nat, fq_modulus());
        }
        assert(be_nat(neg_y@) == t);
        lemma_be_bytes_of_be_nat(neg_y@);
        assert(result@ =~= negated_point(pt.bytes@));
    }
    G1Point { bytes: result }
}

/// Subtract b from a (both 32-byte big-endian) with borrow: returns
/// `a - b` modulo `2^256` and whether `a < b`.
fn sub_with_borrow(a: &[u8; 32], b: &[u8]) -> (r: ([u8; 32], bool))
    requires
        b@.len() == 32,
    ensures
        r.1 <==> be_nat(a@) < be_nat(b@),
        be_nat(r.0@) + be_nat(b@) == be_nat(a@) + (if r.1 { pow256(32) } else { 0 }),
{
    let mut result = [0u8; 32];
    let mut borrow: u16 = 0;

    // Process from least significant byte (index 31) to most significant (index 0)
    let mut i: usize = 32;
    proof {
        assert(result@.subrange(32, 32) =~= Seq::<u8>::empty());
        assert(b@.subrange(32, 32) =~= Seq::<u8>::empty());
        assert(a@.subrange(32, 32) =~= Seq::<u8>::empty());
        assert(be_nat(Seq::<u8>::empty()) == 0);
    }
    while i > 0
        invariant
            i <= 32,
            b@.len() == 32,
            borrow <= 1,
            be_nat(result@.subrange(i as int, 32)) + be_nat(b@.subrange(i as int, 32)) == be_nat(
                a@.subrange(i as int, 32),
            ) + borrow * pow256((32 - i) as nat),
        decreases i,
    {
        let ghost old_result = result@;
        let ghost old_borrow = borrow;
        i = i - 1;
        let ai = a[i] as u16;
        let bi = b[i] as u16;
        // ai - bi - borrow, wrapped to a byte
        let diff = ((ai + 256 - bi - borrow) % 256) as u8;
        result[i] = diff;
        borrow = if ai < bi + borrow {
            1
        } else {
            0
        };
        proof {
            let w = pow256((31 - i) as nat);
            assert(pow256((32 - i) as nat) == 256 * w);
            let rs = result@.subrange(i as int, 32);
            let bs = b@.subrange(i as int, 32);
            let as_ = a@.subrange(i as int, 32);
            assert(rs =~= seq![diff] + old_result.subrange(i + 1, 32));
            assert(bs =~= seq![b@[i as int]] + b@.subrange(i + 1, 32));
            assert(as_ =~= seq![a[i as int]] + a@.subrange(i + 1, 32));
            lemma_be_nat_concat(seq![diff], old_result.subrange(i + 1, 32));
            lemma_be_nat_concat(seq![b@[i as int]], b@.subrange(i + 1, 32));
            lemma_be_nat_concat(seq![a[i as int]], a@.subrange(i + 1, 32));
            lemma_be_nat_single(diff);
            lemma_be_nat_single(b@[i as int]);
            lemma_be_nat_single(a[i as int]);
            assert(diff + bi + old_borrow == ai + 256 * borrow);
            let rr = be_nat(old_result.subrange(i + 1, 32));
            let bb = be_nat(b@.subrange(i + 1, 32));
            let aa = be_nat(a@.subrange(i + 1, 32));
            assert(diff * w + rr + (bi * w + bb) == ai * w + aa + borrow * (256 * w))
                by (nonlinear_arith)
                requires
                    rr + bb == aa + old_borrow * w,
                    diff + bi + old_borrow == ai + 256 * borrow,
            ;
        }
    }
    proof {
        assert(result@.subrange(0, 32) =~= result@);
        assert(b@.subrange(0, 32) =~= b@);
        assert(a@.subrange(0, 32) =~= a@);
        let big = pow256(32) as int;
        let ra = be_nat(result@) as int;
        let av = be_nat(a@) as int;
        let bv = be_nat(b@) as int;
        lemma_be_nat_bound(result@);
        lemma_be_nat_bound(a@);
        lemma_be_nat_bound(b@);
    }
    (result, borrow == 1)
}

/// Subtract b from a (both 32-byte big-endian), modulo `2^256`.
/// Returns a - b as 32-byte big-endian when a >= b.
fn sub_mod(a: &[u8; 32], b: &[u8]) -> (r: [u8; 32])
    requires
        b@.len() == 32,
    ensures
        be_nat(r@) == (be_nat(a@) + pow256(32) - be_nat(b@)) % (pow256(32) as int),
        be_nat(a@) >= be_nat(b@) ==> be_nat(r@) == be_nat(a@) - be_nat(b@),
{
    let (result, below) = sub_with_borrow(a, b);
    proof {
        let big = pow256(32) as int;
        let ra = be_nat(result@) as int;
        let av = be_nat(a@) as int;
        let bv = be_nat(b@) as int;
        lemma_be_nat_bound(result@);
        if below {
            lemma_fundamental_div_mod_converse(av + big - bv, big, 0, ra);
        } else {
            lemma_fundamental_div_mod_converse(av + big - bv, big, 1, ra);
        }
    }
    result
}



/// The negated coordinate spells `(p - (y mod p)) mod p`, which is below `p`.
proof fn lemma_negated_y_value(y: Seq<u8>)
    ensures
        negated_y(y).len() == 32,
        be_nat(negated_y(y)) == (fq_modulus() - be_nat(y) % fq_modulus()) % (fq_modulus() as int),
        be_nat(negated_y(y)) < fq_modulus(),
{
    lemma_pow256_values();
    let t = ((fq_modulus() - be_nat(y) % fq_modulus()) % (fq_modulus() as int)) as nat;
    lemma_be_bytes_value(t, 32);
    lemma_small_mod(t, pow256(32));
}

/// Negating a point twice gives the point back, for every encoding whose y
/// coordinate is below `p`.
pub proof fn lemma_negate_involution(b: Seq<u8>)
    requires
        b.len() == 64,
        be_nat(b.subrange(32, 64)) < fq_modulus(),
    ensures
        negated_point(negated_point(b)) == b,
{
    let pm = fq_modulus() as int;
    let y = b.subrange(32, 64);
    let n = negated_point(b);
    lemma_negated_y_value(y);
    assert(n.subrange(0, 32) =~= b.subrange(0, 32));
    assert(n.subrange(32, 64) =~= negated_y(y));
    let y2 = negated_y(y);
    lemma_negated_y_value(y2);
    let yv = be_nat(y) as int;
    lemma_small_mod(yv as nat, pm as nat);
    if yv == 0 {
        lemma_fundamental_div_mod_converse(pm, pm, 1, 0);
        lemma_small_mod(0, pm as nat);
        lemma_fundamental_div_mod_converse(pm, pm, 1, 0);
    } else {
        lemma_small_mod((pm - yv) as nat, pm as nat);
        lemma_small_mod((pm - (pm - yv)) as nat, pm as nat);
    }
    assert(be_nat(negated_y(y2)) == be_nat(y));
    crate::num::lemma_be_nat_injective(negated_y(y2), y);
    assert(negated_point(n) =~= b);
}

/// The negated y coordinate is the additive inverse of y modulo `p`:
/// `y + (-y) == 0 (mod p)`, the result is below `p`, and for `0 < y < p`
/// the two add up to exactly `p`.
pub proof fn lemma_negated_y_is_inverse(y: Seq<u8>)
    ensures
        (be_nat(y) + be_nat(negated_y(y))) % fq_modulus() == 0,
        be_nat(negated_y(y)) < fq_modulus(),
        0 < be_nat(y) < fq_modulus() ==> be_nat(y) + be_nat(negated_y(y)) == fq_modulus(),
{
    let pm = fq_modulus() as int;
    let yv = be_nat(y) as int;
    lemma_negated_y_value(y);
    let r = yv % pm;
    vstd::arithmetic::div_mod::lemma_fundamental_div_mod(yv, pm);
    let q = yv / pm;
    if r == 0 {
        lemma_fundamental_div_mod_converse(pm, pm, 1, 0);
        lemma_fundamental_div_mod_converse(yv, pm, q, 0);
    } else {
        lemma_small_mod((pm - r) as nat, pm as nat);
        lemma_fundamental_div_mod_converse(yv + (pm - r), pm, q + 1, 0);
        if yv < pm {
            lemma_small_mod(yv as nat, pm as nat);
        }
    }
}

/// Negation keeps the x coordinate and maps every encoding that the host
/// accepts as a G1 point to another such encoding.
pub proof fn lemma_negate_keeps_valid(b: Seq<u8>)
    requires
        g1_encoding_valid(b),
    ensures
        negated_point(b).subrange(0, 32) == b.subrange(0, 32),
        g1_encoding_valid(negated_point(b)),
{
    let y = b.subrange(32, 64);
    let x = b.subrange(0, 32);
    let n = negated_point(b);
    let all_zero = forall|i: int| 0 <= i < 64 ==> b[i] == 0;
    if all_zero {
        assert forall|i: int| 0 <= i < 32 implies y[i] == 0 by {
            assert(y[i] == b[32 + i]);
        }
        lemma_be_nat_zeros(y);
    }
    lemma_negated_y_value(y);
    assert(n.subrange(0, 32) =~= x);
    assert(n.subrange(32, 64) =~= negated_y(y));
    let pm = fq_modulus() as int;
    let yv = be_nat(y) as int;
    let ny = be_nat(negated_y(y)) as int;
    if all_zero {
        lemma_small_mod(0, pm as nat);
        lemma_fundamental_div_mod_converse(pm, pm, 1, 0);
        assert(ny == 0);
        crate::num::lemma_be_nat_injective(negated_y(y), y);
        assert(n =~= b);
    } else {
        lemma_small_mod(yv as nat, pm as nat);
        if yv == 0 {
            lemma_fundamental_div_mod_converse(pm, pm, 1, 0);
        } else {
            lemma_small_mod((pm - yv) as nat, pm as nat);
            assert(ny * ny == pm * (pm - 2 * yv) + yv * yv) by (nonlinear_arith)
                requires
                    ny == pm - yv,
            ;
            vstd::arithmetic::div_mod::lemma_mod_multiples_vanish(pm - 2 * yv, yv * yv, pm);
        }
    }
}

/// Whether 64 bytes are an encoding that the host accepts as a G1 point:
/// the point at infinity (64 zero bytes), or `x || y` with both coordinates
/// big-endian below `p` and `y^2 = x^3 + 3 (mod p)`. (Coordinates below `p`
/// leave the two flag bits of the first byte unset.)
pub open spec fn g1_encoding_valid(b: Seq<u8>) -> bool {
    &&& b.len() == 64
    &&& (forall|i: int| 0 <= i < 64 ==> b[i] == 0) || {
        let x = be_nat(b.subrange(0, 32));
        let y = be_nat(b.subrange(32, 64));
        &&& x < fq_modulus()
        &&& y < fq_modulus()
        &&& (y * y) % fq_modulus() == (x * x * x + 3) % fq_modulus()
    }
}

/// The encoding of `[scalar] point` that the host's BN254 G1 scalar
/// multiplication returns.
pub uninterp spec fn bn254_g1_mul(point: Seq<u8>, scalar: Seq<u8>) -> Seq<u8>;

/// The encoding of `a + b` that the host's BN254 G1 addition returns.
pub uninterp spec fn bn254_g1_add(a: Seq<u8>, b: Seq<u8>) -> Seq<u8>;

/// Whether the product of the pairings `e(g1[i], g2[i])` is one, as the
/// host's BN254 multi-pairing check decides it.
pub uninterp spec fn bn254_multi_pairing_check(g1: Seq<Seq<u8>>, g2: Seq<Seq<u8>>) -> bool;

/// `soroban_sdk::crypto::bn254::Bn254::g1_mul` (host function
/// `bn254_g1_mul`): the point is decoded with an on-curve check (the host
/// traps on an invalid encoding, hence the `requires`), the 32 big-endian
/// scalar bytes are read modulo `r`, and the product is returned as the
/// uncompressed affine encoding of a curve point. What that point is, is
/// named `bn254_g1_mul`. Not stated: the host also traps when the
/// environment's budget runs out.
#[verifier::external_body]
fn host_g1_mul(env: &Env, point: &[u8; G1_POINT_SIZE], scalar: &[u8; 32]) -> (r: [u8; G1_POINT_SIZE])
    requires
        g1_encoding_valid(point@),
    ensures
        r@ == bn254_g1_mul(point@, scalar@),
        g1_encoding_valid(r@),
{
    let bn = env.crypto().bn254();
    let p = Bn254G1Affine::from_array(env, point);
    let s = HostFr::from_bytes(soroban_sdk::BytesN::from_array(env, scalar));
    bn.g1_mul(&p, &s).to_array()
}

/// `soroban_sdk::crypto::bn254::Bn254::g1_add` (host function
/// `bn254_g1_add`): both points are decoded with an on-curve check (the
/// host traps on an invalid encoding, hence the `requires`) and the sum is
/// returned as the uncompressed affine encoding of a curve point, named
/// `bn254_g1_add`. Not stated: the host also traps when the environment's
/// budget runs out.
#[verifier::external_body]
fn host_g1_add(env: &Env, a: &[u8; G1_POINT_SIZE], b: &[u8; G1_POINT_SIZE]) -> (r: [u8; G1_POINT_SIZE])
    requires
        g1_encoding_valid(a@),
        g1_encoding_valid(b@),
    ensures
        r@ == bn254_g1_add(a@, b@),
        g1_encoding_valid(r@),
{
    let bn = env.crypto().bn254();
    let p = Bn254G1Affine::from_array(env, a);
    let q = Bn254G1Affine::from_array(env, b);
    bn.g1_add(&p, &q).to_array()
}

/// `soroban_sdk::crypto::bn254::Bn254::pairing_check` (host function
/// `bn254_multi_pairing_check`) on two (G1, G2) pairs. The G1 points are
/// decoded with an on-curve check; the G2 points are given only as the two
/// fixed generators of the setup, which the host decodes as subgroup points
/// (it traps on invalid encodings, hence the `requires`). The answer is
/// named `bn254_multi_pairing_check`. Not stated: the host also traps when
/// the environment's budget runs out.
#[verifier::external_body]
fn host_pairing_check(
    env: &Env,
    p0: &[u8; G1_POINT_SIZE],
    p1: &[u8; G1_POINT_SIZE],
    q0: &[u8; G2_POINT_SIZE],
    q1: &[u8; G2_POINT_SIZE],
) -> (b: bool)
    requires
        g1_encoding_valid(p0@),
        g1_encoding_valid(p1@),
        q0@ == RHS_G2_BYTES@,
        q1@ == LHS_G2_BYTES@,
    ensures
        b == bn254_multi_pairing_check(seq![p0@, p1@], seq![q0@, q1@]),
{
    let mut g1_points = SorobanVec::new(env);
    g1_points.push_back(Bn254G1Affine::from_array(env, p0));
    g1_points.push_back(Bn254G1Affine::from_array(env, p1));
    let mut g2_points = SorobanVec::new(env);
    g2_points.push_back(Bn254G2Affine::from_array(env, q0));
    g2_points.push_back(Bn254G2Affine::from_array(env, q1));
    env.crypto().bn254().pairing_check(g1_points, g2_points)
}

/// The running sum of `s_i * C_i` over the first `n` pairs, `None` before
/// the first term.
pub open spec fn msm_acc(coms: Seq<G1Point>, scalars: Seq<Fr>, n: nat) -> Option<Seq<u8>>
    decreases n,
{
    if n == 0 {
        None
    } else {
        let term = bn254_g1_mul(coms[n - 1].bytes@, be_bytes(scalars[n - 1]@, 32));
        match msm_acc(coms, scalars, (n - 1) as nat) {
            None => Some(term),
            Some(c) => Some(bn254_g1_add(c, term)),
        }
    }
}

/// The encoding that the multi-scalar multiplication of `coms` by `scalars`
/// gives: the running sum over all pairs, or the zero point when there are
/// none.
pub open spec fn msm_spec(coms: Seq<G1Point>, scalars: Seq<Fr>) -> Seq<u8> {
    match msm_acc(coms, scalars, coms.len()) {
        Some(s) => s,
        None => Seq::new(64, |i: int| 0u8),
    }
}

/// The running sum over the first `n` pairs does not depend on the pairs
/// after them.
proof fn lemma_msm_acc_prefix(coms: Seq<G1Point>, scalars: Seq<Fr>, c: G1Point, s: Fr, n: nat)
    requires
        n <= coms.len(),
        n <= scalars.len(),
    ensures
        msm_acc(coms.push(c), scalars.push(s), n) == msm_acc(coms, scalars, n),
    decreases n,
{
    if n > 0 {
        lemma_msm_acc_prefix(coms, scalars, c, s, (n - 1) as nat);
        assert(coms.push(c)[n - 1] == coms[n - 1]);
        assert(scalars.push(s)[n - 1] == scalars[n - 1]);
    }
}

/// The multi-scalar multiplication of no pairs is the zero point (64 zero
/// bytes).
pub proof fn lemma_msm_empty()
    ensures
        msm_spec(Seq::<G1Point>::empty(), Seq::<Fr>::empty()) == Seq::new(64, |i: int| 0u8),
{
}

/// The multi-scalar multiplication of one pair `(C, s)` is `[s]C`: the
/// host's scalar multiplication of `C` by the 32 big-endian bytes of `s`.
pub proof fn lemma_msm_single(c: G1Point, s: Fr)
    ensures
        msm_spec(seq![c], seq![s]) == bn254_g1_mul(c.bytes@, be_bytes(s@, 32)),
{
    assert(msm_acc(seq![c], seq![s], 0) is None);
}

/// Appending a pair `(C', s')` to a non-empty list adds `[s']C'` to the
/// previous result: the i-th scalar multiplies the i-th point, and the
/// terms are added in order.
pub proof fn lemma_msm_push(coms: Seq<G1Point>, scalars: Seq<Fr>, c: G1Point, s: Fr)
    requires
        coms.len() == scalars.len(),
        coms.len() > 0,
    ensures
        msm_spec(coms.push(c), scalars.push(s)) == bn254_g1_add(
            msm_spec(coms, scalars),
            bn254_g1_mul(c.bytes@, be_bytes(s@, 32)),
        ),
{
    lemma_msm_acc_prefix(coms, scalars, c, s, coms.len());
    lemma_msm_acc_some(coms, scalars, coms.len());
    let cp = coms.push(c);
    let sp = scalars.push(s);
    assert(cp.len() == coms.len() + 1);
    assert(cp[coms.len() as int] == c);
    assert(sp[coms.len() as int] == s);
}

/// After at least one pair the running sum is present.
proof fn lemma_msm_acc_some(coms: Seq<G1Point>, scalars: Seq<Fr>, n: nat)
    requires
        n > 0,
    ensures
        msm_acc(coms, scalars, n) is Some,
{
}

/// The result of a multi-scalar multiplication from its running sum: the
/// sum, or the zero point when no term was added.
pub fn msm_result(acc: Option<G1Point>) -> (p: G1Point)
    ensures
        acc matches Some(a) ==> p == a,
        acc is None ==> p.bytes@ == Seq::new(64, |i: int| 0u8),
{
    match acc {
        Some(result) => result,
        None => {
            let z = G1Point::zero();
            assert(z.bytes@ =~= Seq::new(64, |i: int| 0u8));
            z
        },
    }
}

/// Multi-scalar multiplication on G1: sum of s_i * C_i, using the host's
/// g1_mul and g1_add in a loop. Fails with `MsmLengthMismatch` exactly when
/// the two slices differ in length; an empty sum is the zero point.
pub fn g1_msm(env: &Env, coms: &[G1Point], scalars: &[Fr]) -> (r: Result<G1Point, VerifierError>)
    requires
        coms@.len() == scalars@.len() ==> forall|i: int|
            0 <= i < coms@.len() ==> g1_encoding_valid(#[trigger] coms@[i].bytes@),
    ensures
        r is Err <==> coms@.len() != scalars@.len(),
        r matches Err(e) ==> e == VerifierError::MsmLengthMismatch,
        r matches Ok(p) ==> p.bytes@ == msm_spec(coms@, scalars@),
{
    if coms.len() != scalars.len() {
        return Err(VerifierError::MsmLengthMismatch);
    }
    // Soroban does not expose MSM, so use g1_mul plus g1_add in a loop.
    let mut acc: Option<G1Point> = None;
    let mut i: usize = 0;
    while i < coms.len()
        invariant
            coms@.len() == scalars@.len(),
            i <= coms@.len(),
            forall|j: int| 0 <= j < coms@.len() ==> g1_encoding_valid(#[trigger] coms@[j].bytes@),
            acc matches Some(a) ==> g1_encoding_valid(a.bytes@),
            match acc {
                Some(a) => msm_acc(coms@, scalars@, i as nat) == Some(a.bytes@),
                None => msm_acc(coms@, scalars@, i as nat) is None,
            },
        decreases coms@.len() - i,
    {
        let scalar_bytes = scalars[i].to_bytes();
        let term = host_g1_mul(env, &coms[i].bytes, &scalar_bytes);
        let next = match acc {
            Some(current) => host_g1_add(env, &current.bytes, &term),
            None => term,
        };
        acc = Some(G1Point::from_bytes(next));
        i = i + 1;
    }
    Ok(msm_result(acc))
}

/// Pairing product check e(P0, rhs_g2) * e(P1, lhs_g2) == 1, by the host's
/// multi-pairing check.
pub fn pairing_check(env: &Env, p0: &G1Point, p1: &G1Point) -> (b: bool)
    requires
        g1_encoding_valid(p0.bytes@),
        g1_encoding_valid(p1.bytes@),
    ensures
        b == bn254_multi_pairing_check(
            seq![p0.bytes@, p1.bytes@],
            seq![RHS_G2_BYTES@, LHS_G2_BYTES@],
        ),
{
    host_pairing_check(env, &p0.bytes, &p1.bytes, &RHS_G2_BYTES, &LHS_G2_BYTES)
}

} // verus!
