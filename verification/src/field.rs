//! Elements of the BN254 scalar field `Fr`.
//!
//! An element is held as its canonical value, four little-endian 64-bit
//! limbs below the modulus `r`. The field arithmetic itself is arkworks'
//! (`ark_bn254::Fr`); the byte and hex encodings around it are this crate's.
use crate::num::{be_bytes, be_nat, le_nat, reversed};
use ark_bn254::Fr as ArkFr;
use ark_ff::{BigInt, Field, PrimeField};
use vstd::arithmetic::div_mod::{
    lemma_div_by_multiple, lemma_div_by_multiple_is_strongly_ordered, lemma_div_denominator,
    lemma_fundamental_div_mod, lemma_fundamental_div_mod_converse, lemma_small_mod,
};
use vstd::prelude::*;
use vstd::string::StringSliceAdditionalSpecFns;

verus! {

/// The order `r` of the BN254 scalar field.
pub open spec fn fr_modulus() -> nat {
    21888242871839275222246405745257275088548364400416034343698204186575808495617nat
}

/// The number that four little-endian 64-bit limbs spell.
pub open spec fn limbs_nat(l: [u64; 4]) -> nat {
    l[0] as nat + l[1] as nat * 0x1_0000_0000_0000_0000nat + l[2] as nat
        * 0x1_0000_0000_0000_0000_0000_0000_0000_0000nat + l[3] as nat
        * 0x1_0000_0000_0000_0000_0000_0000_0000_0000_0000_0000_0000_0000nat
}

/// The limbs of `v`, for `v < 2^256`.
pub open spec fn nat_limbs(v: nat) -> [u64; 4] {
    [
        (v % 0x1_0000_0000_0000_0000nat) as u64,
        ((v / 0x1_0000_0000_0000_0000nat) % 0x1_0000_0000_0000_0000nat) as u64,
        ((v / 0x1_0000_0000_0000_0000_0000_0000_0000_0000nat) % 0x1_0000_0000_0000_0000nat) as u64,
        ((v / 0x1_0000_0000_0000_0000_0000_0000_0000_0000_0000_0000_0000_0000nat)
            % 0x1_0000_0000_0000_0000nat) as u64,
    ]
}

/// Limbs below the modulus.
pub open spec fn limbs_canonical(l: [u64; 4]) -> bool {
    limbs_nat(l) < fr_modulus()
}

/// An element of the BN254 scalar field.
#[derive(Clone, Copy, Debug)]
pub struct Fr {
    limbs: [u64; 4],
}

impl PartialEq for Fr {
    fn eq(&self, other: &Fr) -> (b: bool) {
        proof {
            lemma_limbs_roundtrip(self.limbs);
            lemma_limbs_roundtrip(other.limbs);
        }
        self.limbs[0] == other.limbs[0] && self.limbs[1] == other.limbs[1] && self.limbs[2]
            == other.limbs[2] && self.limbs[3] == other.limbs[3]
    }
}

impl vstd::std_specs::cmp::PartialEqSpecImpl for Fr {
    open spec fn obeys_eq_spec() -> bool {
        true
    }

    open spec fn eq_spec(&self, other: &Fr) -> bool {
        self@ == other@
    }
}

impl Eq for Fr {

}

impl View for Fr {
    type V = nat;

    /// The canonical value of the element, in `0..r`.
    closed spec fn view(&self) -> nat {
        limbs_nat(self.limbs)
    }
}

/// The element whose value is `v % r`.
pub closed spec fn fr_from_nat(v: nat) -> Fr {
    Fr { limbs: nat_limbs(v % fr_modulus()) }
}

proof fn lemma_limbs_roundtrip(l: [u64; 4])
    ensures
        nat_limbs(limbs_nat(l)) == l,
{
    let b: int = 0x1_0000_0000_0000_0000int;
    let v = limbs_nat(l) as int;
    let q1 = l[1] + l[2] * b + l[3] * (b * b);
    assert(v == q1 * b + l[0]) by (nonlinear_arith)
        requires
            b == 0x1_0000_0000_0000_0000nat,
            v == l[0] + l[1] * b + l[2] * (b * b) + l[3] * (b * b * b),
            q1 == l[1] + l[2] * b + l[3] * (b * b),
    ;
    lemma_fundamental_div_mod_converse(v, b, q1, l[0] as int);
    let q2 = l[2] + l[3] * b;
    assert(q1 == q2 * b + l[1]) by (nonlinear_arith)
        requires
            q1 == l[1] + l[2] * b + l[3] * (b * b),
            q2 == l[2] + l[3] * b,
    ;
    lemma_fundamental_div_mod_converse(q1, b, q2, l[1] as int);
    lemma_fundamental_div_mod_converse(q2, b, l[3] as int, l[2] as int);
    lemma_small_mod(l[3] as nat, b as nat);
    lemma_div_denominator(v, b, b);
    lemma_div_denominator(v, b, b * b);
    assert(b * (b * b) == b * b * b) by (nonlinear_arith);
    let r = nat_limbs(limbs_nat(l));
    assert(r =~= l);
}

proof fn lemma_nat_limbs_value(v: nat)
    requires
        v < fr_modulus(),
    ensures
        limbs_nat(nat_limbs(v)) == v,
{
    let b: int = 0x1_0000_0000_0000_0000int;
    let l = nat_limbs(v);
    lemma_fundamental_div_mod(v as int, b);
    let q1 = v as int / b;
    lemma_fundamental_div_mod(q1, b);
    let q2 = q1 / b;
    lemma_fundamental_div_mod(q2, b);
    let q3 = q2 / b;
    lemma_div_denominator(v as int, b, b);
    lemma_div_denominator(q1, b, b);
    lemma_div_denominator(v as int, b * b, b);
    assert(b * b * b == 0x1_0000_0000_0000_0000_0000_0000_0000_0000_0000_0000_0000_0000nat);
    assert(b * b == 0x1_0000_0000_0000_0000_0000_0000_0000_0000nat);
    assert(q3 < b) by {
        lemma_div_by_multiple_is_strongly_ordered(
            v as int,
            b * b * b * b,
            b,
            b * b * b,
        );
        assert(b * b * b * b == b * (b * b * b)) by (nonlinear_arith);
        lemma_div_by_multiple(b, b * b * b);
    }
    lemma_small_mod(q3 as nat, b as nat);
    assert(v == l[0] + l[1] * b + l[2] * (b * b) + l[3] * (b * b * b)) by (nonlinear_arith)
        requires
            v == b * q1 + l[0],
            q1 == b * q2 + l[1],
            q2 == b * q3 + l[2],
            l[3] == q3,
    ;
}

/// Two elements with the same value are the same element.
proof fn lemma_fr_from_value(f: Fr)
    requires
        f@ < fr_modulus(),
    ensures
        fr_from_nat(f@) == f,
{
    lemma_small_mod(f@, fr_modulus());
    lemma_limbs_roundtrip(f.limbs);
}

proof fn lemma_fr_from_nat_value(v: nat)
    ensures
        fr_from_nat(v)@ == v % fr_modulus(),
        fr_from_nat(v)@ < fr_modulus(),
{
    lemma_nat_limbs_value(v % fr_modulus());
}

// ---------------------------------------------------------------------------
// arkworks field arithmetic, on canonical limbs
// ---------------------------------------------------------------------------

/// `ark_bn254::Fr::from_le_bytes_mod_order` (ark-ff's `PrimeField`), read
/// back with `into_bigint`: the element is the little-endian number of the
/// bytes reduced modulo `r`, and its limbs are that canonical value.
#[verifier::external_body]
fn ark_from_le_bytes_mod_order(bytes: &[u8; 32]) -> (l: [u64; 4])
    ensures
        limbs_nat(l) == le_nat(bytes@) % fr_modulus(),
{
    ArkFr::from_le_bytes_mod_order(bytes).into_bigint().0
}

/// Addition of `ark_bn254::Fr` elements (`Add` of ark-ff's `Fp`), with the
/// operands built by `Fp::new` from canonical limbs and the sum read back
/// with `into_bigint`: the sum modulo `r`.
#[verifier::external_body]
fn ark_add(a: [u64; 4], b: [u64; 4]) -> (l: [u64; 4])
    requires
        limbs_canonical(a),
        limbs_canonical(b),
    ensures
        limbs_nat(l) == (limbs_nat(a) + limbs_nat(b)) % fr_modulus(),
{
    (ArkFr::new(BigInt::new(a)) + ArkFr::new(BigInt::new(b))).into_bigint().0
}

/// Subtraction of `ark_bn254::Fr` elements (`Sub` of ark-ff's `Fp`), built
/// and read back as in `ark_add`: the difference modulo `r`.
#[verifier::external_body]
fn ark_sub(a: [u64; 4], b: [u64; 4]) -> (l: [u64; 4])
    requires
        limbs_canonical(a),
        limbs_canonical(b),
    ensures
        limbs_nat(l) == (limbs_nat(a) + fr_modulus() - limbs_nat(b)) % (fr_modulus() as int),
{
    (ArkFr::new(BigInt::new(a)) - ArkFr::new(BigInt::new(b))).into_bigint().0
}

/// Multiplication of `ark_bn254::Fr` elements (`Mul` of ark-ff's `Fp`),
/// built and read back as in `ark_add`: the product modulo `r`.
#[verifier::external_body]
fn ark_mul(a: [u64; 4], b: [u64; 4]) -> (l: [u64; 4])
    requires
        limbs_canonical(a),
        limbs_canonical(b),
    ensures
        limbs_nat(l) == (limbs_nat(a) * limbs_nat(b)) % fr_modulus(),
{
    (ArkFr::new(BigInt::new(a)) * ArkFr::new(BigInt::new(b))).into_bigint().0
}

/// Negation of an `ark_bn254::Fr` element (`Neg` of ark-ff's `Fp`), built
/// and read back as in `ark_add`: `r - a`, or zero for zero.
#[verifier::external_body]
fn ark_neg(a: [u64; 4]) -> (l: [u64; 4])
    requires
        limbs_canonical(a),
    ensures
        limbs_nat(l) == (fr_modulus() - limbs_nat(a)) % (fr_modulus() as int),
{
    (-ArkFr::new(BigInt::new(a))).into_bigint().0
}

/// `Field::inverse` of an `ark_bn254::Fr` element, built and read back as in
/// `ark_add`: `None` exactly for zero, otherwise the element whose product
/// with the argument is one modulo `r`.
#[verifier::external_body]
fn ark_inverse(a: [u64; 4]) -> (l: Option<[u64; 4]>)
    requires
        limbs_canonical(a),
    ensures
        l is None <==> limbs_nat(a) == 0,
        l matches Some(i) ==> limbs_canonical(i) && (limbs_nat(i) * limbs_nat(a))
            % fr_modulus() == 1,
{
    match ArkFr::new(BigInt::new(a)).inverse() {
        Some(i) => Some(i.into_bigint().0),
        None => None,
    }
}

/// `Field::pow` of an `ark_bn254::Fr` element by a one-limb exponent, built
/// and read back as in `ark_add`: `a^e` modulo `r` (with `a^0 = 1`).
#[verifier::external_body]
fn ark_pow(a: [u64; 4], e: u64) -> (l: [u64; 4])
    requires
        limbs_canonical(a),
    ensures
        limbs_nat(l) == vstd::arithmetic::power::pow(limbs_nat(a) as int, e as nat) % (
        fr_modulus() as int),
{
    ArkFr::new(BigInt::new(a)).pow([e]).into_bigint().0
}


// ---------------------------------------------------------------------------
// Fr
// ---------------------------------------------------------------------------

impl Fr {
    /// Every element holds its canonical value.
    #[verifier::type_invariant]
    spec fn canonical(self) -> bool {
        limbs_canonical(self.limbs)
    }

    /// Construct from u64.
    pub fn from_u64(x: u64) -> (f: Self)
        ensures
            f@ == x,
            f@ < fr_modulus(),
    {
        Fr { limbs: [x, 0, 0, 0] }
    }

    /// Construct from a hex string (with or without 0x prefix), reducing
    /// modulo `r`. An odd number of digits is read as if padded with a
    /// leading '0'; at most the first 64 digits are read; bytes that are not
    /// hex digits read as zero.
    pub fn from_str(s: &str) -> (f: Self)
        ensures
            f@ == be_nat(hex_decoded(s.spec_bytes())) % fr_modulus(),
            f@ == hex_nat(hex_digits(s.spec_bytes())) % fr_modulus(),
            f@ < fr_modulus(),
    {
        let mut padded = [0u8; 32];
        let n = decode_hex_to_bytes(s, &mut padded);
        proof {
            let z = 32 - n;
            let d = hex_decoded(s.spec_bytes());
            assert(padded@.subrange(z as int, 32) =~= d);
            crate::num::lemma_be_nat_leading_zeros(padded@, z as int);
            lemma_hex_decoded_value(s.spec_bytes());
        }
        Self::from_bytes(&padded)
    }

    /// Construct from a 32-byte big-endian array, reducing modulo `r`.
    pub fn from_bytes(bytes: &[u8; 32]) -> (f: Self)
        ensures
            f@ == be_nat(bytes@) % fr_modulus(),
            f@ < fr_modulus(),
    {
        // arkworks reads little-endian, so reverse the big-endian bytes
        let mut tmp = [0u8; 32];
        let mut i: usize = 0;
        while i < 32
            invariant
                i <= 32,
                forall|j: int| 0 <= j < i ==> tmp[j] == bytes[31 - j],
            decreases 32 - i,
        {
            tmp[i] = bytes[31 - i];
            i = i + 1;
        }
        proof {
            assert(reversed(tmp@) =~= bytes@);
            crate::num::lemma_le_nat_reversed(tmp@);
        }
        let l = ark_from_le_bytes_mod_order(&tmp);
        Fr { limbs: l }
    }

    /// Convert to the 32-byte big-endian representation of the canonical value.
    pub fn to_bytes(&self) -> (out: [u8; 32])
        ensures
            be_nat(out@) == self@,
            out@ == be_bytes(self@, 32),
            self@ < fr_modulus(),
    {
        proof {
            use_type_invariant(self);
        }
        let mut out = [0u8; 32];
        let mut i: usize = 0;
        while i < 4
            invariant
                i <= 4,
                be_nat(out@.subrange(0, 8 * i as int)) == limbs_top(self.limbs, i as nat),
            decreases 4 - i,
        {
            let chunk = u64_to_be_bytes(self.limbs[3 - i]);
            let ghost prev = out@;
            let mut k: usize = 0;
            while k < 8
                invariant
                    i < 4,
                    k <= 8,
                    out@.len() == 32,
                    forall|j: int| 0 <= j < 8 * i ==> out@[j] == prev[j],
                    forall|j: int| 0 <= j < k ==> out@[8 * i + j] == chunk@[j],
                decreases 8 - k,
            {
                out[8 * i + k] = chunk[k];
                k = k + 1;
            }
            proof {
                let lo = 8 * i as int;
                assert(out@.subrange(0, lo) =~= prev.subrange(0, lo));
                assert(out@.subrange(lo, lo + 8) =~= chunk@);
                assert(out@.subrange(0, lo + 8) =~= out@.subrange(0, lo) + out@.subrange(
                    lo,
                    lo + 8,
                ));
                crate::num::lemma_be_nat_concat(out@.subrange(0, lo), chunk@);
                crate::num::lemma_pow256_values();
            }
            i = i + 1;
        }
        proof {
            assert(out@.subrange(0, 32) =~= out@);
            lemma_limbs_top_full(self.limbs);
            crate::num::lemma_be_bytes_of_be_nat(out@);
        }
        out
    }

    /// The multiplicative inverse, or `None` for zero.
    pub fn inverse(&self) -> (r: Option<Self>)
        ensures
            r is None <==> self@ == 0,
            r matches Some(i) ==> (i@ * self@) % fr_modulus() == 1 && i@ < fr_modulus(),
            self@ < fr_modulus(),
    {
        proof {
            use_type_invariant(self);
        }
        match ark_inverse(self.limbs) {
            Some(l) => Some(Fr { limbs: l }),
            None => None,
        }
    }

    /// The additive identity.
    pub fn zero() -> (f: Self)
        ensures
            f@ == 0,
            f@ < fr_modulus(),
    {
        Fr { limbs: [0, 0, 0, 0] }
    }

    /// The multiplicative identity.
    pub fn one() -> (f: Self)
        ensures
            f@ == 1,
            f@ < fr_modulus(),
    {
        Fr { limbs: [1, 0, 0, 0] }
    }

    /// `self^exp` modulo `r`; only the low 64 bits of `exp` are used.
    pub fn pow(&self, exp: u128) -> (f: Self)
        ensures
            f@ == vstd::arithmetic::power::pow(self@ as int, (exp % 0x1_0000_0000_0000_0000) as nat)
                % (fr_modulus() as int),
            f@ < fr_modulus(),
    {
        proof {
            use_type_invariant(self);
        }
        let low = (exp % 0x1_0000_0000_0000_0000) as u64;
        Fr { limbs: ark_pow(self.limbs, low) }
    }

    /// Whether this is the zero element.
    pub fn is_zero(&self) -> (b: bool)
        ensures
            b <==> self@ == 0,
            self@ < fr_modulus(),
    {
        proof {
            use_type_invariant(self);
        }
        self.limbs[0] == 0 && self.limbs[1] == 0 && self.limbs[2] == 0 && self.limbs[3] == 0
    }
}

impl core::ops::Add for Fr {
    type Output = Fr;

    fn add(self, rhs: Fr) -> (r: Fr)
        ensures
            r@ < fr_modulus(),
    {
        proof {
            use_type_invariant(&self);
            use_type_invariant(&rhs);
        }
        let r = Fr { limbs: ark_add(self.limbs, rhs.limbs) };
        proof {
            use_type_invariant(&r);
            lemma_fr_from_value(r);
        }
        r
    }
}

impl vstd::std_specs::ops::AddSpecImpl for Fr {
    open spec fn obeys_add_spec() -> bool {
        true
    }

    open spec fn add_req(self, rhs: Fr) -> bool {
        true
    }

    /// The sum modulo `r`.
    open spec fn add_spec(self, rhs: Fr) -> Fr {
        fr_from_nat(self@ + rhs@)
    }
}

impl core::ops::Sub for Fr {
    type Output = Fr;

    fn sub(self, rhs: Fr) -> (r: Fr)
        ensures
            r@ < fr_modulus(),
    {
        proof {
            use_type_invariant(&self);
            use_type_invariant(&rhs);
        }
        let r = Fr { limbs: ark_sub(self.limbs, rhs.limbs) };
        proof {
            use_type_invariant(&r);
            lemma_fr_from_value(r);
            assert((self@ + fr_modulus() - rhs@) as nat == self@ + fr_modulus() - rhs@);
        }
        r
    }
}

impl vstd::std_specs::ops::SubSpecImpl for Fr {
    open spec fn obeys_sub_spec() -> bool {
        true
    }

    open spec fn sub_req(self, rhs: Fr) -> bool {
        true
    }

    /// The difference modulo `r`.
    open spec fn sub_spec(self, rhs: Fr) -> Fr {
        fr_from_nat((self@ + fr_modulus() - rhs@) as nat)
    }
}

impl core::ops::Mul for Fr {
    type Output = Fr;

    fn mul(self, rhs: Fr) -> (r: Fr)
        ensures
            r@ < fr_modulus(),
    {
        proof {
            use_type_invariant(&self);
            use_type_invariant(&rhs);
        }
        let r = Fr { limbs: ark_mul(self.limbs, rhs.limbs) };
        proof {
            use_type_invariant(&r);
            lemma_fr_from_value(r);
        }
        r
    }
}

impl vstd::std_specs::ops::MulSpecImpl for Fr {
    open spec fn obeys_mul_spec() -> bool {
        true
    }

    open spec fn mul_req(self, rhs: Fr) -> bool {
        true
    }

    /// The product modulo `r`.
    open spec fn mul_spec(self, rhs: Fr) -> Fr {
        fr_from_nat(self@ * rhs@)
    }
}

impl core::ops::Neg for Fr {
    type Output = Fr;

    fn neg(self) -> (r: Fr)
        ensures
            r@ < fr_modulus(),
    {
        proof {
            use_type_invariant(&self);
        }
        let r = Fr { limbs: ark_neg(self.limbs) };
        proof {
            use_type_invariant(&r);
            lemma_fr_from_value(r);
        }
        r
    }
}

impl vstd::std_specs::ops::NegSpecImpl for Fr {
    open spec fn obeys_neg_spec() -> bool {
        true
    }

    open spec fn neg_req(self) -> bool {
        true
    }

    /// `r - self` modulo `r`.
    open spec fn neg_spec(self) -> Fr {
        fr_from_nat((fr_modulus() - self@) as nat)
    }
}

/// The value of `fr_from_nat(v)` is `v % r`.
pub proof fn lemma_fr_from_nat(v: nat)
    ensures
        fr_from_nat(v)@ == v % fr_modulus(),
        fr_from_nat(v)@ < fr_modulus(),
{
    lemma_fr_from_nat_value(v);
}

// ---------------------------------------------------------------------------
// hex strings
// ---------------------------------------------------------------------------

/// Maximum hex string length we support (64 digits + 2 for a "0x" prefix).
const MAX_HEX_LEN: usize = 66;

/// The value of one hex digit; any other byte reads as zero.
pub open spec fn nibble(c: u8) -> u8 {
    if 48 <= c <= 57 {
        (c - 48) as u8
    } else if 97 <= c <= 102 {
        (c - 97 + 10) as u8
    } else if 65 <= c <= 70 {
        (c - 65 + 10) as u8
    } else {
        0
    }
}

/// `s` without the two-byte prefix `a b`, if it starts with it.
pub open spec fn strip_prefix2(s: Seq<u8>, a: u8, b: u8) -> Seq<u8> {
    if s.len() >= 2 && s[0] == a && s[1] == b {
        s.subrange(2, s.len() as int)
    } else {
        s
    }
}

/// The hex digits that are read from `s`: after removing a leading "0x" and
/// then a leading "0X", at most the first 64 bytes.
pub open spec fn hex_digits(s: Seq<u8>) -> Seq<u8> {
    let raw = strip_prefix2(strip_prefix2(s, 48, 120), 48, 88);
    if raw.len() <= 64 {
        raw
    } else {
        raw.subrange(0, 64)
    }
}

/// The digits padded with a leading '0' to an even count.
pub open spec fn hex_padded(d: Seq<u8>) -> Seq<u8> {
    if d.len() % 2 == 1 {
        seq![48u8] + d
    } else {
        d
    }
}

/// The bytes that an even run of hex digits spells, two digits per byte.
pub open spec fn hex_pairs(p: Seq<u8>) -> Seq<u8> {
    Seq::new(p.len() / 2, |i: int| (nibble(p[2 * i]) * 16 + nibble(p[2 * i + 1])) as u8)
}

/// The bytes that `decode_hex_to_bytes` writes for the string with bytes `s`.
pub open spec fn hex_decoded(s: Seq<u8>) -> Seq<u8> {
    hex_pairs(hex_padded(hex_digits(s)))
}

/// The number that a run of hex digits spells, most significant first.
pub open spec fn hex_nat(d: Seq<u8>) -> nat
    decreases d.len(),
{
    if d.len() == 0 {
        0
    } else {
        hex_nat(d.drop_last()) * 16 + nibble(d.last()) as nat
    }
}

/// Each hex digit reads as its standard value: '0'..'9' as 0..9, and both
/// 'a'..'f' and 'A'..'F' as 10..15; every other byte reads as zero.
pub proof fn lemma_nibble_values(c: u8)
    ensures
        48 <= c <= 57 ==> nibble(c) as int == c as int - 48,
        97 <= c <= 102 ==> nibble(c) as int == c as int - 87,
        65 <= c <= 70 ==> nibble(c) as int == c as int - 55,
        !(48 <= c <= 57 || 97 <= c <= 102 || 65 <= c <= 70) ==> nibble(c) == 0,
{
}

/// The lowercase and the uppercase hex digit for a value `v < 16` both read
/// back as `v`.
pub proof fn lemma_nibble_of_digit(v: u8)
    requires
        v < 16,
    ensures
        v < 10 ==> nibble((48 + v) as u8) == v,
        v >= 10 ==> nibble((87 + v) as u8) == v && nibble((55 + v) as u8) == v,
{
}

/// A byte with 'A'..'F' turned into 'a'..'f'.
pub open spec fn ascii_lower(c: u8) -> u8 {
    if 65 <= c <= 90 {
        (c + 32) as u8
    } else {
        c
    }
}

/// Hex digits read the same in upper and lower case: a run of digits spells
/// the same number as its lowercase form.
pub proof fn lemma_hex_nat_case_insensitive(d: Seq<u8>)
    ensures
        hex_nat(d.map_values(|c: u8| ascii_lower(c))) == hex_nat(d),
    decreases d.len(),
{
    let l = d.map_values(|c: u8| ascii_lower(c));
    if d.len() > 0 {
        assert(l.drop_last() =~= d.drop_last().map_values(|c: u8| ascii_lower(c)));
        lemma_hex_nat_case_insensitive(d.drop_last());
        assert(l.last() == ascii_lower(d.last()));
        assert(nibble(ascii_lower(d.last())) == nibble(d.last()));
    }
}

/// The value of one hex digit; any other byte is treated as zero.
pub fn hex_char_to_nibble(c: u8) -> (n: u8)
    ensures
        n == nibble(c),
        n < 16,
{
    // '0'..='9', 'a'..='f', 'A'..='F'
    if 48u8 <= c && c <= 57u8 {
        c - 48u8
    } else if 97u8 <= c && c <= 102u8 {
        c - 97u8 + 10
    } else if 65u8 <= c && c <= 70u8 {
        c - 65u8 + 10
    } else {
        0
    }
}

/// Decode the hex digits of `s` (an optional "0x" and then "0X" prefix is
/// skipped, at most 64 digits are read, an odd count is padded with a leading
/// '0') into big-endian bytes, right-aligned in `out`; returns the number of
/// bytes written. The bytes of `out` before them are left as they were.
pub fn decode_hex_to_bytes(s: &str, out: &mut [u8; 32]) -> (n: usize)
    ensures
        n == hex_decoded(s.spec_bytes()).len(),
        n <= 32,
        final(out)@ == old(out)@.subrange(0, 32 - n as int) + hex_decoded(s.spec_bytes()),
{
    let raw = s.as_bytes();
    let ghost sb = s.spec_bytes();
    let mut start: usize = 0;
    // skip "0x", then "0X"
    if raw.len() >= 2 && raw[0] == 48u8 && raw[1] == 120u8 {
        start = 2;
    }
    if raw.len() - start >= 2 && raw[start] == 48u8 && raw[start + 1] == 88u8 {
        start = start + 2;
    }
    let avail = raw.len() - start;
    let raw_len = if avail < 64 {
        avail
    } else {
        64
    };
    let ghost digits = hex_digits(sb);
    proof {
        let r1 = strip_prefix2(sb, 48, 120);
        assert(r1 =~= sb.subrange(if sb.len() >= 2 && sb[0] == 48 && sb[1] == 120 { 2int } else { 0 }, sb.len() as int));
        assert(strip_prefix2(r1, 48, 88) =~= sb.subrange(start as int, sb.len() as int));
        assert(digits =~= sb.subrange(start as int, start + raw_len));
    }
    // Use a fixed buffer for hex normalization
    let mut hex_buf = [0u8; MAX_HEX_LEN];
    let hex_len: usize;
    if raw_len % 2 == 1 {
        // odd length: prepend a '0'
        hex_buf[0] = 48u8;
        let mut i: usize = 0;
        while i < raw_len
            invariant
                raw@ == sb,
                start + raw_len <= raw.len(),
                raw_len <= 64,
                i <= raw_len,
                hex_buf[0] == 48,
                forall|j: int| 1 <= j <= i ==> #[trigger] hex_buf[j] == raw@[start + j - 1],
            decreases raw_len - i,
        {
            hex_buf[i + 1] = raw[start + i];
            i = i + 1;
        }
        hex_len = raw_len + 1;
    } else {
        let mut i: usize = 0;
        while i < raw_len
            invariant
                raw@ == sb,
                start + raw_len <= raw.len(),
                raw_len <= 64,
                i <= raw_len,
                forall|j: int| 0 <= j < i ==> #[trigger] hex_buf[j] == raw@[start + j],
            decreases raw_len - i,
        {
            hex_buf[i] = raw[start + i];
            i = i + 1;
        }
        hex_len = raw_len;
    }
    let ghost padded = hex_padded(digits);
    assert(hex_buf@.subrange(0, hex_len as int) =~= padded);
    // decode pairs of digits into bytes
    let byte_len = hex_len / 2;
    let mut temp = [0u8; 32];
    let mut i: usize = 0;
    while i < byte_len
        invariant
            hex_len <= 64,
            byte_len == hex_len / 2,
            hex_len % 2 == 0,
            hex_buf@.subrange(0, hex_len as int) == padded,
            i <= byte_len,
            forall|j: int| 0 <= j < i ==> temp[j] == hex_pairs(padded)[j],
        decreases byte_len - i,
    {
        let hi = hex_char_to_nibble(hex_buf[i * 2]);
        let lo = hex_char_to_nibble(hex_buf[i * 2 + 1]);
        assert(hex_buf[i * 2] == padded[2 * i]);
        assert(hex_buf[i * 2 + 1] == padded[2 * i + 1]);
        temp[i] = hi * 16 + lo;
        i = i + 1;
    }
    // right-align (big-endian) in the output
    let offset = 32 - byte_len;
    let mut j: usize = 0;
    while j < byte_len
        invariant
            byte_len <= 32,
            offset == 32 - byte_len,
            j <= byte_len,
            forall|k: int| 0 <= k < offset ==> out[k] == old(out)[k],
            forall|k: int| offset <= k < offset + j ==> #[trigger] out[k] == temp[k - offset],
        decreases byte_len - j,
    {
        out[offset + j] = temp[j];
        j = j + 1;
    }
    assert(out@ =~= old(out)@.subrange(0, offset as int) + hex_pairs(padded));
    byte_len
}

/// The number that a run of hex digits spells is the number that its
/// decoded bytes spell.
pub proof fn lemma_hex_pairs_value(p: Seq<u8>)
    requires
        p.len() % 2 == 0,
    ensures
        be_nat(hex_pairs(p)) == hex_nat(p),
    decreases p.len(),
{
    if p.len() > 0 {
        let q = p.subrange(0, p.len() - 2);
        lemma_hex_pairs_value(q);
        let h = hex_pairs(p);
        assert(h.drop_last() =~= hex_pairs(q));
        assert(p.drop_last().drop_last() =~= q);
        let a = nibble(p[p.len() - 2]) as nat;
        let b = nibble(p[p.len() - 1]) as nat;
        assert(h.last() == a * 16 + b);
        assert(hex_nat(p.drop_last()) == hex_nat(q) * 16 + a);
    }
}

/// A leading '0' digit does not change the number.
pub proof fn lemma_hex_nat_leading_zero(d: Seq<u8>)
    ensures
        hex_nat(seq![48u8] + d) == hex_nat(d),
    decreases d.len(),
{
    let e = seq![48u8] + d;
    if d.len() == 0 {
        assert(e.drop_last() =~= Seq::<u8>::empty());
        assert(e.last() == 48u8);
        assert(hex_nat(Seq::<u8>::empty()) == 0);
        assert(hex_nat(d) == 0);
    } else {
        assert(e.drop_last() =~= seq![48u8] + d.drop_last());
        assert(e.last() == d.last());
        lemma_hex_nat_leading_zero(d.drop_last());
    }
}

/// The bytes decoded from a string spell the number that its hex digits spell.
pub proof fn lemma_hex_decoded_value(s: Seq<u8>)
    ensures
        be_nat(hex_decoded(s)) == hex_nat(hex_digits(s)),
{
    let d = hex_digits(s);
    lemma_hex_pairs_value(hex_padded(d));
    if d.len() % 2 == 1 {
        lemma_hex_nat_leading_zero(d);
    }
}

/// Reading back the 32 bytes of an element gives the element:
/// `Fr::from_bytes(&f.to_bytes()) == f`, stated on the values.
pub proof fn lemma_bytes_roundtrip(v: nat)
    requires
        v < fr_modulus(),
    ensures
        be_nat(be_bytes(v, 32)) % fr_modulus() == v,
{
    crate::num::lemma_be_bytes_value(v, 32);
    crate::num::lemma_pow256_values();
    lemma_small_mod(v, crate::num::pow256(32));
    lemma_small_mod(v, fr_modulus());
}

/// Writing out the element read from canonical bytes gives those bytes:
/// `Fr::from_bytes(&b).to_bytes() == b` when `b` spells a number below `r`.
pub proof fn lemma_canonical_bytes_roundtrip(b: Seq<u8>)
    requires
        b.len() == 32,
        be_nat(b) < fr_modulus(),
    ensures
        be_bytes(be_nat(b) % fr_modulus(), 32) == b,
{
    lemma_small_mod(be_nat(b), fr_modulus());
    crate::num::lemma_be_bytes_of_be_nat(b);
}

/// Elements with the same value are the same element.
pub proof fn lemma_fr_view_injective(a: Fr, b: Fr)
    requires
        a@ == b@,
    ensures
        a == b,
{
    lemma_limbs_roundtrip(a.limbs);
    lemma_limbs_roundtrip(b.limbs);
}

/// `Fr::from_bytes(&x.to_bytes()) == x`: the element read back from the
/// bytes that `to_bytes` writes for `x` is `x`.
pub proof fn lemma_fr_bytes_roundtrip(x: Fr, y: Fr)
    requires
        x@ < fr_modulus(),
        y@ == be_nat(be_bytes(x@, 32)) % fr_modulus(),
    ensures
        y == x,
{
    lemma_bytes_roundtrip(x@);
    lemma_fr_view_injective(x, y);
}

/// Subtracting what was added gives the element back: `(a + b) - b == a`.
pub proof fn lemma_sub_undoes_add(a: Fr, b: Fr)
    requires
        a@ < fr_modulus(),
        b@ < fr_modulus(),
    ensures
        fr_from_nat((fr_from_nat(a@ + b@)@ + fr_modulus() - b@) as nat) == a,
{
    let m = fr_modulus() as int;
    lemma_fr_from_nat_value(a@ + b@);
    let x = fr_from_nat(a@ + b@)@ as int;
    let s = (a@ + b@) as int;
    if s < m {
        lemma_small_mod(s as nat, m as nat);
        lemma_fundamental_div_mod_converse(x + m - b@, m, 1, a@ as int);
    } else {
        lemma_fundamental_div_mod_converse(s, m, 1, s - m);
        lemma_fundamental_div_mod_converse(x + m - b@, m, 0, a@ as int);
    }
    lemma_fr_from_value(a);
    lemma_fr_from_nat_value((x + m - b@) as nat);
    lemma_fr_from_value(fr_from_nat((x + m - b@) as nat));
}

/// An element plus its negation is zero: `a + (-a) == 0`.
pub proof fn lemma_add_neg_is_zero(a: Fr)
    requires
        a@ < fr_modulus(),
    ensures
        fr_from_nat(a@ + fr_from_nat((fr_modulus() - a@) as nat)@) == fr_from_nat(0),
{
    let m = fr_modulus() as int;
    lemma_fr_from_nat_value((fr_modulus() - a@) as nat);
    let n = fr_from_nat((fr_modulus() - a@) as nat)@ as int;
    if a@ == 0 {
        lemma_fundamental_div_mod_converse(m, m, 1, 0);
        lemma_small_mod(0, fr_modulus());
    } else {
        lemma_small_mod((m - a@) as nat, m as nat);
        lemma_fundamental_div_mod_converse(m, m, 1, 0);
    }
    lemma_fr_from_nat_value((a@ + n) as nat);
    lemma_fr_from_nat_value(0);
    lemma_fr_from_value(fr_from_nat((a@ + n) as nat));
    lemma_fr_from_value(fr_from_nat(0));
}

/// The number spelled by the top `i` limbs, most significant first.
pub open spec fn limbs_top(l: [u64; 4], i: nat) -> nat
    decreases i,
{
    if i == 0 || i > 4 {
        0
    } else {
        limbs_top(l, (i - 1) as nat) * 0x1_0000_0000_0000_0000nat + l[4 - i] as nat
    }
}

proof fn lemma_limbs_top_full(l: [u64; 4])
    ensures
        limbs_top(l, 4) == limbs_nat(l),
{
    reveal_with_fuel(limbs_top, 5);
}

/// The eight bytes of `x`, most significant first.
fn u64_to_be_bytes(x: u64) -> (b: [u8; 8])
    ensures
        be_nat(b@) == x,
{
    let mut b = [0u8; 8];
    let mut v = x;
    let mut k: usize = 8;
    proof {
        assert(b@.subrange(8, 8) =~= Seq::<u8>::empty());
        assert(crate::num::pow256(0) == 1);
        assert(be_nat(Seq::<u8>::empty()) == 0);
        assert(be_nat(b@.subrange(8, 8)) == 0);
        assert(v * crate::num::pow256(0) == v) by (nonlinear_arith)
            requires
                crate::num::pow256(0) == 1,
        ;
    }
    while k > 0
        invariant
            k <= 8,
            x == v * crate::num::pow256((8 - k) as nat) + be_nat(b@.subrange(k as int, 8)),
        decreases k,
    {
        let ghost old_b = b@;
        let ghost old_v = v;
        let d = (v % 256) as u8;
        b[k - 1] = d;
        v = v / 256;
        k = k - 1;
        proof {
            let suf = b@.subrange(k as int, 8);
            assert(suf =~= seq![d] + old_b.subrange(k + 1, 8));
            crate::num::lemma_be_nat_concat(seq![d], old_b.subrange(k + 1, 8));
            crate::num::lemma_be_nat_single(d);
            let p = crate::num::pow256((7 - k) as nat);
            assert(crate::num::pow256((8 - k) as nat) == 256 * p);
            assert(old_v == 256 * v + d);
            assert(old_v * p == v * (256 * p) + d * p) by (nonlinear_arith)
                requires
                    old_v == 256 * v + d,
            ;
        }
    }
    proof {
        assert(b@.subrange(0, 8) =~= b@);
        crate::num::lemma_pow256_values();
        crate::num::lemma_be_nat_bound(b@);
        assert(v == 0) by (nonlinear_arith)
            requires
                x == v * 0x1_0000_0000_0000_0000nat + be_nat(b@),
                x < 0x1_0000_0000_0000_0000nat,
                v >= 0,
        ;
    }
    b
}

} // verus!
