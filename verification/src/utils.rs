//! Utilities for loading a Proof and a VerificationKey from bytes.
use crate::field::{fr_modulus, Fr};
use crate::num::{be_nat, lemma_be_nat_bound, lemma_be_nat_leading_zeros, lemma_be_nat_split, lemma_pow256_values, pow256};
use crate::types::{
    vk_points, G1Point, Proof, VerificationKey, BATCHED_RELATION_PARTIAL_LENGTH,
    CONST_PROOF_SIZE_LOG_N, G1_POINT_SIZE, GEMINI_FOLD_COMMS_SIZE, NUMBER_OF_ENTITIES,
    PAIRING_POINTS_SIZE,
};
use crate::PROOF_BYTES;
use vstd::arithmetic::div_mod::lemma_fundamental_div_mod_converse;
use vstd::prelude::*;

verus! {

/// `n` zero bytes.
pub open spec fn zeros(n: nat) -> Seq<u8> {
    Seq::new(n, |i: int| 0u8)
}

/// The low 136 bits of a 32-byte big-endian value, right-aligned in 32 bytes.
pub open spec fn lo_half(b: Seq<u8>) -> Seq<u8> {
    zeros(15) + b.subrange(15, 32)
}

/// The high 120 bits of a 32-byte big-endian value, right-aligned in 32 bytes.
pub open spec fn hi_half(b: Seq<u8>) -> Seq<u8> {
    zeros(17) + b.subrange(0, 15)
}

/// The 32-byte value put back together from a split (lo, hi) pair.
pub open spec fn recombined(lo: Seq<u8>, hi: Seq<u8>) -> Seq<u8> {
    hi.subrange(17, 32) + lo.subrange(15, 32)
}

/// The 64 bytes of the G1 point encoded in split-limb form at `off`:
/// `[x_lo(32), x_hi(32), y_lo(32), y_hi(32)]`.
pub open spec fn proof_point_at(b: Seq<u8>, off: int) -> Seq<u8> {
    recombined(b.subrange(off, off + 32), b.subrange(off + 32, off + 64)) + recombined(
        b.subrange(off + 64, off + 96),
        b.subrange(off + 96, off + 128),
    )
}

/// The field element encoded big-endian at `off`, reduced modulo `r`.
pub open spec fn fr_at(b: Seq<u8>, off: int) -> nat {
    be_nat(b.subrange(off, off + 32)) % fr_modulus()
}

/// The length of an encoded verification key: 4 header words and 27 points.
pub const VK_BYTES: usize = 4 * 8 + 27 * 64;

/// Convert a 32-byte big-endian array into an Fr.
pub fn bytes32_to_fr(bytes: &[u8; 32]) -> (f: Fr)
    ensures
        f@ == be_nat(bytes@) % fr_modulus(),
{
    Fr::from_bytes(bytes)
}

/// Split a 32-byte BE field element into (lo136, hi118) each as 32-byte BE.
/// This is used for transcript hashing to match the Barretenberg split-limb format.
pub fn bytes32_to_halves_be(bytes: &[u8; 32]) -> (r: ([u8; 32], [u8; 32]))
    ensures
        r.0@ == lo_half(bytes@),
        r.1@ == hi_half(bytes@),
        be_nat(r.0@) == be_nat(bytes@) % 0x1_0000_0000_0000_0000_0000_0000_0000_0000_00nat,
        be_nat(r.1@) == be_nat(bytes@) / 0x1_0000_0000_0000_0000_0000_0000_0000_0000_00nat,
{
    // 136 bits = 17 bytes: lo136 is bytes 15..32, hi118 is bytes 0..15
    let mut lo = [0u8; 32];
    let mut hi = [0u8; 32];
    let mut i: usize = 15;
    while i < 32
        invariant
            15 <= i <= 32,
            forall|j: int| 0 <= j < 15 ==> lo[j] == 0,
            forall|j: int| 15 <= j < i ==> lo[j] == bytes[j],
        decreases 32 - i,
    {
        lo[i] = bytes[i];
        i = i + 1;
    }
    // right-align the high bytes in the output (bytes 17..32)
    let mut k: usize = 0;
    while k < 15
        invariant
            k <= 15,
            forall|j: int| 0 <= j < 17 ==> hi[j] == 0,
            forall|j: int| 17 <= j < 17 + k ==> #[trigger] hi[j] == bytes[j - 17],
        decreases 15 - k,
    {
        hi[17 + k] = bytes[k];
        k = k + 1;
    }
    proof {
        let b = bytes@;
        assert(lo@ =~= lo_half(b));
        assert(hi@ =~= hi_half(b));
        lemma_halves_value(b);
    }
    (lo, hi)
}

proof fn lemma_halves_value(b: Seq<u8>)
    requires
        b.len() == 32,
    ensures
        be_nat(lo_half(b)) == be_nat(b) % 0x1_0000_0000_0000_0000_0000_0000_0000_0000_00nat,
        be_nat(hi_half(b)) == be_nat(b) / 0x1_0000_0000_0000_0000_0000_0000_0000_0000_00nat,
{
    lemma_pow256_values();
    let lo = lo_half(b);
    let hi = hi_half(b);
    lemma_be_nat_leading_zeros(lo, 15);
    assert(lo.subrange(15, 32) =~= b.subrange(15, 32));
    lemma_be_nat_leading_zeros(hi, 17);
    assert(hi.subrange(17, 32) =~= b.subrange(0, 15));
    lemma_be_nat_split(b, 15);
    lemma_be_nat_bound(b.subrange(15, 32));
    lemma_fundamental_div_mod_converse(
        be_nat(b) as int,
        pow256(17) as int,
        be_nat(b.subrange(0, 15)) as int,
        be_nat(b.subrange(15, 32)) as int,
    );
}

/// Splitting and recombining gives back the 32-byte value.
pub proof fn lemma_recombine_inverts_halves(b: Seq<u8>)
    requires
        b.len() == 32,
    ensures
        recombined(lo_half(b), hi_half(b)) == b,
{
    assert(recombined(lo_half(b), hi_half(b)) =~= b);
}

/// A G1 point written in split-limb form, the halves of x then the halves
/// of y, is read back as `x || y`.
pub proof fn lemma_proof_point_of_halves(b: Seq<u8>, off: int, x: Seq<u8>, y: Seq<u8>)
    requires
        x.len() == 32,
        y.len() == 32,
        0 <= off,
        off + 128 <= b.len(),
        b.subrange(off, off + 128) == lo_half(x) + hi_half(x) + lo_half(y) + hi_half(y),
    ensures
        proof_point_at(b, off) == x + y,
{
    let w = b.subrange(off, off + 128);
    assert(b.subrange(off, off + 32) =~= w.subrange(0, 32));
    assert(b.subrange(off + 32, off + 64) =~= w.subrange(32, 64));
    assert(b.subrange(off + 64, off + 96) =~= w.subrange(64, 96));
    assert(b.subrange(off + 96, off + 128) =~= w.subrange(96, 128));
    assert(w.subrange(0, 32) =~= lo_half(x));
    assert(w.subrange(32, 64) =~= hi_half(x));
    assert(w.subrange(64, 96) =~= lo_half(y));
    assert(w.subrange(96, 128) =~= hi_half(y));
    lemma_recombine_inverts_halves(x);
    lemma_recombine_inverts_halves(y);
}

/// Recombining a low part below `2^136` and a high part below `2^120` gives
/// `lo + (hi << 136)`.
pub proof fn lemma_recombined_value(lo: Seq<u8>, hi: Seq<u8>)
    requires
        lo.len() == 32,
        hi.len() == 32,
        be_nat(lo) < 0x1_0000_0000_0000_0000_0000_0000_0000_0000_00nat,
        be_nat(hi) < 0x1_0000_0000_0000_0000_0000_0000_0000_00nat,
    ensures
        be_nat(recombined(lo, hi)) == be_nat(lo) + be_nat(hi)
            * 0x1_0000_0000_0000_0000_0000_0000_0000_0000_00nat,
{
    lemma_pow256_values();
    lemma_be_nat_split(lo, 15);
    lemma_be_nat_split(hi, 17);
    let lo_top = be_nat(lo.subrange(0, 15));
    let hi_top = be_nat(hi.subrange(0, 17));
    assert(lo_top == 0) by (nonlinear_arith)
        requires
            be_nat(lo) == lo_top * pow256(17) + be_nat(lo.subrange(15, 32)),
            be_nat(lo) < pow256(17),
            pow256(17) > 0,
    ;
    assert(hi_top == 0) by (nonlinear_arith)
        requires
            be_nat(hi) == hi_top * pow256(15) + be_nat(hi.subrange(17, 32)),
            be_nat(hi) < pow256(15),
            pow256(15) > 0,
    ;
    let r = recombined(lo, hi);
    lemma_be_nat_split(r, 15);
    assert(r.subrange(0, 15) =~= hi.subrange(17, 32));
    assert(r.subrange(15, 32) =~= lo.subrange(15, 32));
}

/// Recombine split-limb format back to a 32-byte BE field element.
/// Input: `lo` is the lower 136 bits and `hi` the upper 118 bits, each
/// right-aligned in 32 bytes. Output: `lo + (hi << 136)` as 32-byte BE (see
/// `lemma_recombined_value`).
pub fn recombine_split_limbs(lo: &[u8], hi: &[u8]) -> (r: [u8; 32])
    requires
        lo@.len() == 32,
        hi@.len() == 32,
    ensures
        r@ == recombined(lo@, hi@),
{
    let mut result = [0u8; 32];
    // lo136 occupies result bytes 15..32
    let mut i: usize = 15;
    while i < 32
        invariant
            lo@.len() == 32,
            15 <= i <= 32,
            forall|j: int| 15 <= j < i ==> result[j] == lo@[j],
        decreases 32 - i,
    {
        result[i] = lo[i];
        i = i + 1;
    }
    // hi118 << 136 occupies result bytes 0..15, from hi bytes 17..32
    let mut k: usize = 0;
    while k < 15
        invariant
            hi@.len() == 32,
            k <= 15,
            forall|j: int| 15 <= j < 32 ==> result[j] == lo@[j],
            forall|j: int| 0 <= j < k ==> result[j] == hi@[j + 17],
        decreases 15 - k,
    {
        result[k] = hi[17 + k];
        k = k + 1;
    }
    assert(result@ =~= recombined(lo@, hi@));
    result
}

/// Parse a G1 point from proof format (split-limb encoding: 128 bytes total).
/// Format: [x_lo(32), x_hi(32), y_lo(32), y_hi(32)]
pub fn bytes_to_g1_proof_point(bytes: &[u8], cur: &mut usize) -> (p: G1Point)
    requires
        *old(cur) + 128 <= bytes.len(),
    ensures
        *final(cur) == *old(cur) + 128,
        p.bytes@ == proof_point_at(bytes@, *old(cur) as int),
{
    let c = *cur;
    let x_lo = &bytes[c..c + 32];
    let x_hi = &bytes[c + 32..c + 64];
    let y_lo = &bytes[c + 64..c + 96];
    let y_hi = &bytes[c + 96..c + 128];
    *cur = c + 128;
    let x_bytes = recombine_split_limbs(x_lo, x_hi);
    let y_bytes = recombine_split_limbs(y_lo, y_hi);
    let mut point_bytes = [0u8; G1_POINT_SIZE];
    let mut i: usize = 0;
    while i < 32
        invariant
            i <= 32,
            forall|j: int| 0 <= j < i ==> point_bytes[j] == x_bytes[j],
            forall|j: int| 32 <= j < 32 + i ==> #[trigger] point_bytes[j] == y_bytes[j - 32],
        decreases 32 - i,
    {
        point_bytes[i] = x_bytes[i];
        point_bytes[32 + i] = y_bytes[i];
        i = i + 1;
    }
    assert(point_bytes@ =~= x_bytes@ + y_bytes@);
    G1Point::from_bytes(point_bytes)
}

/// Parse a G1 point from VK format (direct encoding: 64 bytes, x || y).
/// No validation: the Soroban host validates points when they are used.
fn read_vk_point(bytes: &[u8], idx: &mut usize) -> (p: G1Point)
    requires
        *old(idx) + 64 <= bytes.len(),
    ensures
        *final(idx) == *old(idx) + 64,
        p.bytes@ == bytes@.subrange(*old(idx) as int, *old(idx) + 64),
{
    let start = *idx;
    let mut point_bytes = [0u8; G1_POINT_SIZE];
    let mut i: usize = 0;
    while i < 64
        invariant
            start + 64 <= bytes.len(),
            i <= 64,
            forall|j: int| 0 <= j < i ==> point_bytes[j] == bytes@[start + j],
        decreases 64 - i,
    {
        point_bytes[i] = bytes[start + i];
        i = i + 1;
    }
    *idx = start + 64;
    assert(point_bytes@ =~= bytes@.subrange(start as int, start + 64));
    G1Point::from_bytes(point_bytes)
}

/// Read the next 32 bytes as an Fr.
fn bytes_to_fr(bytes: &[u8], cur: &mut usize) -> (f: Fr)
    requires
        *old(cur) + 32 <= bytes.len(),
    ensures
        *final(cur) == *old(cur) + 32,
        f@ == fr_at(bytes@, *old(cur) as int),
{
    let start = *cur;
    let mut arr = [0u8; 32];
    let mut i: usize = 0;
    while i < 32
        invariant
            start + 32 <= bytes.len(),
            i <= 32,
            forall|j: int| 0 <= j < i ==> arr[j] == bytes@[start + j],
        decreases 32 - i,
    {
        arr[i] = bytes[start + i];
        i = i + 1;
    }
    *cur = start + 32;
    assert(arr@ =~= bytes@.subrange(start as int, start + 32));
    bytes32_to_fr(&arr)
}

/// Read the next 8 bytes as a big-endian u64.
fn read_u64(bytes: &[u8], idx: &mut usize) -> (v: u64)
    requires
        *old(idx) + 8 <= bytes.len(),
    ensures
        *final(idx) == *old(idx) + 8,
        v == be_nat(bytes@.subrange(*old(idx) as int, *old(idx) + 8)),
{
    let start = *idx;
    let mut v: u64 = 0;
    let mut i: usize = 0;
    while i < 8
        invariant
            start + 8 <= bytes.len(),
            i <= 8,
            v == be_nat(bytes@.subrange(start as int, start + i)),
            v < pow256(i as nat),
        decreases 8 - i,
    {
        let ghost s = bytes@.subrange(start as int, start + i + 1);
        assert(s.drop_last() =~= bytes@.subrange(start as int, start + i));
        proof {
            lemma_pow256_values();
            crate::num::lemma_pow256_mono(i as nat, 7);
            assert(v * 256 + bytes@[start + i] < pow256(i as nat) * 256) by (nonlinear_arith)
                requires
                    v < pow256(i as nat),
                    bytes@[start + i] < 256,
            ;
            assert(pow256(i as nat) * 256 <= pow256(8));
        }
        v = v * 256 + bytes[start + i] as u64;
        i = i + 1;
    }
    *idx = start + 8;
    v
}


/// Load a VerificationKey from bytes: four big-endian u64 header words
/// (circuit size, log circuit size, public inputs size, public inputs
/// offset) and 27 points of 64 bytes each. `None` unless the length is
/// exactly that. No validation is performed: the Soroban host validates
/// points when they are used.
pub fn load_vk_from_bytes(bytes: &[u8]) -> (r: Option<VerificationKey>)
    ensures
        r is Some <==> bytes@.len() == VK_BYTES,
        r matches Some(vk) ==> {
            &&& vk.circuit_size == be_nat(bytes@.subrange(0, 8))
            &&& vk.log_circuit_size == be_nat(bytes@.subrange(8, 16))
            &&& vk.public_inputs_size == be_nat(bytes@.subrange(16, 24))
            &&& vk_points(vk).len() == 27
            &&& forall|k: int|
                0 <= k < 27 ==> (#[trigger] vk_points(vk)[k]).bytes@ == bytes@.subrange(
                    32 + 64 * k,
                    96 + 64 * k,
                )
        },
{
    if bytes.len() != VK_BYTES {
        return None;
    }
    let mut idx: usize = 0;
    let circuit_size = read_u64(bytes, &mut idx);
    let log_circuit_size = read_u64(bytes, &mut idx);
    let public_inputs_size = read_u64(bytes, &mut idx);
    let _pub_inputs_offset = read_u64(bytes, &mut idx);

    let qm = read_vk_point(bytes, &mut idx);
    let qc = read_vk_point(bytes, &mut idx);
    let ql = read_vk_point(bytes, &mut idx);
    let qr = read_vk_point(bytes, &mut idx);
    let qo = read_vk_point(bytes, &mut idx);
    let q4 = read_vk_point(bytes, &mut idx);
    let q_lookup = read_vk_point(bytes, &mut idx);
    let q_arith = read_vk_point(bytes, &mut idx);
    let q_delta_range = read_vk_point(bytes, &mut idx);
    let q_elliptic = read_vk_point(bytes, &mut idx);
    let q_aux = read_vk_point(bytes, &mut idx);
    let q_poseidon2_external = read_vk_point(bytes, &mut idx);
    let q_poseidon2_internal = read_vk_point(bytes, &mut idx);
    let s1 = read_vk_point(bytes, &mut idx);
    let s2 = read_vk_point(bytes, &mut idx);
    let s3 = read_vk_point(bytes, &mut idx);
    let s4 = read_vk_point(bytes, &mut idx);
    let id1 = read_vk_point(bytes, &mut idx);
    let id2 = read_vk_point(bytes, &mut idx);
    let id3 = read_vk_point(bytes, &mut idx);
    let id4 = read_vk_point(bytes, &mut idx);
    let t1 = read_vk_point(bytes, &mut idx);
    let t2 = read_vk_point(bytes, &mut idx);
    let t3 = read_vk_point(bytes, &mut idx);
    let t4 = read_vk_point(bytes, &mut idx);
    let lagrange_first = read_vk_point(bytes, &mut idx);
    let lagrange_last = read_vk_point(bytes, &mut idx);

    let vk = VerificationKey {
        circuit_size,
        log_circuit_size,
        public_inputs_size,
        qm,
        qc,
        ql,
        qr,
        qo,
        q4,
        q_lookup,
        q_arith,
        q_delta_range,
        q_elliptic,
        q_aux,
        q_poseidon2_external,
        q_poseidon2_internal,
        s1,
        s2,
        s3,
        s4,
        id1,
        id2,
        id3,
        id4,
        t1,
        t2,
        t3,
        t4,
        lagrange_first,
        lagrange_last,
    };
    assert(vk_points(vk).len() == 27);
    Some(vk)
}


/// Load a Proof from a byte array of exactly `PROOF_BYTES` bytes.
///
/// Field elements are 32-byte big-endian, reduced modulo `r`; G1 points are
/// encoded as two limbs per coordinate using the (lo136, hi<=118) split and
/// stored in the order (x_lo, x_hi, y_lo, y_hi). The layout is: 16 pairing
/// point elements; the points w1, w2, w3, lookup_read_counts,
/// lookup_read_tags, w4, lookup_inverses, z_perm; 28 rows of 8 sumcheck
/// univariate evaluations; 40 sumcheck evaluations; 27 Gemini fold
/// commitments; 28 Gemini evaluations; the points shplonk_q, kzg_quotient.
pub fn load_proof(proof_bytes: &[u8]) -> (p: Proof)
    requires
        proof_bytes@.len() == PROOF_BYTES,
    ensures
        forall|i: int|
            0 <= i < PAIRING_POINTS_SIZE ==> (#[trigger] p.pairing_point_object[i])@ == fr_at(
                proof_bytes@,
                32 * i,
            ),
        p.w1.bytes@ == proof_point_at(proof_bytes@, 512),
        p.w2.bytes@ == proof_point_at(proof_bytes@, 640),
        p.w3.bytes@ == proof_point_at(proof_bytes@, 768),
        p.lookup_read_counts.bytes@ == proof_point_at(proof_bytes@, 896),
        p.lookup_read_tags.bytes@ == proof_point_at(proof_bytes@, 1024),
        p.w4.bytes@ == proof_point_at(proof_bytes@, 1152),
        p.lookup_inverses.bytes@ == proof_point_at(proof_bytes@, 1280),
        p.z_perm.bytes@ == proof_point_at(proof_bytes@, 1408),
        forall|r: int, i: int|
            0 <= r < CONST_PROOF_SIZE_LOG_N && 0 <= i < BATCHED_RELATION_PARTIAL_LENGTH ==> (
            #[trigger] p.sumcheck_univariates[r][i])@ == fr_at(
                proof_bytes@,
                1536 + 256 * r + 32 * i,
            ),
        forall|i: int|
            0 <= i < NUMBER_OF_ENTITIES ==> (#[trigger] p.sumcheck_evaluations[i])@ == fr_at(
                proof_bytes@,
                8704 + 32 * i,
            ),
        forall|i: int|
            0 <= i < GEMINI_FOLD_COMMS_SIZE ==> (#[trigger] p.gemini_fold_comms[i]).bytes@
                == proof_point_at(proof_bytes@, 9984 + 128 * i),
        forall|i: int|
            0 <= i < CONST_PROOF_SIZE_LOG_N ==> (#[trigger] p.gemini_a_evaluations[i])@ == fr_at(
                proof_bytes@,
                13440 + 32 * i,
            ),
        p.shplonk_q.bytes@ == proof_point_at(proof_bytes@, 14336),
        p.kzg_quotient.bytes@ == proof_point_at(proof_bytes@, 14464),
{
    let ghost b = proof_bytes@;
    let mut boundary: usize = 0;

    // 0) pairing point object
    let mut pairing_point_object = [Fr::zero(); PAIRING_POINTS_SIZE];
    let mut i: usize = 0;
    while i < PAIRING_POINTS_SIZE
        invariant
            b == proof_bytes@,
            proof_bytes.len() == PROOF_BYTES,
            i <= PAIRING_POINTS_SIZE,
            boundary == 32 * i,
            forall|j: int| 0 <= j < i ==> (#[trigger] pairing_point_object[j])@ == fr_at(b, 32 * j),
        decreases PAIRING_POINTS_SIZE - i,
    {
        pairing_point_object[i] = bytes_to_fr(proof_bytes, &mut boundary);
        i = i + 1;
    }

    // 1) w1, w2, w3
    let w1 = bytes_to_g1_proof_point(proof_bytes, &mut boundary);
    let w2 = bytes_to_g1_proof_point(proof_bytes, &mut boundary);
    let w3 = bytes_to_g1_proof_point(proof_bytes, &mut boundary);

    // 2) lookup_read_counts, lookup_read_tags
    let lookup_read_counts = bytes_to_g1_proof_point(proof_bytes, &mut boundary);
    let lookup_read_tags = bytes_to_g1_proof_point(proof_bytes, &mut boundary);

    // 3) w4
    let w4 = bytes_to_g1_proof_point(proof_bytes, &mut boundary);

    // 4) lookup_inverses, z_perm
    let lookup_inverses = bytes_to_g1_proof_point(proof_bytes, &mut boundary);
    let z_perm = bytes_to_g1_proof_point(proof_bytes, &mut boundary);

    // 5) sumcheck_univariates
    let mut sumcheck_univariates = [[Fr::zero(); BATCHED_RELATION_PARTIAL_LENGTH];
        CONST_PROOF_SIZE_LOG_N];
    let mut r: usize = 0;
    while r < CONST_PROOF_SIZE_LOG_N
        invariant
            b == proof_bytes@,
            proof_bytes.len() == PROOF_BYTES,
            r <= CONST_PROOF_SIZE_LOG_N,
            boundary == 1536 + 256 * r,
            forall|q: int, j: int|
                0 <= q < r && 0 <= j < BATCHED_RELATION_PARTIAL_LENGTH ==> (
                #[trigger] sumcheck_univariates[q][j])@ == fr_at(b, 1536 + 256 * q + 32 * j),
        decreases CONST_PROOF_SIZE_LOG_N - r,
    {
        let mut row = [Fr::zero(); BATCHED_RELATION_PARTIAL_LENGTH];
        let mut k: usize = 0;
        while k < BATCHED_RELATION_PARTIAL_LENGTH
            invariant
                b == proof_bytes@,
                proof_bytes.len() == PROOF_BYTES,
                r < CONST_PROOF_SIZE_LOG_N,
                k <= BATCHED_RELATION_PARTIAL_LENGTH,
                boundary == 1536 + 256 * r + 32 * k,
                forall|j: int| 0 <= j < k ==> (#[trigger] row[j])@ == fr_at(b, 1536 + 256 * r + 32 * j),
            decreases BATCHED_RELATION_PARTIAL_LENGTH - k,
        {
            row[k] = bytes_to_fr(proof_bytes, &mut boundary);
            k = k + 1;
        }
        sumcheck_univariates[r] = row;
        r = r + 1;
    }

    // 6) sumcheck_evaluations
    let mut sumcheck_evaluations = [Fr::zero(); NUMBER_OF_ENTITIES];
    let mut i: usize = 0;
    while i < NUMBER_OF_ENTITIES
        invariant
            b == proof_bytes@,
            proof_bytes.len() == PROOF_BYTES,
            i <= NUMBER_OF_ENTITIES,
            boundary == 8704 + 32 * i,
            forall|j: int| 0 <= j < i ==> (#[trigger] sumcheck_evaluations[j])@ == fr_at(b, 8704 + 32 * j),
        decreases NUMBER_OF_ENTITIES - i,
    {
        sumcheck_evaluations[i] = bytes_to_fr(proof_bytes, &mut boundary);
        i = i + 1;
    }

    // 7) gemini_fold_comms
    let mut gemini_fold_comms = [G1Point::zero(); GEMINI_FOLD_COMMS_SIZE];
    let mut i: usize = 0;
    while i < GEMINI_FOLD_COMMS_SIZE
        invariant
            b == proof_bytes@,
            proof_bytes.len() == PROOF_BYTES,
            i <= GEMINI_FOLD_COMMS_SIZE,
            boundary == 9984 + 128 * i,
            forall|j: int| 0 <= j < i ==> (#[trigger] gemini_fold_comms[j]).bytes@ == proof_point_at(b, 9984 + 128 * j),
        decreases GEMINI_FOLD_COMMS_SIZE - i,
    {
        gemini_fold_comms[i] = bytes_to_g1_proof_point(proof_bytes, &mut boundary);
        i = i + 1;
    }

    // 8) gemini_a_evaluations
    let mut gemini_a_evaluations = [Fr::zero(); CONST_PROOF_SIZE_LOG_N];
    let mut i: usize = 0;
    while i < CONST_PROOF_SIZE_LOG_N
        invariant
            b == proof_bytes@,
            proof_bytes.len() == PROOF_BYTES,
            i <= CONST_PROOF_SIZE_LOG_N,
            boundary == 13440 + 32 * i,
            forall|j: int| 0 <= j < i ==> (#[trigger] gemini_a_evaluations[j])@ == fr_at(b, 13440 + 32 * j),
        decreases CONST_PROOF_SIZE_LOG_N - i,
    {
        gemini_a_evaluations[i] = bytes_to_fr(proof_bytes, &mut boundary);
        i = i + 1;
    }

    // 9) shplonk_q, kzg_quotient
    let shplonk_q = bytes_to_g1_proof_point(proof_bytes, &mut boundary);
    let kzg_quotient = bytes_to_g1_proof_point(proof_bytes, &mut boundary);

    Proof {
        pairing_point_object,
        w1,
        w2,
        w3,
        w4,
        lookup_read_counts,
        lookup_read_tags,
        lookup_inverses,
        z_perm,
        sumcheck_univariates,
        sumcheck_evaluations,
        gemini_fold_comms,
        gemini_a_evaluations,
        shplonk_q,
        kzg_quotient,
    }
}

} // verus!
