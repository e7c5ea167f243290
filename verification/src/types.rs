//! Data types of the verifier: the wire indices, G1 points, the verification
//! key, the proof and the transcript.
use crate::field::Fr;
use vstd::prelude::*;

verus! {

pub const CONST_PROOF_SIZE_LOG_N: usize = 28;

pub const NUMBER_OF_SUBRELATIONS: usize = 26;

pub const BATCHED_RELATION_PARTIAL_LENGTH: usize = 8;

pub const NUMBER_OF_ENTITIES: usize = 40;

pub const NUMBER_UNSHIFTED: usize = 35;

pub const NUMBER_TO_BE_SHIFTED: usize = 5;

pub const PAIRING_POINTS_SIZE: usize = 16;

pub const NUMBER_OF_ALPHAS: usize = NUMBER_OF_SUBRELATIONS - 1;

/// Number of Gemini fold commitments in a proof (one fewer than the rounds).
pub const GEMINI_FOLD_COMMS_SIZE: usize = CONST_PROOF_SIZE_LOG_N - 1;

/// G1 point size in bytes (x: 32 bytes, y: 32 bytes)
pub const G1_POINT_SIZE: usize = 64;

/// G2 point size in bytes (x: 64 bytes, y: 64 bytes for Fp2 coordinates)
pub const G2_POINT_SIZE: usize = 128;

/// BN254 G1 generator point (big-endian encoding): x = 1, y = 2.
pub const G1_GENERATOR: [u8; G1_POINT_SIZE] = [
    0x00, 0x00, 0x00, 0x00, 0x00, 0x00, 0x00, 0x00,
    0x00, 0x00, 0x00, 0x00, 0x00, 0x00, 0x00, 0x00,
    0x00, 0x00, 0x00, 0x00, 0x00, 0x00, 0x00, 0x00,
    0x00, 0x00, 0x00, 0x00, 0x00, 0x00, 0x00, 0x01,
    0x00, 0x00, 0x00, 0x00, 0x00, 0x00, 0x00, 0x00,
    0x00, 0x00, 0x00, 0x00, 0x00, 0x00, 0x00, 0x00,
    0x00, 0x00, 0x00, 0x00, 0x00, 0x00, 0x00, 0x00,
    0x00, 0x00, 0x00, 0x00, 0x00, 0x00, 0x00, 0x02,
];

/// Wire indices for the Ultra Honk protocol.
#[derive(Copy, Clone, Debug)]
pub enum Wire {
    Qm,
    Qc,
    Ql,
    Qr,
    Qo,
    Q4,
    QLookup,
    QArith,
    QRange,
    QElliptic,
    QAux,
    QPoseidon2External,
    QPoseidon2Internal,
    Sigma1,
    Sigma2,
    Sigma3,
    Sigma4,
    Id1,
    Id2,
    Id3,
    Id4,
    Table1,
    Table2,
    Table3,
    Table4,
    LagrangeFirst,
    LagrangeLast,
    Wl,
    Wr,
    Wo,
    W4,
    ZPerm,
    LookupInverses,
    LookupReadCounts,
    LookupReadTags,
    WlShift,
    WrShift,
    WoShift,
    W4Shift,
    ZPermShift,
}

/// The position of each wire among the proof's entities.
pub open spec fn wire_index(w: Wire) -> usize {
    match w {
        Wire::Qm => 0,
        Wire::Qc => 1,
        Wire::Ql => 2,
        Wire::Qr => 3,
        Wire::Qo => 4,
        Wire::Q4 => 5,
        Wire::QLookup => 6,
        Wire::QArith => 7,
        Wire::QRange => 8,
        Wire::QElliptic => 9,
        Wire::QAux => 10,
        Wire::QPoseidon2External => 11,
        Wire::QPoseidon2Internal => 12,
        Wire::Sigma1 => 13,
        Wire::Sigma2 => 14,
        Wire::Sigma3 => 15,
        Wire::Sigma4 => 16,
        Wire::Id1 => 17,
        Wire::Id2 => 18,
        Wire::Id3 => 19,
        Wire::Id4 => 20,
        Wire::Table1 => 21,
        Wire::Table2 => 22,
        Wire::Table3 => 23,
        Wire::Table4 => 24,
        Wire::LagrangeFirst => 25,
        Wire::LagrangeLast => 26,
        Wire::Wl => 27,
        Wire::Wr => 28,
        Wire::Wo => 29,
        Wire::W4 => 30,
        Wire::ZPerm => 31,
        Wire::LookupInverses => 32,
        Wire::LookupReadCounts => 33,
        Wire::LookupReadTags => 34,
        Wire::WlShift => 35,
        Wire::WrShift => 36,
        Wire::WoShift => 37,
        Wire::W4Shift => 38,
        Wire::ZPermShift => 39,
    }
}

impl Wire {
    /// The position of this wire among the proof's entities.
    pub fn index(&self) -> (i: usize)
        ensures
            i == wire_index(*self),
            i < NUMBER_OF_ENTITIES,
    {
        match self {
            Wire::Qm => 0,
            Wire::Qc => 1,
            Wire::Ql => 2,
            Wire::Qr => 3,
            Wire::Qo => 4,
            Wire::Q4 => 5,
            Wire::QLookup => 6,
            Wire::QArith => 7,
            Wire::QRange => 8,
            Wire::QElliptic => 9,
            Wire::QAux => 10,
            Wire::QPoseidon2External => 11,
            Wire::QPoseidon2Internal => 12,
            Wire::Sigma1 => 13,
            Wire::Sigma2 => 14,
            Wire::Sigma3 => 15,
            Wire::Sigma4 => 16,
            Wire::Id1 => 17,
            Wire::Id2 => 18,
            Wire::Id3 => 19,
            Wire::Id4 => 20,
            Wire::Table1 => 21,
            Wire::Table2 => 22,
            Wire::Table3 => 23,
            Wire::Table4 => 24,
            Wire::LagrangeFirst => 25,
            Wire::LagrangeLast => 26,
            Wire::Wl => 27,
            Wire::Wr => 28,
            Wire::Wo => 29,
            Wire::W4 => 30,
            Wire::ZPerm => 31,
            Wire::LookupInverses => 32,
            Wire::LookupReadCounts => 33,
            Wire::LookupReadTags => 34,
            Wire::WlShift => 35,
            Wire::WrShift => 36,
            Wire::WoShift => 37,
            Wire::W4Shift => 38,
            Wire::ZPermShift => 39,
        }
    }
}

/// Each wire's index is its fixed position in the proof's entity order:
/// selectors Qm..QPoseidon2Internal at 0..12, copy constraints Sigma1..Id4 at
/// 13..20, tables Table1..Table4 at 21..24, LagrangeFirst/LagrangeLast at
/// 25/26, witnesses Wl..LookupReadTags at 27..34, and the shifted wires
/// WlShift..ZPermShift at 35..39.
pub proof fn lemma_wire_positions()
    ensures
        wire_index(Wire::Qm) == 0,
        wire_index(Wire::Qc) == 1,
        wire_index(Wire::Ql) == 2,
        wire_index(Wire::Qr) == 3,
        wire_index(Wire::Qo) == 4,
        wire_index(Wire::Q4) == 5,
        wire_index(Wire::QLookup) == 6,
        wire_index(Wire::QArith) == 7,
        wire_index(Wire::QRange) == 8,
        wire_index(Wire::QElliptic) == 9,
        wire_index(Wire::QAux) == 10,
        wire_index(Wire::QPoseidon2External) == 11,
        wire_index(Wire::QPoseidon2Internal) == 12,
        wire_index(Wire::Sigma1) == 13,
        wire_index(Wire::Sigma2) == 14,
        wire_index(Wire::Sigma3) == 15,
        wire_index(Wire::Sigma4) == 16,
        wire_index(Wire::Id1) == 17,
        wire_index(Wire::Id2) == 18,
        wire_index(Wire::Id3) == 19,
        wire_index(Wire::Id4) == 20,
        wire_index(Wire::Table1) == 21,
        wire_index(Wire::Table2) == 22,
        wire_index(Wire::Table3) == 23,
        wire_index(Wire::Table4) == 24,
        wire_index(Wire::LagrangeFirst) == 25,
        wire_index(Wire::LagrangeLast) == 26,
        wire_index(Wire::Wl) == 27,
        wire_index(Wire::Wr) == 28,
        wire_index(Wire::Wo) == 29,
        wire_index(Wire::W4) == 30,
        wire_index(Wire::ZPerm) == 31,
        wire_index(Wire::LookupInverses) == 32,
        wire_index(Wire::LookupReadCounts) == 33,
        wire_index(Wire::LookupReadTags) == 34,
        wire_index(Wire::WlShift) == 35,
        wire_index(Wire::WrShift) == 36,
        wire_index(Wire::WoShift) == 37,
        wire_index(Wire::W4Shift) == 38,
        wire_index(Wire::ZPermShift) == 39,
{
}

/// Distinct wires have distinct indices, and the shifted wires come last.
pub proof fn lemma_wire_index_injective(a: Wire, b: Wire)
    ensures
        a != b ==> wire_index(a) != wire_index(b),
        wire_index(a) < NUMBER_OF_ENTITIES,
        (wire_index(a) >= NUMBER_UNSHIFTED) <==> (a is WlShift || a is WrShift || a is WoShift
            || a is W4Shift || a is ZPermShift),
{
}

/// A G1 point stored as 64 bytes (big-endian: x || y).
/// This is directly compatible with Soroban's Bn254G1Affine format.
#[derive(Clone, Copy, Debug)]
pub struct G1Point {
    pub bytes: [u8; G1_POINT_SIZE],
}

impl G1Point {
    /// Create a new G1Point from bytes
    pub fn from_bytes(bytes: [u8; G1_POINT_SIZE]) -> (p: Self)
        ensures
            p.bytes == bytes,
    {
        G1Point { bytes }
    }

    /// Create a zero/identity point (all zeros)
    pub fn zero() -> (p: Self)
        ensures
            forall|i: int| 0 <= i < G1_POINT_SIZE ==> p.bytes[i] == 0,
    {
        G1Point { bytes: [0u8; G1_POINT_SIZE] }
    }

    /// Get the X coordinate bytes (first 32 bytes)
    pub fn x_bytes(&self) -> (x: [u8; 32])
        ensures
            x@ == self.bytes@.subrange(0, 32),
    {
        let mut x = [0u8; 32];
        let mut i: usize = 0;
        while i < 32
            invariant
                i <= 32,
                forall|j: int| 0 <= j < i ==> x[j] == self.bytes[j],
            decreases 32 - i,
        {
            x[i] = self.bytes[i];
            i = i + 1;
        }
        assert(x@ =~= self.bytes@.subrange(0, 32));
        x
    }

    /// Get the Y coordinate bytes (last 32 bytes)
    pub fn y_bytes(&self) -> (y: [u8; 32])
        ensures
            y@ == self.bytes@.subrange(32, 64),
    {
        let mut y = [0u8; 32];
        let mut i: usize = 0;
        while i < 32
            invariant
                i <= 32,
                forall|j: int| 0 <= j < i ==> y[j] == self.bytes[32 + j],
            decreases 32 - i,
        {
            y[i] = self.bytes[32 + i];
            i = i + 1;
        }
        assert(y@ =~= self.bytes@.subrange(32, 64));
        y
    }
}

/// The verification key structure
#[derive(Clone, Debug)]
pub struct VerificationKey {
    pub circuit_size: u64,
    pub log_circuit_size: u64,
    pub public_inputs_size: u64,
    // Selectors and wire commitments:
    pub qm: G1Point,
    pub qc: G1Point,
    pub ql: G1Point,
    pub qr: G1Point,
    pub qo: G1Point,
    pub q4: G1Point,
    pub q_lookup: G1Point,
    pub q_arith: G1Point,
    pub q_delta_range: G1Point,
    pub q_elliptic: G1Point,
    pub q_aux: G1Point,
    pub q_poseidon2_external: G1Point,
    pub q_poseidon2_internal: G1Point,
    // Copy constraints:
    pub s1: G1Point,
    pub s2: G1Point,
    pub s3: G1Point,
    pub s4: G1Point,
    pub id1: G1Point,
    pub id2: G1Point,
    pub id3: G1Point,
    pub id4: G1Point,
    // Lookup table commitments:
    pub t1: G1Point,
    pub t2: G1Point,
    pub t3: G1Point,
    pub t4: G1Point,
    // Fixed first/last
    pub lagrange_first: G1Point,
    pub lagrange_last: G1Point,
}

/// The 27 commitments of a verification key, in the order of its encoding.
pub open spec fn vk_points(vk: VerificationKey) -> Seq<G1Point> {
    seq![
        vk.qm,
        vk.qc,
        vk.ql,
        vk.qr,
        vk.qo,
        vk.q4,
        vk.q_lookup,
        vk.q_arith,
        vk.q_delta_range,
        vk.q_elliptic,
        vk.q_aux,
        vk.q_poseidon2_external,
        vk.q_poseidon2_internal,
        vk.s1,
        vk.s2,
        vk.s3,
        vk.s4,
        vk.id1,
        vk.id2,
        vk.id3,
        vk.id4,
        vk.t1,
        vk.t2,
        vk.t3,
        vk.t4,
        vk.lagrange_first,
        vk.lagrange_last,
    ]
}

/// The Proof structure
#[derive(Clone, Debug)]
pub struct Proof {
    // Pairing point object (16 Fr elements)
    pub pairing_point_object: [Fr; PAIRING_POINTS_SIZE],
    // Wire commitments
    pub w1: G1Point,
    pub w2: G1Point,
    pub w3: G1Point,
    pub w4: G1Point,
    // Lookup helpers
    pub lookup_read_counts: G1Point,
    pub lookup_read_tags: G1Point,
    pub lookup_inverses: G1Point,
    pub z_perm: G1Point,
    // Sumcheck polynomials
    pub sumcheck_univariates: [[Fr; BATCHED_RELATION_PARTIAL_LENGTH]; CONST_PROOF_SIZE_LOG_N],
    pub sumcheck_evaluations: [Fr; NUMBER_OF_ENTITIES],
    // Gemini fold commitments
    pub gemini_fold_comms: [G1Point; GEMINI_FOLD_COMMS_SIZE],
    pub gemini_a_evaluations: [Fr; CONST_PROOF_SIZE_LOG_N],
    // Shplonk
    pub shplonk_q: G1Point,
    pub kzg_quotient: G1Point,
}

/// Relation parameters (eta, eta_two, eta_three, beta, gamma, public_inputs_delta).
#[derive(Clone, Debug)]
pub struct RelationParameters {
    pub eta: Fr,
    pub eta_two: Fr,
    pub eta_three: Fr,
    pub beta: Fr,
    pub gamma: Fr,
    pub public_inputs_delta: Fr,
}

/// The transcript holding all Fiat-Shamir challenges.
#[derive(Clone, Debug)]
pub struct Transcript {
    pub rel_params: RelationParameters,
    pub alphas: [Fr; NUMBER_OF_ALPHAS],
    pub gate_challenges: [Fr; CONST_PROOF_SIZE_LOG_N],
    pub sumcheck_u_challenges: [Fr; CONST_PROOF_SIZE_LOG_N],
    pub rho: Fr,
    pub gemini_r: Fr,
    pub shplonk_nu: Fr,
    pub shplonk_z: Fr,
}

} // verus!
