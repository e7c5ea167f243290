use ultrahonk_rust_verifier::field::Fr;
use ultrahonk_rust_verifier::types::G1Point;
use ultrahonk_rust_verifier::utils::{
    bytes32_to_fr, bytes32_to_halves_be, bytes_to_g1_proof_point, load_proof, load_vk_from_bytes,
    recombine_split_limbs, VK_BYTES,
};
use ultrahonk_rust_verifier::PROOF_BYTES;

fn sample32(seed: u8) -> [u8; 32] {
    let mut b = [0u8; 32];
    for i in 0..32 {
        b[i] = seed.wrapping_mul(31).wrapping_add(i as u8 * 7);
    }
    b[0] &= 0x1f;
    b
}

#[test]
fn halves_split_at_bit_136() {
    let b = sample32(3);
    let (lo, hi) = bytes32_to_halves_be(&b);
    assert_eq!(&lo[..15], &[0u8; 15][..]);
    assert_eq!(&lo[15..], &b[15..]);
    assert_eq!(&hi[..17], &[0u8; 17][..]);
    assert_eq!(&hi[17..], &b[..15]);
}

#[test]
fn vk_wrong_length_is_none() {
    assert!(load_vk_from_bytes(&[]).is_none());
    assert!(load_vk_from_bytes(&vec![0u8; VK_BYTES - 1]).is_none());
    assert!(load_vk_from_bytes(&vec![0u8; VK_BYTES + 1]).is_none());
}

#[test]
fn vk_fields_are_read_in_order() {
    assert_eq!(VK_BYTES, 1760);
    let mut bytes = vec![0u8; VK_BYTES];
    bytes[..8].copy_from_slice(&1024u64.to_be_bytes());
    bytes[8..16].copy_from_slice(&10u64.to_be_bytes());
    bytes[16..24].copy_from_slice(&0x0102030405060708u64.to_be_bytes());
    bytes[24..32].copy_from_slice(&99u64.to_be_bytes());
    for k in 0..27 {
        for j in 0..64 {
            bytes[32 + 64 * k + j] = (k * 3 + j) as u8;
        }
    }
    let vk = load_vk_from_bytes(&bytes).unwrap();
    assert_eq!(vk.circuit_size, 1024);
    assert_eq!(vk.log_circuit_size, 10);
    assert_eq!(vk.public_inputs_size, 0x0102030405060708);
    let points: [&G1Point; 27] = [
        &vk.qm, &vk.qc, &vk.ql, &vk.qr, &vk.qo, &vk.q4, &vk.q_lookup, &vk.q_arith,
        &vk.q_delta_range, &vk.q_elliptic, &vk.q_aux, &vk.q_poseidon2_external,
        &vk.q_poseidon2_internal, &vk.s1, &vk.s2, &vk.s3, &vk.s4, &vk.id1, &vk.id2, &vk.id3,
        &vk.id4, &vk.t1, &vk.t2, &vk.t3, &vk.t4, &vk.lagrange_first, &vk.lagrange_last,
    ];
    for k in 0..27 {
        assert_eq!(&points[k].bytes[..], &bytes[32 + 64 * k..96 + 64 * k]);
    }
}

fn put_point(buf: &mut [u8], off: usize, x: &[u8; 32], y: &[u8; 32]) {
    let (xl, xh) = bytes32_to_halves_be(x);
    let (yl, yh) = bytes32_to_halves_be(y);
    buf[off..off + 32].copy_from_slice(&xl);
    buf[off + 32..off + 64].copy_from_slice(&xh);
    buf[off + 64..off + 96].copy_from_slice(&yl);
    buf[off + 96..off + 128].copy_from_slice(&yh);
}

fn point_bytes(x: &[u8; 32], y: &[u8; 32]) -> [u8; 64] {
    let mut b = [0u8; 64];
    b[..32].copy_from_slice(x);
    b[32..].copy_from_slice(y);
    b
}

#[test]
fn proof_layout_and_split_limbs_roundtrip() {
    assert_eq!(PROOF_BYTES, 14592);
    let mut buf = vec![0u8; PROOF_BYTES];
    // field elements: small distinct values at every 32-byte slot used for scalars
    let fr_slots: Vec<usize> = (0..16)
        .map(|i| 32 * i)
        .chain((0..224).map(|i| 1536 + 32 * i))
        .chain((0..40).map(|i| 8704 + 32 * i))
        .chain((0..28).map(|i| 13440 + 32 * i))
        .collect();
    for (n, off) in fr_slots.iter().enumerate() {
        buf[off + 30] = (n >> 8) as u8;
        buf[off + 31] = n as u8;
    }
    let point_offsets: Vec<usize> = (0..8)
        .map(|i| 512 + 128 * i)
        .chain((0..27).map(|i| 9984 + 128 * i))
        .chain([14336, 14464])
        .collect();
    for (n, off) in point_offsets.iter().enumerate() {
        put_point(&mut buf, *off, &sample32(n as u8), &sample32(n as u8 + 100));
    }
    let p = load_proof(&buf);
    let fr = |n: usize| Fr::from_u64(n as u64);
    for i in 0..16 {
        assert_eq!(p.pairing_point_object[i], fr(i));
    }
    for r in 0..28 {
        for i in 0..8 {
            assert_eq!(p.sumcheck_univariates[r][i], fr(16 + 8 * r + i));
        }
    }
    for i in 0..40 {
        assert_eq!(p.sumcheck_evaluations[i], fr(240 + i));
    }
    for i in 0..28 {
        assert_eq!(p.gemini_a_evaluations[i], fr(280 + i));
    }
    let pt = |n: usize| point_bytes(&sample32(n as u8), &sample32(n as u8 + 100));
    let named = [
        p.w1, p.w2, p.w3, p.lookup_read_counts, p.lookup_read_tags, p.w4, p.lookup_inverses,
        p.z_perm,
    ];
    for i in 0..8 {
        assert_eq!(named[i].bytes, pt(i));
    }
    for i in 0..27 {
        assert_eq!(p.gemini_fold_comms[i].bytes, pt(8 + i));
    }
    assert_eq!(p.shplonk_q.bytes, pt(35));
    assert_eq!(p.kzg_quotient.bytes, pt(36));
}

#[test]
fn proof_field_elements_reduce_modulo_r() {
    let mut buf = vec![0u8; PROOF_BYTES];
    // r + 5 in the first slot
    let r_plus_5: [u8; 32] = [
        0x30, 0x64, 0x4e, 0x72, 0xe1, 0x31, 0xa0, 0x29, 0xb8, 0x50, 0x45, 0xb6, 0x81, 0x81, 0x58,
        0x5d, 0x28, 0x33, 0xe8, 0x48, 0x79, 0xb9, 0x70, 0x91, 0x43, 0xe1, 0xf5, 0x93, 0xf0, 0x00,
        0x00, 0x06,
    ];
    buf[..32].copy_from_slice(&r_plus_5);
    let p = load_proof(&buf);
    assert_eq!(p.pairing_point_object[0], Fr::from_u64(5));
}


#[test]
fn recombine_inverts_halves() {
    for seed in 0..5u8 {
        let b = sample32(seed);
        let (lo, hi) = bytes32_to_halves_be(&b);
        assert_eq!(recombine_split_limbs(&lo, &hi), b);
    }
}

#[test]
fn g1_proof_point_reads_split_limbs() {
    let x = sample32(7);
    let y = sample32(9);
    let mut buf = vec![0xaau8; 5 + 128 + 3];
    put_point(&mut buf, 5, &x, &y);
    let mut cur = 5usize;
    let p = bytes_to_g1_proof_point(&buf, &mut cur);
    assert_eq!(cur, 133);
    assert_eq!(p.bytes, point_bytes(&x, &y));
}

#[test]
fn bytes32_to_fr_matches_from_bytes() {
    let b = [0xffu8; 32];
    assert_eq!(bytes32_to_fr(&b), Fr::from_bytes(&b));
    let b = sample32(4);
    assert_eq!(bytes32_to_fr(&b).to_bytes(), Fr::from_bytes(&b).to_bytes());
}
