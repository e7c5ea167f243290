use ultrahonk_rust_verifier::error::VerifierError;
use ultrahonk_rust_verifier::types::{G1Point, Wire, G1_GENERATOR, NUMBER_OF_ALPHAS};

#[test]
fn wire_indices() {
    assert_eq!(Wire::Qm.index(), 0);
    assert_eq!(Wire::QPoseidon2Internal.index(), 12);
    assert_eq!(Wire::LagrangeLast.index(), 26);
    assert_eq!(Wire::Wl.index(), 27);
    assert_eq!(Wire::LookupReadTags.index(), 34);
    assert_eq!(Wire::WlShift.index(), 35);
    assert_eq!(Wire::ZPermShift.index(), 39);
    assert_eq!(NUMBER_OF_ALPHAS, 25);
}

#[test]
fn g1_point_coordinates() {
    let g = G1Point::from_bytes(G1_GENERATOR);
    let mut one = [0u8; 32];
    one[31] = 1;
    let mut two = [0u8; 32];
    two[31] = 2;
    assert_eq!(g.x_bytes(), one);
    assert_eq!(g.y_bytes(), two);
    let z = G1Point::zero();
    assert_eq!(z.bytes, [0u8; 64]);
    assert_eq!(z.x_bytes(), [0u8; 32]);
}

#[test]
fn error_codes_and_messages() {
    assert_eq!(VerifierError::SumcheckRoundFailed.code(), 100);
    assert_eq!(VerifierError::SumcheckFinalMismatch.code(), 102);
    assert_eq!(VerifierError::ShplonkDenomPosZero.code(), 200);
    assert_eq!(VerifierError::ShplonkPairingFailed.code(), 204);
    assert_eq!(VerifierError::PublicInputsNotAligned.code(), 300);
    assert_eq!(VerifierError::PublicInputDeltaDenomZero.code(), 303);
    assert_eq!(VerifierError::MsmLengthMismatch.code(), 400);
    assert_eq!(VerifierError::PointValidationFailed.code(), 403);
    assert_eq!(VerifierError::GeminiRZero.as_str(), "gemini_r zero");
    assert_eq!(VerifierError::MsmLengthMismatch.as_str(), "msm length mismatch");
    assert_eq!(VerifierError::HashBackendNotInitialized.as_str(), "hash backend not initialized");
}
