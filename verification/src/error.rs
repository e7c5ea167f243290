//! Error types for the UltraHonk verifier (no heap allocation).
use vstd::prelude::*;

verus! {

/// Error codes for verification failures.
///
/// Each error carries a numeric code (see [`VerifierError::code`]) grouped by
/// the stage that reports it: 100-199 sumcheck, 200-299 Shplemini/Shplonk,
/// 300-399 input validation, 400-499 EC/MSM.
#[derive(Debug, Clone, Copy, PartialEq, Eq, Structural)]
pub enum VerifierError {
    /// Sumcheck round failed: sum of univariate != target
    SumcheckRoundFailed,
    /// Sumcheck barycentric denominator is zero
    SumcheckDenomZero,
    /// Sumcheck final relation sum mismatch
    SumcheckFinalMismatch,
    /// Shplonk denominator (z - r^i) is zero
    ShplonkDenomPosZero,
    /// Shplonk denominator (z + r^i) is zero
    ShplonkDenomNegZero,
    /// Gemini r challenge is zero (cannot invert)
    GeminiRZero,
    /// Fold round denominator is zero
    FoldRoundDenomZero,
    /// Shplonk pairing check failed
    ShplonkPairingFailed,
    /// Public inputs must be 32-byte aligned
    PublicInputsNotAligned,
    /// VK public inputs size < 16 (pairing points)
    VkInputsTooSmall,
    /// Public inputs count mismatch
    PublicInputsMismatch,
    /// Public input delta denominator is zero
    PublicInputDeltaDenomZero,
    /// MSM length mismatch between points and scalars
    MsmLengthMismatch,
    /// Soroban EC backend not initialized
    EcBackendNotInitialized,
    /// Soroban hash backend not initialized
    HashBackendNotInitialized,
    /// Point validation failed
    PointValidationFailed,
}

/// The numeric code of each error.
pub open spec fn error_code(e: VerifierError) -> u32 {
    match e {
        VerifierError::SumcheckRoundFailed => 100,
        VerifierError::SumcheckDenomZero => 101,
        VerifierError::SumcheckFinalMismatch => 102,
        VerifierError::ShplonkDenomPosZero => 200,
        VerifierError::ShplonkDenomNegZero => 201,
        VerifierError::GeminiRZero => 202,
        VerifierError::FoldRoundDenomZero => 203,
        VerifierError::ShplonkPairingFailed => 204,
        VerifierError::PublicInputsNotAligned => 300,
        VerifierError::VkInputsTooSmall => 301,
        VerifierError::PublicInputsMismatch => 302,
        VerifierError::PublicInputDeltaDenomZero => 303,
        VerifierError::MsmLengthMismatch => 400,
        VerifierError::EcBackendNotInitialized => 401,
        VerifierError::HashBackendNotInitialized => 402,
        VerifierError::PointValidationFailed => 403,
    }
}

/// The short description of each error.
pub open spec fn error_message(e: VerifierError) -> Seq<char> {
    match e {
        VerifierError::SumcheckRoundFailed => "sumcheck round failed"@,
        VerifierError::SumcheckDenomZero => "sumcheck denom zero"@,
        VerifierError::SumcheckFinalMismatch => "sumcheck final mismatch"@,
        VerifierError::ShplonkDenomPosZero => "shplonk denom pos zero"@,
        VerifierError::ShplonkDenomNegZero => "shplonk denom neg zero"@,
        VerifierError::GeminiRZero => "gemini_r zero"@,
        VerifierError::FoldRoundDenomZero => "fold round denom zero"@,
        VerifierError::ShplonkPairingFailed => "shplonk pairing failed"@,
        VerifierError::PublicInputsNotAligned => "public inputs not aligned"@,
        VerifierError::VkInputsTooSmall => "vk inputs too small"@,
        VerifierError::PublicInputsMismatch => "public inputs mismatch"@,
        VerifierError::PublicInputDeltaDenomZero => "public input delta denom zero"@,
        VerifierError::MsmLengthMismatch => "msm length mismatch"@,
        VerifierError::EcBackendNotInitialized => "ec backend not initialized"@,
        VerifierError::HashBackendNotInitialized => "hash backend not initialized"@,
        VerifierError::PointValidationFailed => "point validation failed"@,
    }
}

impl VerifierError {
    /// Get a short description of the error (no allocation).
    pub fn as_str(&self) -> (s: &'static str)
        ensures
            s@ == error_message(*self),
    {
        match self {
            Self::SumcheckRoundFailed => "sumcheck round failed",
            Self::SumcheckDenomZero => "sumcheck denom zero",
            Self::SumcheckFinalMismatch => "sumcheck final mismatch",
            Self::ShplonkDenomPosZero => "shplonk denom pos zero",
            Self::ShplonkDenomNegZero => "shplonk denom neg zero",
            Self::GeminiRZero => "gemini_r zero",
            Self::FoldRoundDenomZero => "fold round denom zero",
            Self::ShplonkPairingFailed => "shplonk pairing failed",
            Self::PublicInputsNotAligned => "public inputs not aligned",
            Self::VkInputsTooSmall => "vk inputs too small",
            Self::PublicInputsMismatch => "public inputs mismatch",
            Self::PublicInputDeltaDenomZero => "public input delta denom zero",
            Self::MsmLengthMismatch => "msm length mismatch",
            Self::EcBackendNotInitialized => "ec backend not initialized",
            Self::HashBackendNotInitialized => "hash backend not initialized",
            Self::PointValidationFailed => "point validation failed",
        }
    }

    /// Get the numeric error code.
    pub fn code(&self) -> (c: u32)
        ensures
            c == error_code(*self),
    {
        match self {
            Self::SumcheckRoundFailed => 100,
            Self::SumcheckDenomZero => 101,
            Self::SumcheckFinalMismatch => 102,
            Self::ShplonkDenomPosZero => 200,
            Self::ShplonkDenomNegZero => 201,
            Self::GeminiRZero => 202,
            Self::FoldRoundDenomZero => 203,
            Self::ShplonkPairingFailed => 204,
            Self::PublicInputsNotAligned => 300,
            Self::VkInputsTooSmall => 301,
            Self::PublicInputsMismatch => 302,
            Self::PublicInputDeltaDenomZero => 303,
            Self::MsmLengthMismatch => 400,
            Self::EcBackendNotInitialized => 401,
            Self::HashBackendNotInitialized => 402,
            Self::PointValidationFailed => 403,
        }
    }
}

/// Distinct errors have distinct codes, and each code lies in the range of
/// its stage: sumcheck 100-199, Shplemini/Shplonk 200-299, input validation
/// 300-399, EC/MSM 400-499.
pub proof fn lemma_error_codes_distinct_and_grouped(a: VerifierError, b: VerifierError)
    ensures
        a != b ==> error_code(a) != error_code(b),
        100 <= error_code(a) < 500,
        (a is SumcheckRoundFailed || a is SumcheckDenomZero || a is SumcheckFinalMismatch)
            <==> (100 <= error_code(a) < 200),
        (a is ShplonkDenomPosZero || a is ShplonkDenomNegZero || a is GeminiRZero
            || a is FoldRoundDenomZero || a is ShplonkPairingFailed) <==> (200 <= error_code(a)
            < 300),
        (a is PublicInputsNotAligned || a is VkInputsTooSmall || a is PublicInputsMismatch
            || a is PublicInputDeltaDenomZero) <==> (300 <= error_code(a) < 400),
        (a is MsmLengthMismatch || a is EcBackendNotInitialized || a is HashBackendNotInitialized
            || a is PointValidationFailed) <==> (400 <= error_code(a) < 500),
{
}

} // verus!
