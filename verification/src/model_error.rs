//! CoreML framework error-domain constant and codes.

use vstd::prelude::*;

verus! {

/// Objective-C `MLModelErrorDomain` constant.
pub const ML_MODEL_ERROR_DOMAIN: &'static str = "com.apple.CoreML";

/// Framework-defined `MLModelError` codes.
#[derive(Debug, Clone, Copy, PartialEq, Eq, Hash, Structural)]
pub enum MLModelError {
    /// Unexpected framework-level failure.
    Generic,
    /// Wrong feature type supplied to a model input.
    FeatureType,
    /// File or transport I/O failure.
    Io,
    /// Custom-layer lookup or execution failure.
    CustomLayer,
    /// Custom-model lookup or execution failure.
    CustomModel,
    /// Updated-model save/write failure.
    Update,
    /// Unsupported parameter lookup/update failure.
    Parameters,
    /// Model decryption key fetch failure.
    ModelDecryptionKeyFetch,
    /// Model decryption failure.
    ModelDecryption,
    /// Model-collection deployment failure.
    ModelCollection,
    /// Prediction cancelled before completion.
    PredictionCancelled,
}

/// The numeric `NSError` code CoreML publishes for an error kind.
pub open spec fn ml_model_error_code(e: MLModelError) -> i32 {
    match e {
        MLModelError::Generic => 0,
        MLModelError::FeatureType => 1,
        MLModelError::Io => 3,
        MLModelError::CustomLayer => 4,
        MLModelError::CustomModel => 5,
        MLModelError::Update => 6,
        MLModelError::Parameters => 7,
        MLModelError::ModelDecryptionKeyFetch => 8,
        MLModelError::ModelDecryption => 9,
        MLModelError::ModelCollection => 10,
        MLModelError::PredictionCancelled => 11,
    }
}

impl MLModelError {
    /// The known error kind with this numeric `NSError` code, if any: codes `0..=11` except `2`.
    pub fn from_code(code: i32) -> (e: Option<MLModelError>)
        ensures
            e is Some <==> (0 <= code <= 11 && code != 2),
            e matches Some(k) ==> ml_model_error_code(k) == code,
    {
        match code {
            0 => Some(MLModelError::Generic),
            1 => Some(MLModelError::FeatureType),
            3 => Some(MLModelError::Io),
            4 => Some(MLModelError::CustomLayer),
            5 => Some(MLModelError::CustomModel),
            6 => Some(MLModelError::Update),
            7 => Some(MLModelError::Parameters),
            8 => Some(MLModelError::ModelDecryptionKeyFetch),
            9 => Some(MLModelError::ModelDecryption),
            10 => Some(MLModelError::ModelCollection),
            11 => Some(MLModelError::PredictionCancelled),
            _ => None,
        }
    }

    /// Numeric `NSError` code published by CoreML.
    pub fn code(self) -> (code: i32)
        ensures
            code == ml_model_error_code(self),
    {
        match self {
            MLModelError::Generic => 0,
            MLModelError::FeatureType => 1,
            MLModelError::Io => 3,
            MLModelError::CustomLayer => 4,
            MLModelError::CustomModel => 5,
            MLModelError::Update => 6,
            MLModelError::Parameters => 7,
            MLModelError::ModelDecryptionKeyFetch => 8,
            MLModelError::ModelDecryption => 9,
            MLModelError::ModelCollection => 10,
            MLModelError::PredictionCancelled => 11,
        }
    }
}

/// Each error kind's code is the value CoreML publishes for the `MLModelError` case of that
/// name: `generic` 0, `featureType` 1, `io` 3, `customLayer` 4, `customModel` 5, `update` 6,
/// `parameters` 7, `modelDecryptionKeyFetch` 8, `modelDecryption` 9, `modelCollection` 10 and
/// `predictionCancelled` 11; no case has code 2.
pub proof fn lemma_ml_model_error_codes_are_published_values(e: MLModelError)
    ensures
        e == MLModelError::Generic <==> ml_model_error_code(e) == 0,
        e == MLModelError::FeatureType <==> ml_model_error_code(e) == 1,
        e == MLModelError::Io <==> ml_model_error_code(e) == 3,
        e == MLModelError::CustomLayer <==> ml_model_error_code(e) == 4,
        e == MLModelError::CustomModel <==> ml_model_error_code(e) == 5,
        e == MLModelError::Update <==> ml_model_error_code(e) == 6,
        e == MLModelError::Parameters <==> ml_model_error_code(e) == 7,
        e == MLModelError::ModelDecryptionKeyFetch <==> ml_model_error_code(e) == 8,
        e == MLModelError::ModelDecryption <==> ml_model_error_code(e) == 9,
        e == MLModelError::ModelCollection <==> ml_model_error_code(e) == 10,
        e == MLModelError::PredictionCancelled <==> ml_model_error_code(e) == 11,
{
}

/// Every error kind is found again from its own code, and distinct kinds have distinct codes.
pub proof fn lemma_ml_model_error_code_round_trip(e: MLModelError, f: MLModelError)
    ensures
        0 <= ml_model_error_code(e) <= 11,
        ml_model_error_code(e) != 2,
        ml_model_error_code(e) == ml_model_error_code(f) ==> e == f,
{
}

} // verus!
