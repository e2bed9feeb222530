//! Errors produced by the CoreML bridge.

use vstd::prelude::*;

use crate::status;
use crate::text::{signed_decimal, signed_text};

verus! {

/// Top-level error type returned by this crate.
#[derive(Debug, Clone, PartialEq, Eq)]
#[non_exhaustive]
pub enum CoreMLError {
    /// Invalid input crossed the FFI boundary.
    InvalidArgument(String),
    /// Loading a compiled model failed.
    ModelLoadFailed(String),
    /// Running inference failed.
    PredictionFailed(String),
    /// Compiling a `.mlmodel` into `.mlmodelc` failed.
    CompilationFailed(String),
    /// Building or querying a feature provider failed.
    FeatureProviderFailed(String),
    /// Constructing or mutating an `MLMultiArray` failed.
    MultiArrayFailed(String),
    /// Creating or loading an `MLModelAsset` from in-memory bytes failed.
    ModelAssetFailed(String),
    /// The requested operation is unsupported on this system.
    Unsupported(String),
    /// An async CoreML bridge operation timed out.
    TimedOut(String),
    /// The requested indices are outside the array bounds.
    IndexOutOfRange(String),
    /// A value had the wrong CoreML type for the requested operation.
    TypeMismatch(String),
    /// Decoding a model description or structure snapshot failed.
    DescriptionFailed(String),
    /// Loading a compute plan failed.
    ComputePlanFailed(String),
    /// A model update task failed.
    UpdateFailed(String),
    /// A state buffer was unavailable.
    StateFailed(String),
    /// A custom layer registration or callback failed.
    CustomLayerFailed(String),
    /// A custom model registration or callback failed.
    CustomModelFailed(String),
    /// Catch-all for unmapped Swift / Objective-C errors.
    Unknown { code: i32, message: String },
}

/// The status code that an error reports.
pub open spec fn error_code(e: CoreMLError) -> i32 {
    match e {
        CoreMLError::InvalidArgument(_) => status::INVALID_ARGUMENT,
        CoreMLError::ModelLoadFailed(_) => status::MODEL_LOAD_FAILED,
        CoreMLError::PredictionFailed(_) => status::PREDICTION_FAILED,
        CoreMLError::CompilationFailed(_) => status::COMPILATION_FAILED,
        CoreMLError::FeatureProviderFailed(_) => status::FEATURE_PROVIDER_FAILED,
        CoreMLError::MultiArrayFailed(_) => status::MULTI_ARRAY_FAILED,
        CoreMLError::TypeMismatch(_) => status::MULTI_ARRAY_FAILED,
        CoreMLError::ModelAssetFailed(_) => status::MODEL_ASSET_FAILED,
        CoreMLError::Unsupported(_) => status::UNSUPPORTED,
        CoreMLError::TimedOut(_) => status::TIMED_OUT,
        CoreMLError::IndexOutOfRange(_) => status::INDEX_OUT_OF_RANGE,
        CoreMLError::DescriptionFailed(_) => status::DESCRIPTION_FAILED,
        CoreMLError::ComputePlanFailed(_) => status::COMPUTE_PLAN_FAILED,
        CoreMLError::UpdateFailed(_) => status::UPDATE_FAILED,
        CoreMLError::StateFailed(_) => status::STATE_FAILED,
        CoreMLError::CustomLayerFailed(_) => status::CUSTOM_LAYER_FAILED,
        CoreMLError::CustomModelFailed(_) => status::CUSTOM_MODEL_FAILED,
        CoreMLError::Unknown { code, .. } => code,
    }
}

/// The message an error carries, as the string it holds.
pub open spec fn message_string(e: CoreMLError) -> String {
    match e {
        CoreMLError::InvalidArgument(m) => m,
        CoreMLError::ModelLoadFailed(m) => m,
        CoreMLError::PredictionFailed(m) => m,
        CoreMLError::CompilationFailed(m) => m,
        CoreMLError::FeatureProviderFailed(m) => m,
        CoreMLError::MultiArrayFailed(m) => m,
        CoreMLError::ModelAssetFailed(m) => m,
        CoreMLError::Unsupported(m) => m,
        CoreMLError::TimedOut(m) => m,
        CoreMLError::IndexOutOfRange(m) => m,
        CoreMLError::TypeMismatch(m) => m,
        CoreMLError::DescriptionFailed(m) => m,
        CoreMLError::ComputePlanFailed(m) => m,
        CoreMLError::UpdateFailed(m) => m,
        CoreMLError::StateFailed(m) => m,
        CoreMLError::CustomLayerFailed(m) => m,
        CoreMLError::CustomModelFailed(m) => m,
        CoreMLError::Unknown { message, .. } => message,
    }
}

/// The human-readable text that an error carries.
pub open spec fn error_message(e: CoreMLError) -> Seq<char> {
    message_string(e)@
}

/// The error that a bridge status code and message decode to.
pub open spec fn status_error(status: i32, message: String) -> CoreMLError {
    if status == status::INVALID_ARGUMENT {
        CoreMLError::InvalidArgument(message)
    } else if status == status::MODEL_LOAD_FAILED {
        CoreMLError::ModelLoadFailed(message)
    } else if status == status::PREDICTION_FAILED {
        CoreMLError::PredictionFailed(message)
    } else if status == status::COMPILATION_FAILED {
        CoreMLError::CompilationFailed(message)
    } else if status == status::FEATURE_PROVIDER_FAILED {
        CoreMLError::FeatureProviderFailed(message)
    } else if status == status::MULTI_ARRAY_FAILED {
        CoreMLError::MultiArrayFailed(message)
    } else if status == status::MODEL_ASSET_FAILED {
        CoreMLError::ModelAssetFailed(message)
    } else if status == status::UNSUPPORTED {
        CoreMLError::Unsupported(message)
    } else if status == status::TIMED_OUT {
        CoreMLError::TimedOut(message)
    } else if status == status::INDEX_OUT_OF_RANGE {
        CoreMLError::IndexOutOfRange(message)
    } else {
        CoreMLError::Unknown { code: status, message }
    }
}

/// Whether `status_error` gives back an error of this variant for its own code.
pub open spec fn decodes_to_itself(e: CoreMLError) -> bool {
    match e {
        CoreMLError::TypeMismatch(_) => false,
        CoreMLError::DescriptionFailed(_) => false,
        CoreMLError::ComputePlanFailed(_) => false,
        CoreMLError::UpdateFailed(_) => false,
        CoreMLError::StateFailed(_) => false,
        CoreMLError::CustomLayerFailed(_) => false,
        CoreMLError::CustomModelFailed(_) => false,
        CoreMLError::Unknown { code, .. } => !(status::INDEX_OUT_OF_RANGE <= code <= status::INVALID_ARGUMENT),
        _ => true,
    }
}

/// Build a `CoreMLError` from a status code and message.
pub fn from_status_message(status: i32, message: String) -> (e: CoreMLError)
    ensures
        e == status_error(status, message),
{
    match status {
        status::INVALID_ARGUMENT => CoreMLError::InvalidArgument(message),
        status::MODEL_LOAD_FAILED => CoreMLError::ModelLoadFailed(message),
        status::PREDICTION_FAILED => CoreMLError::PredictionFailed(message),
        status::COMPILATION_FAILED => CoreMLError::CompilationFailed(message),
        status::FEATURE_PROVIDER_FAILED => CoreMLError::FeatureProviderFailed(message),
        status::MULTI_ARRAY_FAILED => CoreMLError::MultiArrayFailed(message),
        status::MODEL_ASSET_FAILED => CoreMLError::ModelAssetFailed(message),
        status::UNSUPPORTED => CoreMLError::Unsupported(message),
        status::TIMED_OUT => CoreMLError::TimedOut(message),
        status::INDEX_OUT_OF_RANGE => CoreMLError::IndexOutOfRange(message),
        code => CoreMLError::Unknown { code, message },
    }
}

/// Map a bridge status to `Ok(())` when it is `OK`, and to the error it decodes to otherwise.
pub fn status_ok(status: i32, fallback_message: &str) -> (r: Result<(), CoreMLError>)
    ensures
        status == status::OK ==> r is Ok,
        status != status::OK ==> (r matches Err(e) && e == status_error(status, message_string(e))
            && error_message(e) == fallback_message@),
{
    if status == status::OK {
        Ok(())
    } else {
        Err(from_status_message(status, fallback_message.to_owned()))
    }
}

/// Each kind of error reports the bridge status constant named after it, whatever its
/// message: the bridge's kinds decode from their own status and report it back; a type mismatch
/// reports the multi-array status; the kinds the bridge never sends report their own statuses;
/// and an unknown error reports the code it carries.
pub proof fn lemma_each_error_has_its_own_status(message: String, code: i32)
    ensures
        error_code(CoreMLError::InvalidArgument(message)) == status::INVALID_ARGUMENT,
        status_error(status::INVALID_ARGUMENT, message) == CoreMLError::InvalidArgument(message),
        error_code(CoreMLError::ModelLoadFailed(message)) == status::MODEL_LOAD_FAILED,
        status_error(status::MODEL_LOAD_FAILED, message) == CoreMLError::ModelLoadFailed(message),
        error_code(CoreMLError::PredictionFailed(message)) == status::PREDICTION_FAILED,
        status_error(status::PREDICTION_FAILED, message) == CoreMLError::PredictionFailed(message),
        error_code(CoreMLError::CompilationFailed(message)) == status::COMPILATION_FAILED,
        status_error(status::COMPILATION_FAILED, message) == CoreMLError::CompilationFailed(message),
        error_code(CoreMLError::FeatureProviderFailed(message)) == status::FEATURE_PROVIDER_FAILED,
        status_error(status::FEATURE_PROVIDER_FAILED, message) == CoreMLError::FeatureProviderFailed(message),
        error_code(CoreMLError::MultiArrayFailed(message)) == status::MULTI_ARRAY_FAILED,
        status_error(status::MULTI_ARRAY_FAILED, message) == CoreMLError::MultiArrayFailed(message),
        error_code(CoreMLError::ModelAssetFailed(message)) == status::MODEL_ASSET_FAILED,
        status_error(status::MODEL_ASSET_FAILED, message) == CoreMLError::ModelAssetFailed(message),
        error_code(CoreMLError::Unsupported(message)) == status::UNSUPPORTED,
        status_error(status::UNSUPPORTED, message) == CoreMLError::Unsupported(message),
        error_code(CoreMLError::TimedOut(message)) == status::TIMED_OUT,
        status_error(status::TIMED_OUT, message) == CoreMLError::TimedOut(message),
        error_code(CoreMLError::IndexOutOfRange(message)) == status::INDEX_OUT_OF_RANGE,
        status_error(status::INDEX_OUT_OF_RANGE, message) == CoreMLError::IndexOutOfRange(message),
        error_code(CoreMLError::TypeMismatch(message)) == status::MULTI_ARRAY_FAILED,
        error_code(CoreMLError::DescriptionFailed(message)) == status::DESCRIPTION_FAILED,
        error_code(CoreMLError::ComputePlanFailed(message)) == status::COMPUTE_PLAN_FAILED,
        error_code(CoreMLError::UpdateFailed(message)) == status::UPDATE_FAILED,
        error_code(CoreMLError::StateFailed(message)) == status::STATE_FAILED,
        error_code(CoreMLError::CustomLayerFailed(message)) == status::CUSTOM_LAYER_FAILED,
        error_code(CoreMLError::CustomModelFailed(message)) == status::CUSTOM_MODEL_FAILED,
        error_code(CoreMLError::Unknown { code, message }) == code,
{
}

/// The code of a decoded status error is the status itself, and its message is the one given.
pub proof fn lemma_status_error_keeps_code_and_message(status: i32, message: String)
    ensures
        error_code(status_error(status, message)) == status,
        error_message(status_error(status, message)) == message@,
{
}

/// Decoding an error's own code and message gives the error back, for every variant that
/// a status code can name on its own.
pub proof fn lemma_status_error_round_trip(e: CoreMLError)
    requires
        decodes_to_itself(e),
    ensures
        status_error(error_code(e), message_string(e)) == e,
{
}

impl CoreMLError {
    /// Numeric status code reported by the Swift bridge.
    pub fn code(&self) -> (code: i32)
        ensures
            code == error_code(*self),
    {
        match self {
            CoreMLError::InvalidArgument(_) => status::INVALID_ARGUMENT,
            CoreMLError::ModelLoadFailed(_) => status::MODEL_LOAD_FAILED,
            CoreMLError::PredictionFailed(_) => status::PREDICTION_FAILED,
            CoreMLError::CompilationFailed(_) => status::COMPILATION_FAILED,
            CoreMLError::FeatureProviderFailed(_) => status::FEATURE_PROVIDER_FAILED,
            CoreMLError::MultiArrayFailed(_) | CoreMLError::TypeMismatch(_) => status::MULTI_ARRAY_FAILED,
            CoreMLError::ModelAssetFailed(_) => status::MODEL_ASSET_FAILED,
            CoreMLError::Unsupported(_) => status::UNSUPPORTED,
            CoreMLError::TimedOut(_) => status::TIMED_OUT,
            CoreMLError::IndexOutOfRange(_) => status::INDEX_OUT_OF_RANGE,
            CoreMLError::DescriptionFailed(_) => status::DESCRIPTION_FAILED,
            CoreMLError::ComputePlanFailed(_) => status::COMPUTE_PLAN_FAILED,
            CoreMLError::UpdateFailed(_) => status::UPDATE_FAILED,
            CoreMLError::StateFailed(_) => status::STATE_FAILED,
            CoreMLError::CustomLayerFailed(_) => status::CUSTOM_LAYER_FAILED,
            CoreMLError::CustomModelFailed(_) => status::CUSTOM_MODEL_FAILED,
            CoreMLError::Unknown { code, .. } => *code,
        }
    }

    /// Human-readable description from Swift / Objective-C.
    pub fn message(&self) -> (message: &str)
        ensures
            message@ == error_message(*self),
    {
        match self {
            CoreMLError::InvalidArgument(message)
            | CoreMLError::ModelLoadFailed(message)
            | CoreMLError::PredictionFailed(message)
            | CoreMLError::CompilationFailed(message)
            | CoreMLError::FeatureProviderFailed(message)
            | CoreMLError::MultiArrayFailed(message)
            | CoreMLError::ModelAssetFailed(message)
            | CoreMLError::Unsupported(message)
            | CoreMLError::TimedOut(message)
            | CoreMLError::IndexOutOfRange(message)
            | CoreMLError::TypeMismatch(message)
            | CoreMLError::DescriptionFailed(message)
            | CoreMLError::ComputePlanFailed(message)
            | CoreMLError::UpdateFailed(message)
            | CoreMLError::StateFailed(message)
            | CoreMLError::CustomLayerFailed(message)
            | CoreMLError::CustomModelFailed(message)
            | CoreMLError::Unknown { message, .. } => message.as_str(),
        }
    }

    /// The error as it reads to a user: its message followed by its code, as in
    /// `"bad input (code -1)"`.
    pub fn display_text(&self) -> (text: String)
        ensures
            text@ == error_message(*self) + " (code "@ + signed_decimal(error_code(*self) as int)
                + ")"@,
    {
        let mut text = String::from_str(self.message());
        text.append(" (code ");
        let digits = signed_text(self.code() as i64);
        text.append(digits.as_str());
        text.append(")");
        text
    }
}

} // verus!
