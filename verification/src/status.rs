//! Numeric status codes exchanged with the Swift bridge.

use vstd::prelude::*;

verus! {

/// The call succeeded.
pub const OK: i32 = 0;
/// Invalid input crossed the bridge.
pub const INVALID_ARGUMENT: i32 = -1;
/// Loading a compiled model failed.
pub const MODEL_LOAD_FAILED: i32 = -2;
/// Running inference failed.
pub const PREDICTION_FAILED: i32 = -3;
/// Compiling a model failed.
pub const COMPILATION_FAILED: i32 = -4;
/// Building or querying a feature provider failed.
pub const FEATURE_PROVIDER_FAILED: i32 = -5;
/// Constructing or mutating a multi-array failed.
pub const MULTI_ARRAY_FAILED: i32 = -6;
/// The operation is unsupported on this system.
pub const UNSUPPORTED: i32 = -7;
/// A bridge operation timed out.
pub const TIMED_OUT: i32 = -8;
/// Creating or loading a model asset failed.
pub const MODEL_ASSET_FAILED: i32 = -9;
/// Indices were outside the array bounds.
pub const INDEX_OUT_OF_RANGE: i32 = -10;
/// Decoding a model description failed.
pub const DESCRIPTION_FAILED: i32 = -11;
/// Loading a compute plan failed.
pub const COMPUTE_PLAN_FAILED: i32 = -12;
/// A model update task failed.
pub const UPDATE_FAILED: i32 = -13;
/// A state buffer operation failed.
pub const STATE_FAILED: i32 = -14;
/// A custom layer callback failed.
pub const CUSTOM_LAYER_FAILED: i32 = -15;
/// A custom model callback failed.
pub const CUSTOM_MODEL_FAILED: i32 = -16;
/// Unclassified failure.
pub const UNKNOWN: i32 = -99;

} // verus!
