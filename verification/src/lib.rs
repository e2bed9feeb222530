//! Verified core of a CoreML binding: error codes, configuration values,
//! feature kinds, and the strided multi-array layout arithmetic.

pub mod blocking;
pub mod bridge;
pub mod callback_args;
pub mod configuration;
pub mod description;
pub mod error;
pub mod feature;
pub mod json;
pub mod ml_key;
pub mod model_error;
pub mod multi_array;
pub mod registry;
pub mod status;
pub mod text;
pub mod update;

pub use error::CoreMLError;
