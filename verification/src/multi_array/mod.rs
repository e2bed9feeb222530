//! Multi-array element types and strided storage layout.

pub mod by_index;
pub mod checks;
pub mod data_type;
pub mod extent;
pub mod index_math;
pub mod iteration;
pub mod layout;
pub mod round_trip;
pub mod storage;
