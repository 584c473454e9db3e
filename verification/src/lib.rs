//! Runtime kernel selection for a tensor-compute backend.
//!
//! For each tunable operation family the crate derives a compact cache key
//! from the runtime shapes, describes the synthetic operands to benchmark
//! with, picks the fastest of the registered candidates and remembers that
//! decision per key and device.

pub mod anchor;
pub mod conv_transpose2d;
pub mod error;
pub mod matmul;
pub mod reduce;
pub mod synthetic;
pub mod tensor;
pub mod tune_key;
pub mod tuner;
