//! The cache key of a tunable operation.

use vstd::prelude::*;
use crate::conv_transpose2d::ConvTranspose2dAutotuneKey;
use crate::matmul::MatmulAutotuneKey;
use crate::reduce::{ReduceAutotuneKey, SumAutotuneKey};

verus! {

/// Key of one tunable operation: one case per operation family, each holding
/// what drives the performance of that family's kernels.
#[derive(Clone, Copy, Debug, PartialEq, Eq, Hash, Structural)]
pub enum CubeAutotuneKey {
    /// Key for reduce operations.
    Reduce(ReduceAutotuneKey),
    /// Key for sum operations.
    Sum(SumAutotuneKey),
    /// Key for matmul operations.
    Matmul(MatmulAutotuneKey),
    /// Key for transposed 2d convolutions.
    ConvTranspose2d(ConvTranspose2dAutotuneKey),
}

} // verus!
