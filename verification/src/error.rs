//! The failures of kernel selection.

use vstd::prelude::*;

verus! {

/// Why one candidate did not produce a result. The benchmark harness absorbs
/// these: a failed candidate merely drops out of the comparison.
#[derive(Clone, Copy, Debug, PartialEq, Eq, Hash, Structural)]
pub enum CandidateFailure {
    /// The candidate refused the input before launching, for instance because
    /// the launch geometry exceeds what the device allows.
    Declined,
    /// The candidate was launched and the device or driver reported an error.
    ExecutionFailure,
}

/// What a caller of the tuner can be told.
#[derive(Clone, Copy, Debug, PartialEq, Eq, Hash, Structural)]
pub enum TuneError {
    /// Every registered candidate declined or failed for the key.
    AllCandidatesFailed,
    /// The operation's parameters admit no key, for instance an axis index
    /// outside the tensor's rank.
    InvalidKeyParameters,
    /// The kernel that the call was dispatched to failed on the real
    /// operands.
    KernelFailed(CandidateFailure),
}

} // verus!
