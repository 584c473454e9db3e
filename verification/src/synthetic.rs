//! Descriptions of the operands a benchmark runs on. The library decides
//! their shape, element type and contents; allocating and filling them on a
//! device is left to the caller.

use vstd::prelude::*;
use crate::tensor::{TensorDesc, TensorView};

verus! {

/// What a synthetic operand holds.
#[derive(Clone, Copy, Debug, PartialEq, Eq, Hash, Structural)]
pub enum Fill {
    /// Values drawn uniformly from `low` to `high`.
    Uniform { low: i32, high: i32 },
    /// A freshly allocated buffer for a candidate to write its result to; its
    /// contents do not matter.
    Fresh,
}

/// One operand to create for a benchmark.
#[derive(Debug)]
pub struct SyntheticOperand {
    /// Shape, strides and element type of the operand.
    pub desc: TensorDesc,
    /// Its contents.
    pub fill: Fill,
}

/// The mathematical content of a [`SyntheticOperand`].
pub struct SyntheticView {
    pub desc: TensorView,
    pub fill: Fill,
}

impl View for SyntheticOperand {
    type V = SyntheticView;

    open spec fn view(&self) -> SyntheticView {
        SyntheticView { desc: self.desc@, fill: self.fill }
    }
}

/// An operand shaped like `like` with uniformly random contents.
pub open spec fn uniform_like(like: TensorView, low: i32, high: i32) -> SyntheticView {
    SyntheticView { desc: like, fill: Fill::Uniform { low, high } }
}

/// A fresh output buffer shaped like `like`.
pub open spec fn fresh_like(like: TensorView) -> SyntheticView {
    SyntheticView { desc: like, fill: Fill::Fresh }
}

impl SyntheticOperand {
    /// Plans an operand shaped like `like`, filled with values drawn
    /// uniformly from `low` to `high`.
    pub fn random_like_uniform(like: &TensorDesc, low: i32, high: i32) -> (r: Self)
        ensures
            r@ == uniform_like(like@, low, high),
    {
        SyntheticOperand { desc: like.duplicate(), fill: Fill::Uniform { low, high } }
    }

    /// Plans a fresh output buffer shaped like `like`.
    pub fn empty_like(like: &TensorDesc) -> (r: Self)
        ensures
            r@ == fresh_like(like@),
    {
        SyntheticOperand { desc: like.duplicate(), fill: Fill::Fresh }
    }
}

} // verus!
