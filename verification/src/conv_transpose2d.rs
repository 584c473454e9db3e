//! Tuning of transposed two-dimensional convolutions.

use vstd::prelude::*;
use crate::anchor::{anchor, anchored, bucket};
use crate::error::{CandidateFailure, TuneError};
use crate::synthetic::{Fill, SyntheticOperand, SyntheticView};
use crate::tensor::{
    is_row_major, lemma_single_axis_fits, suffixes_fit, DType, TensorDesc, TensorView,
};
use crate::tune_key::CubeAutotuneKey;
use crate::tuner::{
    lemma_executed_weakens, plans_of, tuned, CubeTuneId, Decision, Execution, Outcome, Slot, Tuner,
};

verus! {

/// A pair of sizes, one for the height axis and one for the width axis.
#[derive(Clone, Copy, Debug, PartialEq, Eq, Hash, Structural)]
pub struct Size2 {
    pub h: usize,
    pub w: usize,
}

/// Structural parameters of a transposed two-dimensional convolution.
#[derive(Clone, Copy, Debug, PartialEq, Eq, Hash, Structural)]
pub struct ConvTransposeOptions {
    /// Stride (non-zero).
    pub stride: Size2,
    /// Padding.
    pub padding: Size2,
    /// Padding out.
    pub padding_out: Size2,
    /// Dilation (non-zero).
    pub dilation: Size2,
    /// Groups (non-zero).
    pub groups: usize,
}

/// Autotune key representative of transposed 2d convolution versions.
#[derive(Clone, Copy, Debug, PartialEq, Eq, Hash, Structural)]
pub struct ConvTranspose2dAutotuneKey {
    pub kernel_size: Size2,
    pub stride: Size2,
    pub padding: Size2,
    pub padding_out: Size2,
    pub dilation: Size2,
    pub groups: usize,
    /// Anchored number of input channels.
    pub in_channels: usize,
    /// Anchored number of output channels.
    pub out_channels: usize,
    /// Anchored input height.
    pub height: usize,
    /// Anchored input width.
    pub width: usize,
    /// Anchored batch size.
    pub batch_size: usize,
    pub has_bias: bool,
    pub dtype: DType,
}

impl ConvTranspose2dAutotuneKey {
    /// The key that `new` builds from unanchored values.
    pub open spec fn anchoring(
        kernel_size: Size2,
        stride: Size2,
        padding: Size2,
        padding_out: Size2,
        dilation: Size2,
        groups: usize,
        in_channels: usize,
        out_channels: usize,
        height: usize,
        width: usize,
        batch_size: usize,
        has_bias: bool,
        dtype: DType,
    ) -> Self {
        ConvTranspose2dAutotuneKey {
            kernel_size,
            stride,
            padding,
            padding_out,
            dilation,
            groups,
            in_channels: anchored(in_channels as nat, None, None) as usize,
            out_channels: anchored(out_channels as nat, None, None) as usize,
            height: anchored(height as nat, None, None) as usize,
            width: anchored(width as nat, None, None) as usize,
            batch_size: anchored(batch_size as nat, None, None) as usize,
            has_bias,
            dtype,
        }
    }

    /// Whether the operands have a key: input and weights have four axes.
    pub open spec fn admits(input: TensorView, weights: TensorView) -> bool {
        input.dims.len() == 4 && weights.dims.len() == 4
    }

    /// The key of a transposed convolution of `input` (batch, channels,
    /// height, width) with `weights` (output channels, channels per group,
    /// kernel height, kernel width).
    pub open spec fn of(
        input: TensorView,
        weights: TensorView,
        has_bias: bool,
        options: ConvTransposeOptions,
        dtype: DType,
    ) -> Self {
        Self::anchoring(
            Size2 { h: weights.dims[2], w: weights.dims[3] },
            options.stride,
            options.padding,
            options.padding_out,
            options.dilation,
            options.groups,
            input.dims[1],
            weights.dims[0],
            input.dims[2],
            input.dims[3],
            input.dims[0],
            has_bias,
            dtype,
        )
    }

    /// Shape of the synthetic input: batch, channels, height, width.
    pub open spec fn input_shape(self) -> Seq<usize> {
        seq![self.batch_size, self.in_channels, self.height, self.width]
    }

    /// Shape of the synthetic weights: output channels, channels per group,
    /// kernel height, kernel width.
    pub open spec fn weight_shape(self) -> Seq<usize> {
        seq![
            self.out_channels,
            (self.in_channels / self.groups) as usize,
            self.kernel_size.h,
            self.kernel_size.w,
        ]
    }

    /// Shape of the synthetic bias: one value per output channel.
    pub open spec fn bias_shape(self) -> Seq<usize> {
        seq![self.out_channels]
    }

    /// Whether synthetic operands can be laid out for the key: the group
    /// count is not zero and the layouts of input and weights fit the machine
    /// word.
    pub open spec fn plannable(self) -> bool {
        &&& self.groups != 0
        &&& suffixes_fit(self.input_shape())
        &&& suffixes_fit(self.weight_shape())
    }

    /// Builds a key, anchoring the channel counts, the height, the width and
    /// the batch size.
    pub fn new(
        kernel_size: Size2,
        stride: Size2,
        padding: Size2,
        padding_out: Size2,
        dilation: Size2,
        groups: usize,
        in_channels: usize,
        out_channels: usize,
        height: usize,
        width: usize,
        batch_size: usize,
        has_bias: bool,
        dtype: DType,
    ) -> (key: Self)
        ensures
            key == Self::anchoring(
                kernel_size,
                stride,
                padding,
                padding_out,
                dilation,
                groups,
                in_channels,
                out_channels,
                height,
                width,
                batch_size,
                has_bias,
                dtype,
            ),
    {
        ConvTranspose2dAutotuneKey {
            kernel_size,
            stride,
            padding,
            padding_out,
            dilation,
            groups,
            in_channels: anchor(in_channels, None, None),
            out_channels: anchor(out_channels, None, None),
            height: anchor(height, None, None),
            width: anchor(width, None, None),
            batch_size: anchor(batch_size, None, None),
            has_bias,
            dtype,
        }
    }
}

/// The key of a transposed convolution, or the rejection of operands that
/// have none.
pub open spec fn conv_transpose2d_key(
    input: TensorView,
    weights: TensorView,
    has_bias: bool,
    options: ConvTransposeOptions,
    dtype: DType,
) -> Result<CubeAutotuneKey, TuneError> {
    if ConvTranspose2dAutotuneKey::admits(input, weights) {
        Ok(
            CubeAutotuneKey::ConvTranspose2d(
                ConvTranspose2dAutotuneKey::of(input, weights, has_bias, options, dtype),
            ),
        )
    } else {
        Err(TuneError::InvalidKeyParameters)
    }
}

/// The key of a transposed convolution, from the shapes of input and weights,
/// the presence of a bias, the structural options and the element type.
/// Operands that do not have four axes are rejected.
pub fn create_key(
    input: &TensorDesc,
    weights: &TensorDesc,
    bias: &Option<TensorDesc>,
    options: &ConvTransposeOptions,
    dtype: DType,
) -> (r: Result<CubeAutotuneKey, TuneError>)
    ensures
        r == conv_transpose2d_key(input@, weights@, bias is Some, *options, dtype),
{
    if input.dims.len() != 4 || weights.dims.len() != 4 {
        return Err(TuneError::InvalidKeyParameters);
    }
    let batch_size: usize = input.dims[0];
    let in_channels: usize = input.dims[1];
    let height: usize = input.dims[2];
    let width: usize = input.dims[3];
    let out_channels: usize = weights.dims[0];
    let kernel_h: usize = weights.dims[2];
    let kernel_w: usize = weights.dims[3];
    Ok(
        CubeAutotuneKey::ConvTranspose2d(
            ConvTranspose2dAutotuneKey::new(
                Size2 { h: kernel_h, w: kernel_w },
                options.stride,
                options.padding,
                options.padding_out,
                options.dilation,
                options.groups,
                in_channels,
                out_channels,
                height,
                width,
                batch_size,
                bias.is_some(),
                dtype,
            ),
        ),
    )
}

/// Whether `v` is a densely packed operand of the given element type and
/// shape, filled with values from -1 to 1.
pub open spec fn is_dense_uniform(v: SyntheticView, dtype: DType, dims: Seq<usize>) -> bool {
    &&& v.desc.dtype == dtype
    &&& v.desc.dims == dims
    &&& is_row_major(dims, v.desc.strides)
    &&& v.fill == (Fill::Uniform { low: -1i32, high: 1i32 })
}

/// The operands of a transposed convolution: input, weights, optional bias
/// and the structural options.
pub struct ConvTranspose2dInputs {
    pub input: SyntheticOperand,
    pub weights: SyntheticOperand,
    pub bias: Option<SyntheticOperand>,
    pub options: ConvTransposeOptions,
}

/// Whether `plan` is what a transposed convolution with key `k` is
/// benchmarked on. The shapes come from the key alone, a bias is present
/// exactly when the key records one, every operand is densely packed and
/// filled with values from -1 to 1, and the options are the call's.
pub open spec fn is_transpose2d_plan(
    plan: ConvTranspose2dInputs,
    k: ConvTranspose2dAutotuneKey,
    options: ConvTransposeOptions,
) -> bool {
    &&& is_dense_uniform(plan.input@, k.dtype, k.input_shape())
    &&& is_dense_uniform(plan.weights@, k.dtype, k.weight_shape())
    &&& plan.bias is Some <==> k.has_bias
    &&& plan.bias matches Some(b) ==> is_dense_uniform(b@, k.dtype, k.bias_shape())
    &&& plan.options == options
}

/// Plans the operands a transposed convolution is benchmarked on. Their
/// shapes come from the key alone: the input is batch by channels by height by
/// width, the weights are output channels by channels per group by the kernel
/// size, and a bias of one value per output channel is present exactly when
/// the key records one. All are filled with values from -1 to 1. The options
/// are handed on. A key of another operation family, one with no groups, or one
/// whose shapes cannot be laid out is rejected.
pub fn create_transpose2d_input(
    key: &CubeAutotuneKey,
    _input: &TensorDesc,
    _weights: &TensorDesc,
    _bias: &Option<TensorDesc>,
    options: &ConvTransposeOptions,
) -> (r: Result<ConvTranspose2dInputs, TuneError>)
    ensures
        r is Ok <==> (key matches CubeAutotuneKey::ConvTranspose2d(k) && k.plannable()),
        r matches Err(e) ==> e == TuneError::InvalidKeyParameters,
        r matches Ok(plan) ==> {
            &&& key matches CubeAutotuneKey::ConvTranspose2d(k)
            &&& is_transpose2d_plan(plan, *k, *options)
        },
{
    let key = match key {
        CubeAutotuneKey::ConvTranspose2d(key) => key,
        _ => {
            return Err(TuneError::InvalidKeyParameters);
        },
    };
    if key.groups == 0 {
        return Err(TuneError::InvalidKeyParameters);
    }
    let uniform = Fill::Uniform { low: -1i32, high: 1i32 };
    let input_shape: Vec<usize> = vec![key.batch_size, key.in_channels, key.height, key.width];
    let c_per_grp: usize = key.in_channels / key.groups;
    let kernel_h: usize = key.kernel_size.h;
    let kernel_w: usize = key.kernel_size.w;
    let weight_shape: Vec<usize> = vec![key.out_channels, c_per_grp, kernel_h, kernel_w];
    let bias_shape: Vec<usize> = vec![key.out_channels];
    let input = match TensorDesc::contiguous(key.dtype, input_shape) {
        Some(desc) => SyntheticOperand { desc, fill: uniform },
        None => {
            return Err(TuneError::InvalidKeyParameters);
        },
    };
    let weights = match TensorDesc::contiguous(key.dtype, weight_shape) {
        Some(desc) => SyntheticOperand { desc, fill: uniform },
        None => {
            return Err(TuneError::InvalidKeyParameters);
        },
    };
    let mut bias: Option<SyntheticOperand> = None;
    if key.has_bias {
        proof {
            lemma_single_axis_fits(key.out_channels);
            assert(bias_shape@ =~= key.bias_shape());
        }
        match TensorDesc::contiguous(key.dtype, bias_shape) {
            Some(desc) => {
                bias = Some(SyntheticOperand { desc, fill: uniform });
            },
            None => {
                return Err(TuneError::InvalidKeyParameters);
            },
        }
    }
    Ok(ConvTranspose2dInputs { input, weights, bias, options: *options })
}

/// The candidate kernels of a transposed convolution, in registration order.
#[derive(Clone, Copy, Debug, PartialEq, Eq, Hash, Structural)]
pub enum ConvTranspose2dCandidate {
    /// The direct kernel.
    Direct,
    /// Matrix multiplication followed by col2im.
    Col2Im,
}

/// The registered candidates of a transposed convolution.
pub open spec fn conv_transpose2d_registry() -> Seq<ConvTranspose2dCandidate> {
    seq![ConvTranspose2dCandidate::Direct, ConvTranspose2dCandidate::Col2Im]
}

/// The candidates of a transposed convolution in registration order.
pub fn conv_transpose2d_candidates() -> (r: Vec<ConvTranspose2dCandidate>)
    ensures
        r@ == conv_transpose2d_registry(),
{
    let mut r: Vec<ConvTranspose2dCandidate> = Vec::new();
    r.push(ConvTranspose2dCandidate::Direct);
    r.push(ConvTranspose2dCandidate::Col2Im);
    r
}

/// Whether planning the transposed convolution of the given operands gave
/// `p`: the plan of their key where operands can be laid out for it, and the
/// rejection of the parameters where they cannot.
pub open spec fn conv_planned(
    p: Result<ConvTranspose2dInputs, TuneError>,
    input: TensorView,
    weights: TensorView,
    has_bias: bool,
    options: ConvTransposeOptions,
    dtype: DType,
) -> bool {
    let k = ConvTranspose2dAutotuneKey::of(input, weights, has_bias, options, dtype);
    match p {
        Ok(plan) => k.plannable() && is_transpose2d_plan(plan, k, options),
        Err(e) => !k.plannable() && e == TuneError::InvalidKeyParameters,
    }
}

/// What planning the transposed convolution of the given operands may give.
pub open spec fn conv_plans(
    input: TensorView,
    weights: TensorView,
    has_bias: bool,
    options: ConvTransposeOptions,
    dtype: DType,
) -> spec_fn(Result<ConvTranspose2dInputs, TuneError>) -> bool {
    |p: Result<ConvTranspose2dInputs, TuneError>|
        conv_planned(p, input, weights, has_bias, options, dtype)
}

/// An empty cache for transposed convolutions.
pub fn conv_transpose2d_tuner() -> (t: Tuner)
    ensures
        t.wf(),
        t@ == Map::<Slot, Decision>::empty(),
        t.registered() == conv_transpose2d_registry().len(),
{
    Tuner::new(2)
}

/// Executes autotune on transposed 2d convolutions. The direct kernel and the
/// col2im kernel compete on synthetic operands the first time the key is seen
/// in scope `id`, and `run` applies the winner to the real operands.
pub fn conv_transpose2d_autotune<T, B, R>(
    tuner: &mut Tuner,
    id: &CubeTuneId,
    input: &TensorDesc,
    weights: &TensorDesc,
    bias: &Option<TensorDesc>,
    options: &ConvTransposeOptions,
    dtype: DType,
    bench: &B,
    run: R,
) -> (r: Result<Execution<T>, TuneError>) where
    B: Fn(ConvTranspose2dCandidate, &ConvTranspose2dInputs) -> Outcome,
    R: FnOnce(ConvTranspose2dCandidate) -> Result<T, CandidateFailure>,

    requires
        old(tuner).wf(),
        old(tuner).registered() == conv_transpose2d_registry().len(),
        forall|i: int, plan: ConvTranspose2dInputs|
            0 <= i < conv_transpose2d_registry().len() && conv_planned(
                Ok(plan),
                input@,
                weights@,
                bias is Some,
                *options,
                dtype,
            ) ==> #[trigger] call_requires(*bench, (conv_transpose2d_registry()[i], &plan)),
        forall|i: int|
            0 <= i < conv_transpose2d_registry().len() ==> call_requires(
                run,
                (#[trigger] conv_transpose2d_registry()[i],),
            ),
    ensures
        final(tuner).wf(),
        final(tuner).registered() == old(tuner).registered(),
        tuned(
            old(tuner)@,
            final(tuner)@,
            *id,
            conv_transpose2d_key(input@, weights@, bias is Some, *options, dtype),
            conv_transpose2d_registry(),
            conv_plans(input@, weights@, bias is Some, *options, dtype),
            *bench,
            run,
            r,
        ),
{
    match create_key(input, weights, bias, options, dtype) {
        Err(e) => Err(e),
        Ok(key) => {
            let candidates = conv_transpose2d_candidates();
            let plan = || -> (p: Result<ConvTranspose2dInputs, TuneError>)
                ensures
                    conv_planned(p, input@, weights@, bias is Some, *options, dtype),
                { create_transpose2d_input(&key, input, weights, bias, options) };
            let ghost before = tuner@;
            let ghost plans = plans_of(plan);
            let ghost ran = run;
            let r = tuner.execute(id, &key, &candidates, plan, bench, run);
            proof {
                lemma_executed_weakens(
                    before,
                    tuner@,
                    (*id, key),
                    candidates@,
                    plans,
                    conv_plans(input@, weights@, bias is Some, *options, dtype),
                    *bench,
                    ran,
                    r,
                );
            }
            r
        },
    }
}

/// Key building is a function of the parameters: operands with the same
/// shapes, the same options and the same element type have the same key.
pub proof fn lemma_conv_key_deterministic(
    input_a: TensorView,
    weights_a: TensorView,
    input_b: TensorView,
    weights_b: TensorView,
    has_bias: bool,
    options: ConvTransposeOptions,
    dtype: DType,
)
    requires
        input_a.dims =~= input_b.dims,
        weights_a.dims =~= weights_b.dims,
    ensures
        conv_transpose2d_key(input_a, weights_a, has_bias, options, dtype) == conv_transpose2d_key(
            input_b,
            weights_b,
            has_bias,
            options,
            dtype,
        ),
{
}

/// Inputs that differ only within anchor buckets share a key: if batch size,
/// channels, height and width of one input each fall into the same bucket as
/// those of the other, and everything else agrees, the keys are identical.
pub proof fn lemma_conv_key_same_buckets(
    input_a: TensorView,
    input_b: TensorView,
    weights: TensorView,
    has_bias: bool,
    options: ConvTransposeOptions,
    dtype: DType,
)
    requires
        input_a.dims.len() == 4,
        input_b.dims.len() == 4,
        forall|i: int| 0 <= i < 4 ==> bucket(input_a.dims[i] as nat) == bucket(input_b.dims[i] as nat),
    ensures
        conv_transpose2d_key(input_a, weights, has_bias, options, dtype) == conv_transpose2d_key(
            input_b,
            weights,
            has_bias,
            options,
            dtype,
        ),
{
}

} // verus!
