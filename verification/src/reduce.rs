//! Tuning of reductions along one axis and of full sums.

use vstd::prelude::*;
use crate::anchor::{anchor, anchored, bucket, lemma_anchored_beyond_word};
use crate::error::{CandidateFailure, TuneError};
use crate::synthetic::{fresh_like, uniform_like, SyntheticOperand};
use crate::tensor::{checked_product, product, DType, TensorDesc, TensorView};
use crate::tune_key::CubeAutotuneKey;
use crate::tuner::{
    lemma_all_declined_fails, lemma_executed_weakens, lemma_usable_candidate_wins, plans_of, tuned,
    CubeTuneId, Decision, Execution, Outcome, Slot, Tuner,
};

verus! {

/// Autotune key representative of reduce versions.
#[derive(Clone, Copy, Debug, PartialEq, Eq, Hash, Structural)]
pub struct ReduceAutotuneKey {
    pub dtype: DType,
    /// Anchored size of the reduced axis.
    pub reduce_axis_shape: usize,
    /// Anchored stride of the reduced axis.
    pub reduce_axis_stride: usize,
    /// Anchored product of the sizes of all axes with greater strides.
    pub outer_axes_product: usize,
}

/// The sizes, among the first `n` axes, of those whose stride exceeds
/// `pivot`, in axis order.
pub open spec fn outer_axes(dims: Seq<usize>, strides: Seq<usize>, pivot: usize, n: nat) -> Seq<
    usize,
>
    decreases n,
{
    if n == 0 {
        Seq::empty()
    } else {
        let rest = outer_axes(dims, strides, pivot, (n - 1) as nat);
        if strides[n - 1] > pivot {
            rest.push(dims[n - 1])
        } else {
            rest
        }
    }
}

/// How much outer-loop work remains around the reduced axis: the product of
/// the sizes of all axes whose stride exceeds that of `axis`.
pub open spec fn outer_axes_product(t: TensorView, axis: int) -> nat {
    product(outer_axes(t.dims, t.strides, t.strides[axis], t.dims.len()))
}

impl ReduceAutotuneKey {
    /// The key of unanchored values: each size anchored. A size beyond the
    /// machine word anchors to the largest value of the word.
    pub open spec fn anchoring(
        dtype: DType,
        reduce_axis_shape: nat,
        reduce_axis_stride: nat,
        outer_axes_product: nat,
    ) -> Self {
        ReduceAutotuneKey {
            dtype,
            reduce_axis_shape: anchored(reduce_axis_shape, None, None) as usize,
            reduce_axis_stride: anchored(reduce_axis_stride, None, None) as usize,
            outer_axes_product: anchored(outer_axes_product, None, None) as usize,
        }
    }

    /// Whether a reduction of `input` along `axis` has a key: every axis has
    /// a stride, and the axis exists.
    pub open spec fn admits(input: TensorView, axis: usize) -> bool {
        &&& input.well_formed()
        &&& axis < input.dims.len()
    }

    /// The key of a reduction of `input` along `axis`.
    pub open spec fn of(input: TensorView, axis: usize) -> Self {
        Self::anchoring(
            input.dtype,
            input.dims[axis as int] as nat,
            input.strides[axis as int] as nat,
            outer_axes_product(input, axis as int),
        )
    }

    /// Builds a key, anchoring the three sizes.
    pub fn new(
        dtype: DType,
        reduce_axis_shape: usize,
        reduce_axis_stride: usize,
        outer_axes_product: usize,
    ) -> (key: Self)
        ensures
            key == Self::anchoring(
                dtype,
                reduce_axis_shape as nat,
                reduce_axis_stride as nat,
                outer_axes_product as nat,
            ),
    {
        ReduceAutotuneKey {
            dtype,
            reduce_axis_shape: anchor(reduce_axis_shape, None, None),
            reduce_axis_stride: anchor(reduce_axis_stride, None, None),
            outer_axes_product: anchor(outer_axes_product, None, None),
        }
    }

    /// Derives the key of a reduction of `input` along `axis`, or rejects the
    /// parameters when the axis does not exist or an axis lacks a stride.
    pub fn generate(input: &TensorDesc, axis: usize) -> (r: Result<Self, TuneError>)
        ensures
            r == if Self::admits(input@, axis) {
                Ok::<Self, TuneError>(Self::of(input@, axis))
            } else {
                Err::<Self, TuneError>(TuneError::InvalidKeyParameters)
            },
    {
        let rank: usize = input.dims.len();
        if input.strides.len() != rank || axis >= rank {
            return Err(TuneError::InvalidKeyParameters);
        }
        let reduce_axis_shape: usize = input.dims[axis];
        let reduce_axis_stride: usize = input.strides[axis];
        let mut outer: Vec<usize> = Vec::new();
        let mut i: usize = 0;
        while i < rank
            invariant
                rank == input.dims@.len(),
                rank == input.strides@.len(),
                i <= rank,
                outer@ == outer_axes(input.dims@, input.strides@, reduce_axis_stride, i as nat),
            decreases rank - i,
        {
            if input.strides[i] > reduce_axis_stride {
                outer.push(input.dims[i]);
            }
            i = i + 1;
        }
        match checked_product(&outer) {
            Some(outer_axes_product) => Ok(
                Self::new(input.dtype, reduce_axis_shape, reduce_axis_stride, outer_axes_product),
            ),
            None => {
                proof {
                    lemma_anchored_beyond_word(product(outer@), None, None);
                }
                Ok(
                    ReduceAutotuneKey {
                        dtype: input.dtype,
                        reduce_axis_shape: anchor(reduce_axis_shape, None, None),
                        reduce_axis_stride: anchor(reduce_axis_stride, None, None),
                        outer_axes_product: usize::MAX,
                    },
                )
            },
        }
    }
}

/// The key of a reduction of `input` along `dim`, or the rejection of
/// parameters that have none.
pub open spec fn reduce_key(input: TensorView, dim: usize) -> Result<CubeAutotuneKey, TuneError> {
    if ReduceAutotuneKey::admits(input, dim) {
        Ok(CubeAutotuneKey::Reduce(ReduceAutotuneKey::of(input, dim)))
    } else {
        Err(TuneError::InvalidKeyParameters)
    }
}

/// The key of a reduction of `input` along `dim`; the output plays no part.
pub fn create_key(input: &TensorDesc, _output: &TensorDesc, dim: &usize) -> (r: Result<
    CubeAutotuneKey,
    TuneError,
>)
    ensures
        r == reduce_key(input@, *dim),
{
    match ReduceAutotuneKey::generate(input, *dim) {
        Ok(key) => Ok(CubeAutotuneKey::Reduce(key)),
        Err(e) => Err(e),
    }
}

/// The operands of a reduction: input, output and the reduced axis.
pub type ReduceInputs = (SyntheticOperand, SyntheticOperand, usize);

/// Whether `plan` is what a reduction of `input` into `output` along `dim` is
/// benchmarked on: an input shaped like the real one with values from -10 to
/// 10, a fresh output buffer shaped like the real output, and the same axis.
pub open spec fn is_reduce_plan(
    plan: ReduceInputs,
    input: TensorView,
    output: TensorView,
    dim: usize,
) -> bool {
    &&& plan.0@ == uniform_like(input, -10i32, 10i32)
    &&& plan.1@ == fresh_like(output)
    &&& plan.2 == dim
}

/// Whether planning a reduction gave `p`: planning never fails, and the plan
/// is that of the reduction.
pub open spec fn reduce_planned(
    p: Result<ReduceInputs, TuneError>,
    input: TensorView,
    output: TensorView,
    dim: usize,
) -> bool {
    match p {
        Ok(plan) => is_reduce_plan(plan, input, output, dim),
        Err(_) => false,
    }
}

/// What planning a reduction may give.
pub open spec fn reduce_plans(input: TensorView, output: TensorView, dim: usize) -> spec_fn(
    Result<ReduceInputs, TuneError>,
) -> bool {
    |p: Result<ReduceInputs, TuneError>| reduce_planned(p, input, output, dim)
}

/// Plans the operands a reduction is benchmarked on: an input shaped like the
/// real one with values from -10 to 10, and a fresh output buffer shaped like
/// the real output. The axis is handed on.
pub fn reduce_input_gen(
    _key: &CubeAutotuneKey,
    input: &TensorDesc,
    output: &TensorDesc,
    dim: &usize,
) -> (r: ReduceInputs)
    ensures
        is_reduce_plan(r, input@, output@, *dim),
{
    let input = SyntheticOperand::random_like_uniform(input, -10, 10);
    let output = SyntheticOperand::empty_like(output);
    (input, output, *dim)
}

/// The candidate kernels of a reduction, in registration order.
#[derive(Clone, Copy, Debug, PartialEq, Eq, Hash, Structural)]
pub enum ReduceCandidate {
    /// Neither shared memory nor plane instructions.
    Reduce,
    /// Shared memory.
    ReduceShared,
    /// Plane instructions.
    ReducePlane,
    /// Shared memory and plane instructions.
    ReduceSharedPlane,
}

/// How a reduction kernel is to be launched.
#[derive(Clone, Copy, Debug, PartialEq, Eq, Hash, Structural)]
pub struct ReduceLaunch {
    pub shared: bool,
    pub use_planes: bool,
}

impl ReduceCandidate {
    /// The launch strategy that the candidate stands for.
    pub open spec fn launch(self) -> ReduceLaunch {
        match self {
            ReduceCandidate::Reduce => ReduceLaunch { shared: false, use_planes: false },
            ReduceCandidate::ReduceShared => ReduceLaunch { shared: true, use_planes: false },
            ReduceCandidate::ReducePlane => ReduceLaunch { shared: false, use_planes: true },
            ReduceCandidate::ReduceSharedPlane => ReduceLaunch { shared: true, use_planes: true },
        }
    }

    /// The launch strategy that the candidate stands for.
    pub fn strategy(self) -> (r: ReduceLaunch)
        ensures
            r == self.launch(),
    {
        match self {
            ReduceCandidate::Reduce => ReduceLaunch { shared: false, use_planes: false },
            ReduceCandidate::ReduceShared => ReduceLaunch { shared: true, use_planes: false },
            ReduceCandidate::ReducePlane => ReduceLaunch { shared: false, use_planes: true },
            ReduceCandidate::ReduceSharedPlane => ReduceLaunch { shared: true, use_planes: true },
        }
    }
}

/// The registered reduction candidates.
pub open spec fn reduce_registry() -> Seq<ReduceCandidate> {
    seq![
        ReduceCandidate::Reduce,
        ReduceCandidate::ReduceShared,
        ReduceCandidate::ReducePlane,
        ReduceCandidate::ReduceSharedPlane,
    ]
}

/// The reduction candidates in registration order.
pub fn reduce_candidates() -> (r: Vec<ReduceCandidate>)
    ensures
        r@ == reduce_registry(),
{
    let mut r: Vec<ReduceCandidate> = Vec::new();
    r.push(ReduceCandidate::Reduce);
    r.push(ReduceCandidate::ReduceShared);
    r.push(ReduceCandidate::ReducePlane);
    r.push(ReduceCandidate::ReduceSharedPlane);
    r
}

/// Autotune key representative of sum versions.
#[derive(Clone, Copy, Debug, PartialEq, Eq, Hash, Structural)]
pub struct SumAutotuneKey {
    pub dtype: DType,
    /// Anchored number of elements summed.
    pub length: usize,
}

impl SumAutotuneKey {
    /// The key of an unanchored length. A length beyond the machine word
    /// anchors to the largest value of the word.
    pub open spec fn anchoring(dtype: DType, length: nat) -> Self {
        SumAutotuneKey { dtype, length: anchored(length, None, None) as usize }
    }

    /// The key of a sum over `input`: its element type and its anchored
    /// element count.
    pub open spec fn of(input: TensorView) -> Self {
        Self::anchoring(input.dtype, product(input.dims))
    }

    /// Builds a key, anchoring the length.
    pub fn new(dtype: DType, length: usize) -> (key: Self)
        ensures
            key == Self::anchoring(dtype, length as nat),
    {
        SumAutotuneKey { dtype, length: anchor(length, None, None) }
    }

    /// Derives the key of a sum over `input`.
    pub fn generate(input: &TensorDesc) -> (key: Self)
        ensures
            key == Self::of(input@),
    {
        match input.num_elements() {
            Some(length) => Self::new(input.dtype, length),
            None => {
                proof {
                    lemma_anchored_beyond_word(product(input@.dims), None, None);
                }
                SumAutotuneKey { dtype: input.dtype, length: usize::MAX }
            },
        }
    }
}

/// The key of a sum over `input`.
pub open spec fn sum_key(input: TensorView) -> CubeAutotuneKey {
    CubeAutotuneKey::Sum(SumAutotuneKey::of(input))
}

/// The key of a sum over `input`.
pub fn create_key_sum(input: &TensorDesc) -> (key: CubeAutotuneKey)
    ensures
        key == sum_key(input@),
{
    CubeAutotuneKey::Sum(SumAutotuneKey::generate(input))
}

/// Whether planning a sum gave `p`: planning never fails, and the plan is an
/// operand shaped like the real input with values from -10 to 10.
pub open spec fn sum_planned(p: Result<SyntheticOperand, TuneError>, input: TensorView) -> bool {
    match p {
        Ok(plan) => plan@ == uniform_like(input, -10i32, 10i32),
        Err(_) => false,
    }
}

/// What planning a sum may give.
pub open spec fn sum_plans(input: TensorView) -> spec_fn(Result<SyntheticOperand, TuneError>) -> bool {
    |p: Result<SyntheticOperand, TuneError>| sum_planned(p, input)
}

/// Plans the operand a sum is benchmarked on: shaped like the real input,
/// with values from -10 to 10.
pub fn sum_input_gen(_key: &CubeAutotuneKey, input: &TensorDesc) -> (r: SyntheticOperand)
    ensures
        r@ == uniform_like(input@, -10i32, 10i32),
{
    SyntheticOperand::random_like_uniform(input, -10, 10)
}

/// The candidate kernels of a sum, in registration order.
#[derive(Clone, Copy, Debug, PartialEq, Eq, Hash, Structural)]
pub enum SumCandidate {
    /// A chain of axis reductions.
    Chained,
    /// One launch in which the given number of cubes share the sum.
    OneShot(u32),
}

/// The registered sum candidates: the chained sum, then the one-shot sum on
/// 1, 2, 4, 8, 16, 32 and 64 cubes.
pub open spec fn sum_registry() -> Seq<SumCandidate> {
    seq![
        SumCandidate::Chained,
        SumCandidate::OneShot(1),
        SumCandidate::OneShot(2),
        SumCandidate::OneShot(4),
        SumCandidate::OneShot(8),
        SumCandidate::OneShot(16),
        SumCandidate::OneShot(32),
        SumCandidate::OneShot(64),
    ]
}

/// The sum candidates in registration order.
pub fn sum_candidates() -> (r: Vec<SumCandidate>)
    ensures
        r@ == sum_registry(),
{
    let mut r: Vec<SumCandidate> = Vec::new();
    r.push(SumCandidate::Chained);
    r.push(SumCandidate::OneShot(1));
    r.push(SumCandidate::OneShot(2));
    r.push(SumCandidate::OneShot(4));
    r.push(SumCandidate::OneShot(8));
    r.push(SumCandidate::OneShot(16));
    r.push(SumCandidate::OneShot(32));
    r.push(SumCandidate::OneShot(64));
    r
}

/// An empty cache for reductions.
pub fn reduce_tuner() -> (t: Tuner)
    ensures
        t.wf(),
        t@ == Map::<Slot, Decision>::empty(),
        t.registered() == reduce_registry().len(),
{
    Tuner::new(4)
}

/// Executes autotune on reduce operations. The key comes from the input and
/// the axis; an axis that the input does not have fails the call before any
/// candidate is touched. Otherwise the four reduction kernels compete on
/// synthetic operands the first time the key is seen in scope `id`, and `run`
/// applies the winner to the real operands.
pub fn autotune_reduce<T, B, R>(
    tuner: &mut Tuner,
    id: &CubeTuneId,
    input: &TensorDesc,
    output: &TensorDesc,
    dim: usize,
    bench: &B,
    run: R,
) -> (r: Result<Execution<T>, TuneError>) where
    B: Fn(ReduceCandidate, &ReduceInputs) -> Outcome,
    R: FnOnce(ReduceCandidate) -> Result<T, CandidateFailure>,

    requires
        old(tuner).wf(),
        old(tuner).registered() == reduce_registry().len(),
        forall|i: int, plan: ReduceInputs|
            0 <= i < reduce_registry().len() && is_reduce_plan(plan, input@, output@, dim)
                ==> #[trigger] call_requires(*bench, (reduce_registry()[i], &plan)),
        forall|i: int|
            0 <= i < reduce_registry().len() ==> call_requires(run, (#[trigger] reduce_registry()[i],)),
    ensures
        final(tuner).wf(),
        final(tuner).registered() == old(tuner).registered(),
        tuned(
            old(tuner)@,
            final(tuner)@,
            *id,
            reduce_key(input@, dim),
            reduce_registry(),
            reduce_plans(input@, output@, dim),
            *bench,
            run,
            r,
        ),
{
    match create_key(input, output, &dim) {
        Err(e) => Err(e),
        Ok(key) => {
            let candidates = reduce_candidates();
            let plan = || -> (p: Result<ReduceInputs, TuneError>)
                ensures
                    reduce_planned(p, input@, output@, dim),
                { Ok(reduce_input_gen(&key, input, output, &dim)) };
            let ghost before = tuner@;
            let ghost plans = plans_of(plan);
            let ghost ran = run;
            let r = tuner.execute(id, &key, &candidates, plan, bench, run);
            proof {
                lemma_executed_weakens(
                    before,
                    tuner@,
                    (*id, key),
                    candidates@,
                    plans,
                    reduce_plans(input@, output@, dim),
                    *bench,
                    ran,
                    r,
                );
            }
            r
        },
    }
}

/// An empty cache for sums.
pub fn sum_tuner() -> (t: Tuner)
    ensures
        t.wf(),
        t@ == Map::<Slot, Decision>::empty(),
        t.registered() == sum_registry().len(),
{
    Tuner::new(8)
}

/// Executes autotune on sum operations. The chained sum and the one-shot
/// sums compete on a synthetic operand the first time the key is seen in
/// scope `id`, and `run` applies the winner to the real operand.
pub fn autotune_sum<T, B, R>(
    tuner: &mut Tuner,
    id: &CubeTuneId,
    input: &TensorDesc,
    bench: &B,
    run: R,
) -> (r: Result<Execution<T>, TuneError>) where
    B: Fn(SumCandidate, &SyntheticOperand) -> Outcome,
    R: FnOnce(SumCandidate) -> Result<T, CandidateFailure>,

    requires
        old(tuner).wf(),
        old(tuner).registered() == sum_registry().len(),
        forall|i: int, plan: SyntheticOperand|
            0 <= i < sum_registry().len() && plan@ == uniform_like(input@, -10i32, 10i32)
                ==> #[trigger] call_requires(*bench, (sum_registry()[i], &plan)),
        forall|i: int|
            0 <= i < sum_registry().len() ==> call_requires(run, (#[trigger] sum_registry()[i],)),
    ensures
        final(tuner).wf(),
        final(tuner).registered() == old(tuner).registered(),
        tuned(
            old(tuner)@,
            final(tuner)@,
            *id,
            Ok(sum_key(input@)),
            sum_registry(),
            sum_plans(input@),
            *bench,
            run,
            r,
        ),
{
    let key = create_key_sum(input);
    let candidates = sum_candidates();
    let plan = || -> (p: Result<SyntheticOperand, TuneError>)
        ensures
            sum_planned(p, input@),
        { Ok(sum_input_gen(&key, input)) };
    let ghost before = tuner@;
    let ghost plans = plans_of(plan);
    let ghost ran = run;
    let r = tuner.execute(id, &key, &candidates, plan, bench, run);
    proof {
        lemma_executed_weakens(
            before,
            tuner@,
            (*id, key),
            candidates@,
            plans,
            sum_plans(input@),
            *bench,
            ran,
            r,
        );
    }
    r
}

/// Key building is a function of the parameters: inputs with the same element
/// type, shape and strides have the same key along the same axis.
pub proof fn lemma_reduce_key_deterministic(a: TensorView, b: TensorView, dim: usize)
    requires
        a.dtype == b.dtype,
        a.dims =~= b.dims,
        a.strides =~= b.strides,
    ensures
        reduce_key(a, dim) == reduce_key(b, dim),
{
}

/// Inputs that differ only within anchor buckets share a key: if the element
/// types agree and the size of the reduced axis, its stride and the outer
/// product of one input each fall into the same bucket as those of the other,
/// the keys are identical.
pub proof fn lemma_reduce_key_same_buckets(
    a: TensorView,
    dim_a: usize,
    b: TensorView,
    dim_b: usize,
)
    requires
        ReduceAutotuneKey::admits(a, dim_a),
        ReduceAutotuneKey::admits(b, dim_b),
        a.dtype == b.dtype,
        bucket(a.dims[dim_a as int] as nat) == bucket(b.dims[dim_b as int] as nat),
        bucket(a.strides[dim_a as int] as nat) == bucket(b.strides[dim_b as int] as nat),
        bucket(outer_axes_product(a, dim_a as int)) == bucket(outer_axes_product(b, dim_b as int)),
    ensures
        reduce_key(a, dim_a) == reduce_key(b, dim_b),
{
}

/// An axis index at or beyond the rank has no key.
pub proof fn lemma_reduce_axis_out_of_bounds(input: TensorView, dim: usize)
    requires
        dim >= input.dims.len(),
    ensures
        reduce_key(input, dim) == Err::<CubeAutotuneKey, TuneError>(
            TuneError::InvalidKeyParameters,
        ),
{
}

/// Sums that differ only within an anchor bucket share a key: if the element
/// types agree and the element counts fall into the same bucket, the keys are
/// identical.
pub proof fn lemma_sum_key_same_bucket(a: TensorView, b: TensorView)
    requires
        a.dtype == b.dtype,
        bucket(product(a.dims)) == bucket(product(b.dims)),
    ensures
        sum_key(a) == sum_key(b),
{
}

/// Sums over inputs with the same element type and shape have the same key.
pub proof fn lemma_sum_key_deterministic(a: TensorView, b: TensorView)
    requires
        a.dtype == b.dtype,
        a.dims =~= b.dims,
    ensures
        sum_key(a) == sum_key(b),
{
}

/// A reduction has a key exactly when every axis of the input has a stride
/// and the axis exists. So for an input that is well formed, the parameters
/// are rejected if and only if the axis is at or beyond the rank.
pub proof fn lemma_reduce_key_exists(input: TensorView, dim: usize)
    ensures
        reduce_key(input, dim) is Ok <==> input.well_formed() && dim < input.dims.len(),
        reduce_key(input, dim) matches Err(e) ==> e == TuneError::InvalidKeyParameters,
        input.well_formed() ==> (reduce_key(input, dim) is Err <==> dim >= input.dims.len()),
{
}

/// As long as the chained sum runs on the planned operand, a sum never fails
/// for want of candidates, whatever the one-shot sums do, and the cache holds
/// a winner for its key afterwards. This holds on a cache miss and on a hit,
/// provided the cache holds no failure for the key; a cache that started
/// empty under this condition never does.
pub proof fn lemma_chained_sum_suffices<T, B, R>(
    before: Map<Slot, Decision>,
    after: Map<Slot, Decision>,
    id: CubeTuneId,
    input: TensorView,
    bench: B,
    run: R,
    r: Result<Execution<T>, TuneError>,
) where
    B: Fn(SumCandidate, &SyntheticOperand) -> Outcome,
    R: FnOnce(SumCandidate) -> Result<T, CandidateFailure>,

    requires
        tuned(
            before,
            after,
            id,
            Ok(sum_key(input)),
            sum_registry(),
            sum_plans(input),
            bench,
            run,
            r,
        ),
        before.contains_key((id, sum_key(input))) ==> before[(id, sum_key(input))] is Winner,
        forall|plan: SyntheticOperand, o: Outcome|
            plan@ == uniform_like(input, -10i32, 10i32) && #[trigger] call_ensures(
                bench,
                (SumCandidate::Chained, &plan),
                o,
            ) ==> o is Measured,
    ensures
        !(r matches Err(e) && e == TuneError::AllCandidatesFailed),
        after.contains_key((id, sum_key(input))),
        after[(id, sum_key(input))] is Winner,
{
    lemma_usable_candidate_wins(
        before,
        after,
        (id, sum_key(input)),
        sum_registry(),
        sum_plans(input),
        bench,
        run,
        r,
        0,
    );
}

/// If all four reduction kernels decline or fail on the planned operands, a
/// reduction with a key fails with `AllCandidatesFailed`: it never returns a
/// result, and what the cache holds for the key is that failure. This holds
/// on a cache miss and on a hit, provided the cache holds no winner for the
/// key; a cache that started empty under this condition never does.
pub proof fn lemma_reduce_all_failing<T, B, R>(
    before: Map<Slot, Decision>,
    after: Map<Slot, Decision>,
    id: CubeTuneId,
    input: TensorView,
    output: TensorView,
    dim: usize,
    bench: B,
    run: R,
    r: Result<Execution<T>, TuneError>,
) where
    B: Fn(ReduceCandidate, &ReduceInputs) -> Outcome,
    R: FnOnce(ReduceCandidate) -> Result<T, CandidateFailure>,

    requires
        tuned(
            before,
            after,
            id,
            reduce_key(input, dim),
            reduce_registry(),
            reduce_plans(input, output, dim),
            bench,
            run,
            r,
        ),
        reduce_key(input, dim) matches Ok(k) && (before.contains_key((id, k)) ==> before[(id, k)]
            == Decision::AllFailed),
        forall|c: ReduceCandidate, plan: ReduceInputs, o: Outcome|
            is_reduce_plan(plan, input, output, dim) && #[trigger] call_ensures(
                bench,
                (c, &plan),
                o,
            ) ==> o is Failed,
    ensures
        r matches Err(e) && e == TuneError::AllCandidatesFailed,
        reduce_key(input, dim) matches Ok(k) && after.contains_key((id, k)) && after[(id, k)]
            == Decision::AllFailed,
{
    let k = reduce_key(input, dim)->Ok_0;
    lemma_all_declined_fails(
        before,
        after,
        (id, k),
        reduce_registry(),
        reduce_plans(input, output, dim),
        bench,
        run,
        r,
    );
}

} // verus!
