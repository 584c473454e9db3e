//! Tuning and dispatch of matrix multiplication.

use vstd::prelude::*;
use crate::anchor::{anchor, anchored, lemma_anchored_beyond_word};
use crate::error::{CandidateFailure, TuneError};
use crate::synthetic::{fresh_like, uniform_like, SyntheticOperand};
use crate::tensor::{checked_product, product, DType, TensorDesc, TensorView};
use crate::tune_key::CubeAutotuneKey;
use crate::tuner::{
    lemma_all_declined_fails, lemma_executed_weakens, lemma_failing_candidate_never_wins,
    lemma_usable_candidate_wins, plans_of, tuned, CubeTuneId, Decision, Execution, Outcome, Slot,
    Tuner,
};

verus! {

/// Autotune key representative of matmul versions.
#[derive(Clone, Copy, Debug, PartialEq, Eq, Hash, Structural)]
pub struct MatmulAutotuneKey {
    /// True when all matmul dims are multiples of 64.
    pub round: bool,
    /// True when there are differences in batch size.
    pub broadcast: bool,
    /// Anchored number of rows of the left operand.
    pub m: usize,
    /// Anchored size of the common axis.
    pub k: usize,
    /// Anchored number of columns of the right operand.
    pub n: usize,
    /// Anchored batch size, at most 256.
    pub batch: usize,
    pub dtype: DType,
}

/// The larger of two numbers.
pub open spec fn larger(a: nat, b: nat) -> nat {
    if a >= b {
        a
    } else {
        b
    }
}

impl MatmulAutotuneKey {
    /// The key of unanchored values: the three matrix sizes anchored, and the
    /// batch size anchored to at most 256.
    pub open spec fn anchoring(
        round: bool,
        broadcast: bool,
        m: nat,
        k: nat,
        n: nat,
        batch: nat,
        dtype: DType,
    ) -> Self {
        MatmulAutotuneKey {
            round,
            broadcast,
            m: anchored(m, None, None) as usize,
            k: anchored(k, None, None) as usize,
            n: anchored(n, None, None) as usize,
            batch: anchored(batch, Some(256usize), None) as usize,
            dtype,
        }
    }

    /// The batch axes of a shape: all but the last two.
    pub open spec fn batch_axes(dims: Seq<usize>) -> Seq<usize> {
        dims.take(dims.len() - 2)
    }

    /// Whether two shapes have a key: both have the same number of axes, at
    /// least two.
    pub open spec fn admits(lhs: Seq<usize>, rhs: Seq<usize>) -> bool {
        &&& lhs.len() >= 2
        &&& rhs.len() == lhs.len()
    }

    /// The key of a product of an `.. x m x k` by an `.. x k x n` tensor.
    pub open spec fn of(lhs: Seq<usize>, rhs: Seq<usize>, dtype: DType) -> Self {
        let rank = lhs.len() as int;
        let m = lhs[rank - 2];
        let k = lhs[rank - 1];
        let n = rhs[rank - 1];
        Self::anchoring(
            m % 64 == 0 && k % 64 == 0 && n % 64 == 0,
            Self::batch_axes(lhs) != Self::batch_axes(rhs),
            m as nat,
            k as nat,
            n as nat,
            larger(product(Self::batch_axes(lhs)), product(Self::batch_axes(rhs))),
            dtype,
        )
    }

    /// Builds a key, anchoring the three matrix sizes and the batch size, the
    /// latter to at most 256.
    pub fn new(
        round: bool,
        broadcast: bool,
        m: usize,
        k: usize,
        n: usize,
        batch: usize,
        dtype: DType,
    ) -> (key: Self)
        ensures
            key == Self::anchoring(
                round,
                broadcast,
                m as nat,
                k as nat,
                n as nat,
                batch as nat,
                dtype,
            ),
    {
        MatmulAutotuneKey {
            round,
            broadcast,
            m: anchor(m, None, None),
            k: anchor(k, None, None),
            n: anchor(n, None, None),
            batch: anchor(batch, Some(256), None),
            dtype,
        }
    }

    /// Derives the key from the shapes of the two operands.
    pub fn from_shape(lhs_shape: &Vec<usize>, rhs_shape: &Vec<usize>, dtype: DType) -> (r: Result<
        Self,
        TuneError,
    >)
        ensures
            r == if Self::admits(lhs_shape@, rhs_shape@) {
                Ok::<Self, TuneError>(Self::of(lhs_shape@, rhs_shape@, dtype))
            } else {
                Err::<Self, TuneError>(TuneError::InvalidKeyParameters)
            },
    {
        let ndims: usize = lhs_shape.len();
        if ndims < 2 || rhs_shape.len() != ndims {
            return Err(TuneError::InvalidKeyParameters);
        }
        let m: usize = lhs_shape[ndims - 2];
        let k: usize = lhs_shape[ndims - 1];
        let n: usize = rhs_shape[ndims - 1];
        let mut broadcast: bool = false;
        let mut batch_lhs: Vec<usize> = Vec::new();
        let mut batch_rhs: Vec<usize> = Vec::new();
        let mut b: usize = 0;
        while b < ndims - 2
            invariant
                ndims >= 2,
                ndims == lhs_shape@.len(),
                ndims == rhs_shape@.len(),
                b <= ndims - 2,
                batch_lhs@ == lhs_shape@.take(b as int),
                batch_rhs@ == rhs_shape@.take(b as int),
                broadcast <==> batch_lhs@ != batch_rhs@,
            decreases ndims - b,
        {
            let ghost before_lhs = batch_lhs@;
            let ghost before_rhs = batch_rhs@;
            batch_lhs.push(lhs_shape[b]);
            batch_rhs.push(rhs_shape[b]);
            if lhs_shape[b] != rhs_shape[b] {
                broadcast = true;
            }
            proof {
                assert(batch_lhs@ =~= lhs_shape@.take(b as int + 1));
                assert(batch_rhs@ =~= rhs_shape@.take(b as int + 1));
                assert(batch_lhs@.drop_last() =~= before_lhs);
                assert(batch_rhs@.drop_last() =~= before_rhs);
                assert(batch_lhs@.last() == lhs_shape@[b as int]);
                assert(batch_rhs@.last() == rhs_shape@[b as int]);
            }
            b = b + 1;
        }
        let round: bool = m % 64 == 0 && k % 64 == 0 && n % 64 == 0;
        proof {
            assert(batch_lhs@ =~= Self::batch_axes(lhs_shape@));
            assert(batch_rhs@ =~= Self::batch_axes(rhs_shape@));
        }
        let batch_product: usize = match (checked_product(&batch_lhs), checked_product(&batch_rhs)) {
            (Some(batch_product_lhs), Some(batch_product_rhs)) => if batch_product_lhs
                >= batch_product_rhs {
                batch_product_lhs
            } else {
                batch_product_rhs
            },
            _ => {
                // A batch beyond the machine word anchors to the cap.
                proof {
                    lemma_anchored_beyond_word(
                        larger(product(batch_lhs@), product(batch_rhs@)),
                        Some(256usize),
                        None,
                    );
                }
                return Ok(
                    MatmulAutotuneKey {
                        round,
                        broadcast,
                        m: anchor(m, None, None),
                        k: anchor(k, None, None),
                        n: anchor(n, None, None),
                        batch: 256,
                        dtype,
                    },
                );
            },
        };
        Ok(Self::new(round, broadcast, m, k, n, batch_product, dtype))
    }
}

/// The key of a matrix product of `lhs` by `rhs`, or the rejection of shapes
/// that have none.
pub open spec fn matmul_key(lhs: TensorView, rhs: TensorView, dtype: DType) -> Result<
    CubeAutotuneKey,
    TuneError,
> {
    if MatmulAutotuneKey::admits(lhs.dims, rhs.dims) {
        Ok(CubeAutotuneKey::Matmul(MatmulAutotuneKey::of(lhs.dims, rhs.dims, dtype)))
    } else {
        Err(TuneError::InvalidKeyParameters)
    }
}

/// The key of a matrix product of `lhs` by `rhs`; the output plays no part.
pub fn create_key(lhs: &TensorDesc, rhs: &TensorDesc, _out: &TensorDesc, dtype: DType) -> (r:
    Result<CubeAutotuneKey, TuneError>)
    ensures
        r == matmul_key(lhs@, rhs@, dtype),
{
    match MatmulAutotuneKey::from_shape(&lhs.dims, &rhs.dims, dtype) {
        Ok(key) => Ok(CubeAutotuneKey::Matmul(key)),
        Err(e) => Err(e),
    }
}

/// The operands of a matrix product: both factors and the output.
pub type MatmulInputs = (SyntheticOperand, SyntheticOperand, SyntheticOperand);

/// Whether `plan` is what a product of `lhs` by `rhs` into `out` is
/// benchmarked on: both factors shaped like the real ones with values from
/// -10 to 10, and a fresh output buffer shaped like the real output.
pub open spec fn is_matmul_plan(
    plan: MatmulInputs,
    lhs: TensorView,
    rhs: TensorView,
    out: TensorView,
) -> bool {
    &&& plan.0@ == uniform_like(lhs, -10i32, 10i32)
    &&& plan.1@ == uniform_like(rhs, -10i32, 10i32)
    &&& plan.2@ == fresh_like(out)
}

/// Whether planning a matrix product gave `p`: planning never fails, and the
/// plan is that of the product.
pub open spec fn matmul_planned(
    p: Result<MatmulInputs, TuneError>,
    lhs: TensorView,
    rhs: TensorView,
    out: TensorView,
) -> bool {
    match p {
        Ok(plan) => is_matmul_plan(plan, lhs, rhs, out),
        Err(_) => false,
    }
}

/// What planning a matrix product may give.
pub open spec fn matmul_plans(lhs: TensorView, rhs: TensorView, out: TensorView) -> spec_fn(
    Result<MatmulInputs, TuneError>,
) -> bool {
    |p: Result<MatmulInputs, TuneError>| matmul_planned(p, lhs, rhs, out)
}

/// Plans the operands a matrix product is benchmarked on: both factors shaped
/// like the real ones with values from -10 to 10, and a fresh output buffer
/// shaped like the real output.
pub fn matmul_input_gen(
    _key: &CubeAutotuneKey,
    lhs: &TensorDesc,
    rhs: &TensorDesc,
    out: &TensorDesc,
) -> (r: MatmulInputs)
    ensures
        is_matmul_plan(r, lhs@, rhs@, out@),
{
    let lhs = SyntheticOperand::random_like_uniform(lhs, -10, 10);
    let rhs = SyntheticOperand::random_like_uniform(rhs, -10, 10);
    let out = SyntheticOperand::empty_like(out);
    (lhs, rhs, out)
}

/// The candidate kernels of a matrix product, in registration order.
#[derive(Clone, Copy, Debug, PartialEq, Eq, Hash, Structural)]
pub enum MatmulCandidate {
    /// The two-dimensional tiling kernel.
    Tiling2d,
    /// The accelerated kernel.
    Accelerated,
    /// The simple kernel.
    Simple,
}

/// The registered candidates of a matrix product.
pub open spec fn matmul_registry() -> Seq<MatmulCandidate> {
    seq![MatmulCandidate::Tiling2d, MatmulCandidate::Accelerated, MatmulCandidate::Simple]
}

/// The candidates of a matrix product in registration order.
pub fn matmul_candidates() -> (r: Vec<MatmulCandidate>)
    ensures
        r@ == matmul_registry(),
{
    let mut r: Vec<MatmulCandidate> = Vec::new();
    r.push(MatmulCandidate::Tiling2d);
    r.push(MatmulCandidate::Accelerated);
    r.push(MatmulCandidate::Simple);
    r
}

/// Calls `Tiling2dConfig::default` of cubecl's tiling matmul and hands back
/// the block sizes along the rows of the left operand and along the columns
/// of the right one. The contract claims what that `Default` impl writes: 64
/// for both.
#[verifier::external_body]
fn tiling2d_block_sizes() -> (r: (usize, usize))
    ensures
        r == (64usize, 64usize),
{
    let config = cubecl::linalg::matmul::kernels::tiling2d::Tiling2dConfig::default();
    (config.block_size_m, config.block_size_n)
}

/// The number of blocks of `block` entries that cover `size` entries.
pub open spec fn blocks(size: nat, block: nat) -> nat {
    if size % block == 0 {
        size / block
    } else {
        size / block + 1
    }
}

/// Whether the tiling kernel may be launched for an output of the given
/// shape: the output is a matrix, or a batch of them, and the grid of 64 by
/// 64 blocks that covers a matrix is within the device's limits.
pub open spec fn tiling2d_fits(out_dims: Seq<usize>, max_x: u32, max_y: u32) -> bool {
    &&& out_dims.len() >= 2
    &&& blocks(out_dims[out_dims.len() - 2] as nat, 64) <= max_x
    &&& blocks(out_dims[out_dims.len() - 1] as nat, 64) <= max_y
}

/// Decides, before any launch, whether the tiling kernel accepts an output of
/// shape `out_shape` on a device that allows `max_cube_count` cubes along
/// each grid axis. A grid that exceeds the limit makes the candidate decline.
pub fn tiling2d_launch_check(out_shape: &Vec<usize>, max_cube_count: (u32, u32, u32)) -> (r:
    Result<(), CandidateFailure>)
    ensures
        r is Ok <==> tiling2d_fits(out_shape@, max_cube_count.0, max_cube_count.1),
        r matches Err(e) ==> e == CandidateFailure::Declined,
{
    let rank: usize = out_shape.len();
    if rank < 2 {
        return Err(CandidateFailure::Declined);
    }
    let (block_size_m, block_size_n) = tiling2d_block_sizes();
    let num_rows: usize = out_shape[rank - 2];
    let num_cols: usize = out_shape[rank - 1];
    let cubes_x: usize = if num_rows % block_size_m == 0 {
        num_rows / block_size_m
    } else {
        num_rows / block_size_m + 1
    };
    let cubes_y: usize = if num_cols % block_size_n == 0 {
        num_cols / block_size_n
    } else {
        num_cols / block_size_n + 1
    };
    let (max_x, max_y, _max_z) = max_cube_count;
    if cubes_x > max_x as usize || cubes_y > max_y as usize {
        return Err(CandidateFailure::Declined);
    }
    Ok(())
}

/// An empty cache for matrix products.
pub fn matmul_tuner() -> (t: Tuner)
    ensures
        t.wf(),
        t@ == Map::<Slot, Decision>::empty(),
        t.registered() == matmul_registry().len(),
{
    Tuner::new(3)
}

/// Executes autotune on matmul operations. The tiling, the accelerated and
/// the simple kernel compete on synthetic operands the first time the key is
/// seen in scope `id`, and `run` applies the winner to the real operands.
pub fn matmul_autotune<T, B, R>(
    tuner: &mut Tuner,
    id: &CubeTuneId,
    lhs: &TensorDesc,
    rhs: &TensorDesc,
    out: &TensorDesc,
    dtype: DType,
    bench: &B,
    run: R,
) -> (r: Result<Execution<T>, TuneError>) where
    B: Fn(MatmulCandidate, &MatmulInputs) -> Outcome,
    R: FnOnce(MatmulCandidate) -> Result<T, CandidateFailure>,

    requires
        old(tuner).wf(),
        old(tuner).registered() == matmul_registry().len(),
        forall|i: int, plan: MatmulInputs|
            0 <= i < matmul_registry().len() && is_matmul_plan(plan, lhs@, rhs@, out@)
                ==> #[trigger] call_requires(*bench, (matmul_registry()[i], &plan)),
        forall|i: int|
            0 <= i < matmul_registry().len() ==> call_requires(run, (#[trigger] matmul_registry()[i],)),
    ensures
        final(tuner).wf(),
        final(tuner).registered() == old(tuner).registered(),
        tuned(
            old(tuner)@,
            final(tuner)@,
            *id,
            matmul_key(lhs@, rhs@, dtype),
            matmul_registry(),
            matmul_plans(lhs@, rhs@, out@),
            *bench,
            run,
            r,
        ),
{
    match create_key(lhs, rhs, out, dtype) {
        Err(e) => Err(e),
        Ok(key) => {
            let candidates = matmul_candidates();
            let plan = || -> (p: Result<MatmulInputs, TuneError>)
                ensures
                    matmul_planned(p, lhs@, rhs@, out@),
                { Ok(matmul_input_gen(&key, lhs, rhs, out)) };
            let ghost before = tuner@;
            let ghost plans = plans_of(plan);
            let ghost ran = run;
            let r = tuner.execute(id, &key, &candidates, plan, bench, run);
            proof {
                lemma_executed_weakens(
                    before,
                    tuner@,
                    (*id, key),
                    candidates@,
                    plans,
                    matmul_plans(lhs@, rhs@, out@),
                    *bench,
                    ran,
                    r,
                );
            }
            r
        },
    }
}

/// The strategy to be used when launching a matmul kernel.
#[derive(Clone, Copy, Debug, PartialEq, Eq, Hash, Structural)]
pub enum MatmulStrategy {
    /// Using autotune to choose the best kernel based on runtime information.
    Autotune,
    /// Cube implementation of matmul.
    Cube,
}

impl MatmulStrategy {
    /// The strategy for a configuration: autotune where it is enabled, the
    /// fixed default kernel where it is not.
    pub fn configured(autotune: bool) -> (s: Self)
        ensures
            s == if autotune {
                MatmulStrategy::Autotune
            } else {
                MatmulStrategy::Cube
            },
    {
        if autotune {
            MatmulStrategy::Autotune
        } else {
            MatmulStrategy::Cube
        }
    }
}

impl Default for MatmulStrategy {
    /// Autotune is the default.
    fn default() -> (s: Self)
        ensures
            s == MatmulStrategy::Autotune,
    {
        MatmulStrategy::Autotune
    }
}

/// What a call under the fixed default strategy returns: the result of the
/// default kernel, and its failure as the call's own.
pub open spec fn ran_default<T, K: FnOnce() -> Result<T, CandidateFailure>>(
    cube: K,
    r: Result<T, TuneError>,
) -> bool {
    match r {
        Ok(output) => call_ensures(cube, (), Ok::<T, CandidateFailure>(output)),
        Err(TuneError::KernelFailed(f)) => call_ensures(cube, (), Err::<T, CandidateFailure>(f)),
        Err(_) => false,
    }
}

/// Whether `r` is the output of the execution `e`, or the same error.
pub open spec fn output_of<T>(e: Result<Execution<T>, TuneError>, r: Result<T, TuneError>) -> bool {
    match e {
        Ok(execution) => r matches Ok(output) && output == execution.output,
        Err(x) => r matches Err(y) && y == x,
    }
}

/// Launch a matmul kernel using the given strategy. `Cube` runs the default
/// kernel directly and never touches the cache; `Autotune` goes through the
/// tuner.
pub fn matmul<T, K, B, R>(
    tuner: &mut Tuner,
    id: &CubeTuneId,
    lhs: &TensorDesc,
    rhs: &TensorDesc,
    out: &TensorDesc,
    dtype: DType,
    strategy: MatmulStrategy,
    cube: K,
    bench: &B,
    run: R,
) -> (r: Result<T, TuneError>) where
    K: FnOnce() -> Result<T, CandidateFailure>,
    B: Fn(MatmulCandidate, &MatmulInputs) -> Outcome,
    R: FnOnce(MatmulCandidate) -> Result<T, CandidateFailure>,

    requires
        old(tuner).wf(),
        old(tuner).registered() == matmul_registry().len(),
        call_requires(cube, ()),
        forall|i: int, plan: MatmulInputs|
            0 <= i < matmul_registry().len() && is_matmul_plan(plan, lhs@, rhs@, out@)
                ==> #[trigger] call_requires(*bench, (matmul_registry()[i], &plan)),
        forall|i: int|
            0 <= i < matmul_registry().len() ==> call_requires(run, (#[trigger] matmul_registry()[i],)),
    ensures
        final(tuner).wf(),
        final(tuner).registered() == old(tuner).registered(),
        strategy == MatmulStrategy::Cube ==> final(tuner)@ == old(tuner)@ && ran_default(cube, r),
        strategy == MatmulStrategy::Autotune ==> exists|e: Result<Execution<T>, TuneError>|
            #[trigger] output_of(e, r) && tuned(
                old(tuner)@,
                final(tuner)@,
                *id,
                matmul_key(lhs@, rhs@, dtype),
                matmul_registry(),
                matmul_plans(lhs@, rhs@, out@),
                *bench,
                run,
                e,
            ),
{
    match strategy {
        MatmulStrategy::Cube => match cube() {
            Ok(output) => Ok(output),
            Err(failure) => Err(TuneError::KernelFailed(failure)),
        },
        MatmulStrategy::Autotune => {
            let e = matmul_autotune(tuner, id, lhs, rhs, out, dtype, bench, run);
            let ghost execution = e;
            let r = match e {
                Ok(execution) => Ok(execution.output),
                Err(x) => Err(x),
            };
            assert(output_of(execution, r));
            r
        },
    }
}

/// Key building is a function of the parameters: factors with the same
/// shapes and element type have the same key.
pub proof fn lemma_matmul_key_deterministic(
    lhs_a: TensorView,
    rhs_a: TensorView,
    lhs_b: TensorView,
    rhs_b: TensorView,
    dtype: DType,
)
    requires
        lhs_a.dims =~= lhs_b.dims,
        rhs_a.dims =~= rhs_b.dims,
    ensures
        matmul_key(lhs_a, rhs_a, dtype) == matmul_key(lhs_b, rhs_b, dtype),
{
}

/// If the tiling kernel declines on the planned operands while the simple
/// kernel runs, a matrix product never fails for want of candidates, the
/// cached winner is never the tiling kernel, and no call is dispatched to it.
/// This holds on a cache miss and on a hit, provided the cache holds neither
/// a failure nor the tiling kernel for the key; a cache that started empty
/// under these conditions never does.
pub proof fn lemma_tiling_declined_simple_runs<T, B, R>(
    before: Map<Slot, Decision>,
    after: Map<Slot, Decision>,
    id: CubeTuneId,
    lhs: TensorView,
    rhs: TensorView,
    out: TensorView,
    dtype: DType,
    bench: B,
    run: R,
    r: Result<Execution<T>, TuneError>,
) where
    B: Fn(MatmulCandidate, &MatmulInputs) -> Outcome,
    R: FnOnce(MatmulCandidate) -> Result<T, CandidateFailure>,

    requires
        tuned(
            before,
            after,
            id,
            matmul_key(lhs, rhs, dtype),
            matmul_registry(),
            matmul_plans(lhs, rhs, out),
            bench,
            run,
            r,
        ),
        matmul_key(lhs, rhs, dtype) matches Ok(k) ==> (before.contains_key((id, k)) ==> before[(
            id,
            k,
        )] is Winner && before[(id, k)] != Decision::Winner(0)),
        forall|plan: MatmulInputs, o: Outcome|
            is_matmul_plan(plan, lhs, rhs, out) && #[trigger] call_ensures(
                bench,
                (MatmulCandidate::Tiling2d, &plan),
                o,
            ) ==> o is Failed,
        forall|plan: MatmulInputs, o: Outcome|
            is_matmul_plan(plan, lhs, rhs, out) && #[trigger] call_ensures(
                bench,
                (MatmulCandidate::Simple, &plan),
                o,
            ) ==> o is Measured,
    ensures
        !(r matches Err(e) && e == TuneError::AllCandidatesFailed),
        r matches Ok(e) ==> e.candidate != 0,
        matmul_key(lhs, rhs, dtype) matches Ok(k) ==> after.contains_key((id, k)) && after[(id, k)]
            is Winner && after[(id, k)] != Decision::Winner(0),
{
    if let Ok(k) = matmul_key(lhs, rhs, dtype) {
        lemma_usable_candidate_wins(
            before,
            after,
            (id, k),
            matmul_registry(),
            matmul_plans(lhs, rhs, out),
            bench,
            run,
            r,
            2,
        );
        lemma_failing_candidate_never_wins(
            before,
            after,
            (id, k),
            matmul_registry(),
            matmul_plans(lhs, rhs, out),
            bench,
            run,
            r,
            0,
        );
    }
}

/// If all three matmul kernels decline or fail on the planned operands, a
/// matrix product with a key fails with `AllCandidatesFailed` and never
/// returns a result. This holds on a cache miss and on a hit, provided the
/// cache holds no winner for the key; a cache that started empty under this
/// condition never does.
pub proof fn lemma_matmul_all_failing<T, B, R>(
    before: Map<Slot, Decision>,
    after: Map<Slot, Decision>,
    id: CubeTuneId,
    lhs: TensorView,
    rhs: TensorView,
    out: TensorView,
    dtype: DType,
    bench: B,
    run: R,
    r: Result<Execution<T>, TuneError>,
) where
    B: Fn(MatmulCandidate, &MatmulInputs) -> Outcome,
    R: FnOnce(MatmulCandidate) -> Result<T, CandidateFailure>,

    requires
        tuned(
            before,
            after,
            id,
            matmul_key(lhs, rhs, dtype),
            matmul_registry(),
            matmul_plans(lhs, rhs, out),
            bench,
            run,
            r,
        ),
        matmul_key(lhs, rhs, dtype) matches Ok(k) && (before.contains_key((id, k)) ==> before[(
            id,
            k,
        )] == Decision::AllFailed),
        forall|c: MatmulCandidate, plan: MatmulInputs, o: Outcome|
            is_matmul_plan(plan, lhs, rhs, out) && #[trigger] call_ensures(bench, (c, &plan), o)
                ==> o is Failed,
    ensures
        r matches Err(e) && e == TuneError::AllCandidatesFailed,
        matmul_key(lhs, rhs, dtype) matches Ok(k) && after.contains_key((id, k)) && after[(id, k)]
            == Decision::AllFailed,
{
    let k = matmul_key(lhs, rhs, dtype)->Ok_0;
    lemma_all_declined_fails(
        before,
        after,
        (id, k),
        matmul_registry(),
        matmul_plans(lhs, rhs, out),
        bench,
        run,
        r,
    );
}

} // verus!
