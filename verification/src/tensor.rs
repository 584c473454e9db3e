//! Plain descriptions of tensors: element type, shape and strides. The
//! selection logic reads nothing else of an operand.

use vstd::prelude::*;

verus! {

/// The element type of a tensor.
#[derive(Clone, Copy, Debug, PartialEq, Eq, Hash, Structural)]
pub enum DType {
    F64,
    F32,
    Flex32,
    F16,
    BF16,
    I64,
    I32,
    I16,
    I8,
    U64,
    U32,
    U16,
    U8,
    Bool,
    QFloat,
}

/// The product of all entries of `s`; one for the empty sequence.
pub open spec fn product(s: Seq<usize>) -> nat
    decreases s.len(),
{
    if s.len() == 0 {
        1
    } else {
        product(s.drop_last()) * (s.last() as nat)
    }
}

/// Row-major strides of a shape: the stride of an axis is the product of the
/// sizes of all axes after it.
pub open spec fn row_major(dims: Seq<usize>) -> Seq<nat> {
    Seq::new(dims.len(), |i: int| product(dims.skip(i + 1)))
}

/// Whether every stride of the row-major layout of `dims`, and its element
/// count, fit the machine word.
pub open spec fn suffixes_fit(dims: Seq<usize>) -> bool {
    forall|i: int| 0 <= i <= dims.len() ==> #[trigger] product(dims.skip(i)) <= usize::MAX
}

/// Whether `strides` holds the row-major strides of `dims`.
pub open spec fn is_row_major(dims: Seq<usize>, strides: Seq<usize>) -> bool {
    &&& strides.len() == dims.len()
    &&& forall|i: int| 0 <= i < dims.len() ==> strides[i] as nat == #[trigger] row_major(dims)[i]
}

/// Extending a prefix by one entry multiplies its product by that entry.
pub proof fn lemma_product_step(s: Seq<usize>, i: int)
    requires
        0 <= i < s.len(),
    ensures
        product(s.take(i + 1)) == product(s.take(i)) * (s[i] as nat),
{
    assert(s.take(i + 1).drop_last() =~= s.take(i));
}

/// A suffix's product is its first entry times the product of the rest.
pub proof fn lemma_product_front(s: Seq<usize>)
    requires
        s.len() > 0,
    ensures
        product(s) == (s[0] as nat) * product(s.skip(1)),
    decreases s.len(),
{
    let first = s[0] as nat;
    let last = s.last() as nat;
    if s.len() == 1 {
        assert(s.drop_last().len() == 0);
        assert(s.skip(1).len() == 0);
        assert(product(s.drop_last()) == 1);
        assert(product(s.skip(1)) == 1);
        assert(product(s) == 1 * last);
        assert(first * 1 == first) by (nonlinear_arith);
    } else {
        lemma_product_front(s.drop_last());
        assert(s.drop_last().skip(1) =~= s.skip(1).drop_last());
        assert(s.skip(1).last() == s.last());
        assert(s.drop_last()[0] == s[0]);
        let mid = product(s.skip(1).drop_last());
        assert(product(s.skip(1)) == mid * last);
        assert(product(s) == (first * mid) * last);
        assert((first * mid) * last == first * (mid * last)) by (nonlinear_arith);
    }
}

/// A sequence with a zero entry has product zero.
pub proof fn lemma_product_zero(s: Seq<usize>, i: int)
    requires
        0 <= i < s.len(),
        s[i] == 0,
    ensures
        product(s) == 0,
    decreases s.len(),
{
    if i < s.len() - 1 {
        lemma_product_zero(s.drop_last(), i);
        assert(0 * (s.last() as nat) == 0);
    } else {
        assert(product(s.drop_last()) * 0 == 0);
    }
}

/// Without a zero entry, no prefix has a larger product than the whole.
pub proof fn lemma_product_prefix(s: Seq<usize>, i: int)
    requires
        0 <= i <= s.len(),
        forall|j: int| 0 <= j < s.len() ==> s[j] != 0,
    ensures
        1 <= product(s.take(i)) <= product(s),
    decreases s.len() - i,
{
    if i == s.len() {
        assert(s.take(i) =~= s);
        lemma_product_positive(s);
    } else {
        lemma_product_prefix(s, i + 1);
        lemma_product_step(s, i);
        lemma_product_positive(s.take(i));
        let a = product(s.take(i));
        let b = s[i] as nat;
        assert(a <= a * b) by (nonlinear_arith)
            requires
                a >= 1,
                b >= 1,
        ;
    }
}

/// Without a zero entry the product is positive.
pub proof fn lemma_product_positive(s: Seq<usize>)
    requires
        forall|j: int| 0 <= j < s.len() ==> s[j] != 0,
    ensures
        product(s) >= 1,
    decreases s.len(),
{
    if s.len() > 0 {
        lemma_product_positive(s.drop_last());
        let a = product(s.drop_last());
        let b = s.last() as nat;
        assert(a * b >= 1) by (nonlinear_arith)
            requires
                a >= 1,
                b >= 1,
        ;
    }
}

/// The product of the entries of `v`, or `None` when it does not fit the
/// machine word.
pub fn checked_product(v: &Vec<usize>) -> (r: Option<usize>)
    ensures
        match r {
            Some(p) => p as nat == product(v@),
            None => product(v@) > usize::MAX,
        },
{
    let mut i: usize = 0;
    while i < v.len()
        invariant
            i <= v.len(),
            forall|j: int| 0 <= j < i ==> v@[j] != 0,
        decreases v.len() - i,
    {
        if v[i] == 0 {
            proof {
                lemma_product_zero(v@, i as int);
            }
            return Some(0);
        }
        i = i + 1;
    }
    let mut acc: usize = 1;
    let mut k: usize = 0;
    while k < v.len()
        invariant
            k <= v.len(),
            forall|j: int| 0 <= j < v.len() ==> v@[j] != 0,
            acc as nat == product(v@.take(k as int)),
        decreases v.len() - k,
    {
        proof {
            lemma_product_step(v@, k as int);
            lemma_product_prefix(v@, k as int + 1);
        }
        match acc.checked_mul(v[k]) {
            Some(next) => {
                acc = next;
            },
            None => {
                return None;
            },
        }
        k = k + 1;
    }
    proof {
        assert(v@.take(v.len() as int) =~= v@);
    }
    Some(acc)
}

/// What the selection logic knows of a tensor.
#[derive(Clone, Debug)]
pub struct TensorDesc {
    /// Element type.
    pub dtype: DType,
    /// Size of each axis.
    pub dims: Vec<usize>,
    /// Stride of each axis, in elements.
    pub strides: Vec<usize>,
}

/// The mathematical content of a [`TensorDesc`].
pub struct TensorView {
    pub dtype: DType,
    pub dims: Seq<usize>,
    pub strides: Seq<usize>,
}

impl View for TensorDesc {
    type V = TensorView;

    open spec fn view(&self) -> TensorView {
        TensorView { dtype: self.dtype, dims: self.dims@, strides: self.strides@ }
    }
}

impl TensorView {
    /// A description is well formed when every axis has a stride.
    pub open spec fn well_formed(self) -> bool {
        self.dims.len() == self.strides.len()
    }
}

impl TensorDesc {
    /// Describes a tensor by its parts.
    pub fn new(dtype: DType, dims: Vec<usize>, strides: Vec<usize>) -> (t: Self)
        ensures
            t@ == (TensorView { dtype, dims: dims@, strides: strides@ }),
    {
        TensorDesc { dtype, dims, strides }
    }

    /// A second descriptor of the same tensor.
    pub fn duplicate(&self) -> (t: Self)
        ensures
            t@ == self@,
    {
        TensorDesc { dtype: self.dtype, dims: self.dims.clone(), strides: self.strides.clone() }
    }

    /// Describes a densely packed, row-major tensor of the given shape, or
    /// `None` when a stride or the element count does not fit the machine
    /// word.
    pub fn contiguous(dtype: DType, dims: Vec<usize>) -> (r: Option<Self>)
        ensures
            r is Some <==> suffixes_fit(dims@),
            r matches Some(t) ==> {
                &&& t@.dtype == dtype
                &&& t@.dims == dims@
                &&& is_row_major(dims@, t@.strides)
            },
    {
        let n: usize = dims.len();
        let mut strides: Vec<usize> = Vec::new();
        let mut i: usize = 0;
        while i < n
            invariant
                n == dims@.len(),
                i <= n,
                strides@.len() == i,
            decreases n - i,
        {
            strides.push(0);
            i = i + 1;
        }
        let mut acc: usize = 1;
        let mut k: usize = n;
        proof {
            assert(dims@.skip(n as int) =~= Seq::<usize>::empty());
        }
        while k > 0
            invariant
                n == dims@.len(),
                k <= n,
                strides@.len() == n,
                acc as nat == product(dims@.skip(k as int)),
                forall|j: int| k <= j <= n ==> #[trigger] product(dims@.skip(j)) <= usize::MAX,
                forall|j: int|
                    k <= j < n ==> strides@[j] as nat == #[trigger] row_major(dims@)[j],
            decreases k,
        {
            k = k - 1;
            strides.set(k, acc);
            proof {
                lemma_product_front(dims@.skip(k as int));
                assert(dims@.skip(k as int).skip(1) =~= dims@.skip(k as int + 1));
                let size = dims@[k as int] as nat;
                assert(acc as nat * size == size * (acc as nat)) by (nonlinear_arith);
            }
            match acc.checked_mul(dims[k]) {
                Some(next) => {
                    acc = next;
                },
                None => {
                    return None;
                },
            }
        }
        Some(TensorDesc { dtype, dims, strides })
    }

    /// The number of axes.
    pub fn rank(&self) -> (r: usize)
        ensures
            r == self@.dims.len(),
    {
        self.dims.len()
    }

    /// The number of elements, or `None` when it does not fit the machine
    /// word.
    pub fn num_elements(&self) -> (r: Option<usize>)
        ensures
            match r {
                Some(p) => p as nat == product(self@.dims),
                None => product(self@.dims) > usize::MAX,
            },
    {
        checked_product(&self.dims)
    }
}

/// A shape of a single axis can always be laid out.
pub proof fn lemma_single_axis_fits(n: usize)
    ensures
        suffixes_fit(seq![n]),
{
    let s = seq![n];
    assert forall|i: int| 0 <= i <= s.len() implies #[trigger] product(s.skip(i))
        <= usize::MAX by {
        if i == 0 {
            assert(s.skip(0) =~= s);
            assert(s.drop_last() =~= Seq::<usize>::empty());
            assert(product(s.drop_last()) == 1);
            assert(product(s) == 1 * (n as nat));
        } else {
            assert(s.skip(i) =~= Seq::<usize>::empty());
        }
    }
}

} // verus!
