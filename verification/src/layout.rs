//! Shapes and layouts.
//!
//! A layout says where the elements of a tensor lie in a storage: element
//! `(i0, i1, ..)` lies at `start_offset + i0 * stride[0] + i1 * stride[1] + ..`.
//! It owns no storage. The caller holds it and hands it in with each storage.

use crate::error::WgpuError;
use vstd::prelude::*;

verus! {

/// The number of elements of a tensor with dimensions `dims`.
pub open spec fn count(dims: Seq<usize>) -> nat
    decreases dims.len(),
{
    if dims.len() == 0 {
        1
    } else {
        count(dims.drop_last()) * dims.last() as nat
    }
}

/// Every dimension holds at least one element.
pub open spec fn positive(dims: Seq<usize>) -> bool {
    forall|i: int| 0 <= i < dims.len() ==> dims[i] > 0
}

/// How far the last element lies behind the first: the sum of
/// `(dims[i] - 1) * stride[i]`.
pub open spec fn extent(dims: Seq<usize>, stride: Seq<usize>) -> nat
    recommends
        dims.len() == stride.len(),
        positive(dims),
    decreases dims.len(),
{
    if dims.len() == 0 || stride.len() == 0 {
        0
    } else {
        extent(dims.drop_last(), stride.drop_last()) + ((dims.last() - 1) * stride.last()) as nat
    }
}

/// How far element number `k` lies behind the first, counting the elements
/// in row-major order: the last index runs fastest.
pub open spec fn offset_of(dims: Seq<usize>, stride: Seq<usize>, k: nat) -> nat
    recommends
        dims.len() == stride.len(),
        positive(dims),
    decreases dims.len(),
{
    if dims.len() == 0 || stride.len() == 0 || dims.last() == 0 {
        0
    } else {
        offset_of(dims.drop_last(), stride.drop_last(), k / (dims.last() as nat)) + (k % (
        dims.last() as nat)) * (stride.last() as nat)
    }
}

/// The strides of a tensor whose elements lie one after the other: each
/// stride is the number of elements of the dimensions behind it.
pub open spec fn row_major(dims: Seq<usize>) -> Seq<nat> {
    Seq::new(dims.len(), |i: int| count(dims.skip(i + 1)))
}

/// A tensor whose dimensions are all positive has at least one element.
pub proof fn lemma_count_at_least_one(dims: Seq<usize>)
    requires
        positive(dims),
    ensures
        count(dims) >= 1,
    decreases dims.len(),
{
    if dims.len() > 0 {
        lemma_count_at_least_one(dims.drop_last());
        assert(count(dims.drop_last()) * dims.last() as nat >= 1) by (nonlinear_arith)
            requires
                count(dims.drop_last()) >= 1,
                dims.last() >= 1,
        ;
    }
}

/// No element lies further behind the first than the last one does.
pub proof fn lemma_offset_within_extent(dims: Seq<usize>, stride: Seq<usize>, k: nat)
    requires
        dims.len() == stride.len(),
        positive(dims),
    ensures
        offset_of(dims, stride, k) <= extent(dims, stride),
    decreases dims.len(),
{
    if dims.len() > 0 {
        let d = dims.last() as nat;
        let s = stride.last() as nat;
        lemma_offset_within_extent(dims.drop_last(), stride.drop_last(), k / d);
        assert((k % d) * s <= (d - 1) * s) by (nonlinear_arith)
            requires
                d > 0,
                k % d < d,
        ;
    }
}

/// The dimensions of a tensor.
#[derive(Clone, Debug, PartialEq, Eq)]
pub struct Shape {
    dims: Vec<usize>,
}

impl View for Shape {
    type V = Seq<usize>;

    closed spec fn view(&self) -> Seq<usize> {
        self.dims@
    }
}

impl Shape {
    /// The shape with dimensions `dims`.
    pub fn from_dims(dims: Vec<usize>) -> (shape: Shape)
        ensures
            shape@ == dims@,
    {
        Shape { dims }
    }

    pub fn dims(&self) -> (dims: &Vec<usize>)
        ensures
            dims@ == self@,
    {
        &self.dims
    }

    /// The number of dimensions.
    pub fn rank(&self) -> (n: usize)
        ensures
            n == self@.len(),
    {
        self.dims.len()
    }

    /// The number of elements, unless it exceeds what a storage can hold.
    pub fn elem_count(&self) -> (n: Option<usize>)
        ensures
            n is Some <==> count(self@) <= usize::MAX,
            n matches Some(c) ==> c == count(self@),
    {
        checked_count(&self.dims)
    }
}

/// The product of `dims`, unless it exceeds `usize::MAX`.
pub fn checked_count(dims: &Vec<usize>) -> (n: Option<usize>)
    ensures
        n is Some <==> count(dims@) <= usize::MAX,
        n matches Some(c) ==> c == count(dims@),
{
    let mut i: usize = 0;
    let mut zero: bool = false;
    while i < dims.len()
        invariant
            i <= dims.len(),
            zero <==> exists|j: int| 0 <= j < i && dims@[j] == 0,
        decreases dims.len() - i,
    {
        if dims[i] == 0 {
            zero = true;
        }
        i += 1;
    }
    if zero {
        proof {
            let j = choose|j: int| 0 <= j < dims@.len() && dims@[j] == 0;
            lemma_count_zero(dims@, j);
        }
        return Some(0);
    }
    let mut product: usize = 1;
    let mut i: usize = 0;
    while i < dims.len()
        invariant
            i <= dims.len(),
            positive(dims@),
            product == count(dims@.take(i as int)),
        decreases dims.len() - i,
    {
        proof {
            assert(dims@.take(i + 1).drop_last() =~= dims@.take(i as int));
            lemma_count_grows(dims@, i + 1);
        }
        match product.checked_mul(dims[i]) {
            Some(p) => {
                product = p;
            },
            None => {
                return None;
            },
        }
        i += 1;
    }
    proof {
        assert(dims@.take(dims@.len() as int) =~= dims@);
    }
    Some(product)
}

/// A zero dimension leaves no elements.
pub proof fn lemma_count_zero(dims: Seq<usize>, j: int)
    requires
        0 <= j < dims.len(),
        dims[j] == 0,
    ensures
        count(dims) == 0,
    decreases dims.len(),
{
    if j == dims.len() - 1 {
        assert(count(dims.drop_last()) * 0 == 0) by (nonlinear_arith);
    } else {
        lemma_count_zero(dims.drop_last(), j);
        assert(0 * (dims.last() as nat) == 0) by (nonlinear_arith);
    }
}

/// With positive dimensions, the first `n` of them hold no more elements
/// than all of them.
pub proof fn lemma_count_grows(dims: Seq<usize>, n: int)
    requires
        positive(dims),
        0 <= n <= dims.len(),
    ensures
        count(dims.take(n)) <= count(dims),
    decreases dims.len() - n,
{
    if n < dims.len() {
        lemma_count_grows(dims, n + 1);
        assert(dims.take(n + 1).drop_last() =~= dims.take(n));
        assert(count(dims.take(n)) <= count(dims.take(n)) * (dims[n] as nat)) by (nonlinear_arith)
            requires
                dims[n] > 0,
        ;
    } else {
        assert(dims.take(n) =~= dims);
    }
}

/// What a layout is: dimensions, one stride for each, and the offset of the
/// first element.
pub struct LayoutView {
    pub dims: Seq<usize>,
    pub stride: Seq<usize>,
    pub start_offset: usize,
}

impl LayoutView {
    /// One stride for each dimension, and no dimension without elements.
    pub open spec fn wf(self) -> bool {
        &&& self.dims.len() == self.stride.len()
        &&& positive(self.dims)
    }

    /// Every element lies inside a storage of `len` elements.
    pub open spec fn fits(self, len: nat) -> bool {
        self.start_offset + extent(self.dims, self.stride) < len
    }

    /// The place in the storage of element number `k`, in row-major order.
    pub open spec fn index(self, k: nat) -> nat {
        self.start_offset as nat + offset_of(self.dims, self.stride, k)
    }

    /// The elements lie one after the other, in row-major order.
    pub open spec fn contiguous(self) -> bool {
        self.stride.map_values(|s: usize| s as nat) == row_major(self.dims)
    }
}

/// A view descriptor over a storage: shape, strides and start offset.
#[derive(Debug, PartialEq, Eq)]
pub struct Layout {
    shape: Shape,
    stride: Vec<usize>,
    start_offset: usize,
}

impl View for Layout {
    type V = LayoutView;

    closed spec fn view(&self) -> LayoutView {
        LayoutView { dims: self.shape@, stride: self.stride@, start_offset: self.start_offset }
    }
}

impl Layout {
    #[verifier::type_invariant]
    spec fn inv(&self) -> bool {
        self@.wf()
    }

    /// The layout with the given shape, strides and start offset.
    ///
    /// It is refused where the strides are not one for each dimension, or a
    /// dimension has no elements.
    pub fn new(shape: Shape, stride: Vec<usize>, start_offset: usize) -> (r: Result<
        Layout,
        WgpuError,
    >)
        ensures
            r is Ok <==> shape@.len() == stride@.len() && positive(shape@),
            r matches Ok(l) ==> l@ == (LayoutView {
                dims: shape@,
                stride: stride@,
                start_offset: start_offset,
            }),
            r matches Err(e) ==> e == WgpuError::LayoutError,
    {
        if shape.rank() != stride.len() {
            return Err(WgpuError::LayoutError);
        }
        if !all_positive(shape.dims()) {
            return Err(WgpuError::LayoutError);
        }
        Ok(Layout { shape, stride, start_offset })
    }

    /// The layout of a tensor of the given shape whose elements lie one after
    /// the other from the start of the storage.
    ///
    /// It is refused where a dimension has no elements, or the tensor has
    /// more elements than a storage can hold.
    pub fn contiguous(shape: Shape) -> (r: Result<Layout, WgpuError>)
        ensures
            r is Ok <==> positive(shape@) && count(shape@) <= usize::MAX,
            r matches Ok(l) ==> {
                &&& l@.dims == shape@
                &&& l@.start_offset == 0
                &&& l@.contiguous()
            },
            r matches Err(e) ==> e == WgpuError::LayoutError,
    {
        if !all_positive(shape.dims()) {
            return Err(WgpuError::LayoutError);
        }
        match row_major_strides(shape.dims()) {
            Some(stride) => Ok(Layout { shape, stride, start_offset: 0 }),
            None => Err(WgpuError::LayoutError),
        }
    }

    pub fn shape(&self) -> (shape: &Shape)
        ensures
            shape@ == self@.dims,
            self@.wf(),
    {
        proof {
            use_type_invariant(self);
        }
        &self.shape
    }

    pub fn dims(&self) -> (dims: &Vec<usize>)
        ensures
            dims@ == self@.dims,
            self@.wf(),
    {
        proof {
            use_type_invariant(self);
        }
        self.shape.dims()
    }

    pub fn stride(&self) -> (stride: &Vec<usize>)
        ensures
            stride@ == self@.stride,
            self@.wf(),
    {
        proof {
            use_type_invariant(self);
        }
        &self.stride
    }

    pub fn start_offset(&self) -> (offset: usize)
        ensures
            offset == self@.start_offset,
    {
        self.start_offset
    }

    /// Whether every element lies inside a storage of `len` elements.
    pub fn fits(&self, len: usize) -> (ok: bool)
        ensures
            ok == self@.fits(len as nat),
    {
        proof {
            use_type_invariant(self);
        }
        match checked_extent(self.shape.dims(), &self.stride) {
            Some(e) => match e.checked_add(self.start_offset) {
                Some(last) => last < len,
                None => false,
            },
            None => false,
        }
    }

    /// Whether the elements lie one after the other, in row-major order.
    pub fn is_contiguous(&self) -> (c: bool)
        ensures
            c == self@.contiguous(),
    {
        proof {
            use_type_invariant(self);
        }
        let dims: &Vec<usize> = self.shape.dims();
        let n: usize = dims.len();
        let ghost strides = self.stride@.map_values(|s: usize| s as nat);
        let mut expected: usize = 1;
        let mut i: usize = n;
        proof {
            assert(dims@.skip(n as int) =~= Seq::<usize>::empty());
        }
        while i > 0
            invariant
                i <= n,
                n == dims@.len(),
                n == self.stride@.len(),
                dims@ == self@.dims,
                self.stride@ == self@.stride,
                strides == self.stride@.map_values(|s: usize| s as nat),
                positive(dims@),
                i > 0 ==> expected == count(dims@.skip(i as int)),
                forall|j: int| i <= j < n ==> self.stride@[j] == count(dims@.skip(j + 1)),
            decreases i,
        {
            i -= 1;
            if self.stride[i] != expected {
                proof {
                    assert(strides[i as int] == self.stride@[i as int]);
                    assert(row_major(dims@)[i as int] == count(dims@.skip(i + 1)));
                }
                return false;
            }
            if i > 0 {
                proof {
                    lemma_count_skip(dims@, i as int);
                    let d = dims@[i as int] as nat;
                    let p = expected as nat;
                    assert(p * d == d * p) by (nonlinear_arith);
                }
                expected = match expected.checked_mul(dims[i]) {
                    Some(p) => p,
                    None => {
                        proof {
                            assert(strides[i - 1] == self.stride@[i - 1]);
                            assert(row_major(dims@)[i - 1] == count(dims@.skip(i as int)));
                        }
                        return false;
                    },
                };
            }
        }
        proof {
            assert(strides =~= row_major(dims@));
        }
        true
    }

    /// The place of element number `k`, in row-major order, in a storage of
    /// `len` elements: `None` where the layout leaves the storage.
    pub fn strided_index(&self, k: usize, len: usize) -> (at: Option<usize>)
        ensures
            at is Some <==> self@.fits(len as nat),
            at matches Some(i) ==> i == self@.index(k as nat) && i < len,
    {
        if self.fits(len) {
            Some(self.index(k, len))
        } else {
            None
        }
    }

    /// The place of element number `k`, in row-major order, in a storage of
    /// `len` elements that the layout fits.
    pub(crate) fn index(&self, k: usize, len: usize) -> (at: usize)
        requires
            self@.fits(len as nat),
        ensures
            at == self@.index(k as nat),
            at < len,
    {
        proof {
            use_type_invariant(self);
            lemma_offset_within_extent(self@.dims, self@.stride, k as nat);
        }
        let dims: &Vec<usize> = self.shape.dims();
        let mut at: usize = self.start_offset;
        let mut rest: usize = k;
        let mut i: usize = dims.len();
        proof {
            assert(dims@.take(i as int) =~= dims@);
            assert(self.stride@.take(i as int) =~= self.stride@);
        }
        while i > 0
            invariant
                i <= dims@.len(),
                dims@ == self@.dims,
                dims@.len() == self.stride@.len(),
                self.stride@ == self@.stride,
                positive(dims@),
                self@.start_offset + offset_of(dims@, self.stride@, k as nat) < len,
                at + offset_of(dims@.take(i as int), self.stride@.take(i as int), rest as nat)
                    == self@.start_offset + offset_of(dims@, self.stride@, k as nat),
            decreases i,
        {
            i -= 1;
            let d: usize = dims[i];
            let s: usize = self.stride[i];
            proof {
                let front_d = dims@.take(i + 1);
                let front_s = self.stride@.take(i + 1);
                assert(front_d.drop_last() =~= dims@.take(i as int));
                assert(front_s.drop_last() =~= self.stride@.take(i as int));
                assert(front_d.last() == d);
                assert(front_s.last() == s);
                assert(offset_of(front_d, front_s, rest as nat) == offset_of(
                    dims@.take(i as int),
                    self.stride@.take(i as int),
                    (rest as nat) / (d as nat),
                ) + ((rest as nat) % (d as nat)) * (s as nat));
                assert(((rest as nat) % (d as nat)) * (s as nat) >= 0) by (nonlinear_arith);
            }
            let step: usize = (rest % d) * s;
            at = at + step;
            rest = rest / d;
        }
        proof {
            assert(dims@.take(0) =~= Seq::<usize>::empty());
        }
        at
    }
}

/// Whether every dimension holds at least one element.
pub fn all_positive(dims: &Vec<usize>) -> (ok: bool)
    ensures
        ok == positive(dims@),
{
    let mut i: usize = 0;
    while i < dims.len()
        invariant
            i <= dims.len(),
            forall|j: int| 0 <= j < i ==> dims@[j] > 0,
        decreases dims.len() - i,
    {
        if dims[i] == 0 {
            return false;
        }
        i += 1;
    }
    true
}

/// The extent of the layout with dimensions `dims` and strides `stride`,
/// unless it exceeds `usize::MAX`.
fn checked_extent(dims: &Vec<usize>, stride: &Vec<usize>) -> (r: Option<usize>)
    requires
        dims@.len() == stride@.len(),
        positive(dims@),
    ensures
        r is Some <==> extent(dims@, stride@) <= usize::MAX,
        r matches Some(e) ==> e == extent(dims@, stride@),
{
    let mut sum: usize = 0;
    let mut i: usize = 0;
    while i < dims.len()
        invariant
            i <= dims@.len(),
            dims@.len() == stride@.len(),
            positive(dims@),
            sum == extent(dims@.take(i as int), stride@.take(i as int)),
        decreases dims.len() - i,
    {
        proof {
            assert(dims@.take(i + 1).drop_last() =~= dims@.take(i as int));
            assert(stride@.take(i + 1).drop_last() =~= stride@.take(i as int));
            lemma_extent_grows(dims@, stride@, i + 1);
            assert((dims@[i as int] - 1) * stride@[i as int] >= 0) by (nonlinear_arith)
                requires
                    dims@[i as int] > 0,
            ;
        }
        let term: usize = match (dims[i] - 1).checked_mul(stride[i]) {
            Some(t) => t,
            None => {
                return None;
            },
        };
        sum = match sum.checked_add(term) {
            Some(t) => t,
            None => {
                return None;
            },
        };
        i += 1;
    }
    proof {
        assert(dims@.take(dims@.len() as int) =~= dims@);
        assert(stride@.take(dims@.len() as int) =~= stride@);
    }
    Some(sum)
}

/// The extent of the first `n` dimensions is no more than that of all.
pub proof fn lemma_extent_grows(dims: Seq<usize>, stride: Seq<usize>, n: int)
    requires
        dims.len() == stride.len(),
        positive(dims),
        0 <= n <= dims.len(),
    ensures
        extent(dims.take(n), stride.take(n)) <= extent(dims, stride),
    decreases dims.len() - n,
{
    if n < dims.len() {
        lemma_extent_grows(dims, stride, n + 1);
        assert(dims.take(n + 1).drop_last() =~= dims.take(n));
        assert(stride.take(n + 1).drop_last() =~= stride.take(n));
        assert((dims[n] - 1) * stride[n] >= 0) by (nonlinear_arith)
            requires
                dims[n] > 0,
        ;
    } else {
        assert(dims.take(n) =~= dims);
        assert(stride.take(n) =~= stride);
    }
}

/// The row-major strides of `dims`, unless the tensor has more elements than
/// `usize::MAX`.
fn row_major_strides(dims: &Vec<usize>) -> (r: Option<Vec<usize>>)
    requires
        positive(dims@),
    ensures
        r is Some <==> count(dims@) <= usize::MAX,
        r matches Some(stride) ==> {
            &&& stride@.len() == dims@.len()
            &&& stride@.map_values(|s: usize| s as nat) == row_major(dims@)
        },
{
    let n: usize = dims.len();
    let mut stride: Vec<usize> = Vec::new();
    let mut i: usize = 0;
    while i < n
        invariant
            i <= n,
            n == dims@.len(),
            stride@.len() == i,
        decreases n - i,
    {
        stride.push(1);
        i += 1;
    }
    let mut product: usize = 1;
    let mut i: usize = n;
    proof {
        assert(dims@.skip(n as int) =~= Seq::<usize>::empty());
    }
    while i > 0
        invariant
            i <= n,
            n == dims@.len(),
            stride@.len() == n,
            positive(dims@),
            product == count(dims@.skip(i as int)),
            forall|j: int| i <= j < n ==> stride@[j] == count(dims@.skip(j + 1)),
        decreases i,
    {
        i -= 1;
        stride.set(i, product);
        proof {
            lemma_count_skip(dims@, i as int);
            lemma_count_suffix(dims@, i as int);
            let d = dims@[i as int] as nat;
            let p = product as nat;
            assert(p * d == d * p) by (nonlinear_arith);
            assert(product * dims@[i as int] == count(dims@.skip(i as int)));
        }
        product = match product.checked_mul(dims[i]) {
            Some(p) => p,
            None => {
                return None;
            },
        };
    }
    proof {
        assert(dims@.skip(0) =~= dims@);
        assert(stride@.map_values(|s: usize| s as nat) =~= row_major(dims@));
    }
    Some(stride)
}

/// The elements behind dimension `i`, times dimension `i`, are the elements
/// from dimension `i` on.
pub proof fn lemma_count_skip(dims: Seq<usize>, i: int)
    requires
        0 <= i < dims.len(),
    ensures
        count(dims.skip(i)) == (dims[i] as nat) * count(dims.skip(i + 1)),
    decreases dims.len() - i,
{
    let tail = dims.skip(i);
    if i == dims.len() - 1 {
        assert(tail.drop_last() =~= Seq::<usize>::empty());
        assert(dims.skip(i + 1) =~= Seq::<usize>::empty());
        assert(tail.len() == 1 && tail.last() == dims[i]);
        assert(count(Seq::<usize>::empty()) == 1);
        assert(count(tail) == count(tail.drop_last()) * (tail.last() as nat));
        assert(count(tail) == 1 * (dims[i] as nat));
        assert(1 * (dims[i] as nat) == (dims[i] as nat) * 1) by (nonlinear_arith);
    } else {
        lemma_count_skip(dims.drop_last(), i);
        assert(tail.drop_last() =~= dims.drop_last().skip(i));
        assert(dims.skip(i + 1).drop_last() =~= dims.drop_last().skip(i + 1));
        let a = dims[i] as nat;
        let b = count(dims.drop_last().skip(i + 1));
        let c = dims.last() as nat;
        assert((a * b) * c == a * (b * c)) by (nonlinear_arith);
    }
}

/// With positive dimensions, the dimensions from `i` on hold no more
/// elements than all of them.
pub proof fn lemma_count_suffix(dims: Seq<usize>, i: int)
    requires
        positive(dims),
        0 <= i <= dims.len(),
    ensures
        count(dims.skip(i)) <= count(dims),
    decreases i,
{
    if i > 0 {
        lemma_count_suffix(dims, i - 1);
        lemma_count_skip(dims, i - 1);
        assert(count(dims.skip(i)) <= (dims[i - 1] as nat) * count(dims.skip(i)))
            by (nonlinear_arith)
            requires
                dims[i - 1] > 0,
        ;
    } else {
        assert(dims.skip(0) =~= dims);
    }
}

/// Where every stride is `c` times its row-major stride, element number `k`
/// lies `c * k` behind the first.
pub proof fn lemma_scaled_offsets(dims: Seq<usize>, stride: Seq<usize>, c: nat, k: nat)
    requires
        dims.len() == stride.len(),
        positive(dims),
        forall|i: int| 0 <= i < dims.len() ==> stride[i] == c * count(dims.skip(i + 1)),
        k < count(dims),
    ensures
        offset_of(dims, stride, k) == c * k,
    decreases dims.len(),
{
    if dims.len() > 0 {
        let n = dims.len() as int;
        let d = dims.last() as nat;
        let front = dims.drop_last();
        let front_stride = stride.drop_last();
        assert(dims.skip(n) =~= Seq::<usize>::empty());
        assert(count(dims.skip(n)) == 1);
        assert(stride.last() == c * 1);
        assert(c * 1 == c) by (nonlinear_arith);
        assert forall|i: int| 0 <= i < front.len() implies front_stride[i] == (c * d) * count(
            front.skip(i + 1),
        ) by {
            assert(dims.skip(i + 1).drop_last() =~= front.skip(i + 1));
            assert(dims.skip(i + 1).last() == dims.last());
            let m = count(front.skip(i + 1));
            assert(c * (m * d) == (c * d) * m) by (nonlinear_arith);
        }
        assert(k / d < count(front)) by (nonlinear_arith)
            requires
                k < count(front) * d,
                d > 0,
        ;
        lemma_scaled_offsets(front, front_stride, c * d, k / d);
        vstd::arithmetic::div_mod::lemma_fundamental_div_mod(k as int, d as int);
        assert((c * d) * (k / d) + (k % d) * c == c * k) by (nonlinear_arith)
            requires
                d > 0,
                k == d * (k / d) + k % d,
        ;
    } else {
        assert(c * 0 == 0) by (nonlinear_arith);
    }
}

impl LayoutView {
    /// In a contiguous layout the elements follow the first one in order.
    pub proof fn lemma_contiguous_index(self, k: nat)
        requires
            self.wf(),
            self.contiguous(),
            k < count(self.dims),
        ensures
            self.index(k) == self.start_offset + k,
    {
        let strides = self.stride.map_values(|s: usize| s as nat);
        assert forall|i: int| 0 <= i < self.dims.len() implies self.stride[i] == 1 * count(
            self.dims.skip(i + 1),
        ) by {
            assert(strides[i] == self.stride[i]);
            assert(row_major(self.dims)[i] == count(self.dims.skip(i + 1)));
        }
        lemma_scaled_offsets(self.dims, self.stride, 1, k);
    }
}

} // verus!
