//! The operations that the backend does not implement yet.
//!
//! Each belongs to the backend contract, so each can be called. A call never
//! computes anything and never aborts: it fails, and the failure names the
//! operation. Where storages of several device contexts meet, the call fails
//! with `DeviceMismatch` first, as every operation on several storages does.

use crate::device::WgpuDevice;
use crate::dtype::DType;
use crate::error::{Op, WgpuError};
use crate::layout::{Layout, Shape};
use crate::storage::{same_context, WgpuStorage};
use vstd::prelude::*;

verus! {

/// A comparison of two elements.
#[derive(Clone, Copy, Debug, PartialEq, Eq, Hash, Structural)]
pub enum CmpOp {
    Eq,
    Ne,
    Le,
    Ge,
    Lt,
    Gt,
}

/// A reduction over dimensions.
#[derive(Clone, Copy, Debug, PartialEq, Eq, Hash, Structural)]
pub enum ReduceOp {
    Sum,
    Min,
    Max,
    ArgMin,
    ArgMax,
}

/// An operation on one element.
#[derive(Clone, Copy, Debug, PartialEq, Eq, Hash, Structural)]
pub enum UnaryOp {
    Exp,
    Log,
    Sin,
    Cos,
    Abs,
    Neg,
    Recip,
    Sqr,
    Sqrt,
    Gelu,
    Relu,
    Tanh,
}

/// An operation on two elements.
#[derive(Clone, Copy, Debug, PartialEq, Eq, Hash, Structural)]
pub enum BinaryOp {
    Add,
    Sub,
    Mul,
    Div,
    Maximum,
    Minimum,
}

/// The parameters of a one-dimensional convolution.
#[derive(Clone, Copy, Debug, PartialEq, Eq, Structural)]
pub struct ParamsConv1D {
    pub b_size: usize,
    pub l_in: usize,
    pub c_out: usize,
    pub c_in: usize,
    pub k_size: usize,
    pub padding: usize,
    pub stride: usize,
    pub dilation: usize,
}

/// The parameters of a two-dimensional convolution.
#[derive(Clone, Copy, Debug, PartialEq, Eq, Structural)]
pub struct ParamsConv2D {
    pub b_size: usize,
    pub i_h: usize,
    pub i_w: usize,
    pub k_h: usize,
    pub k_w: usize,
    pub c_out: usize,
    pub c_in: usize,
    pub padding: usize,
    pub stride: usize,
    pub dilation: usize,
}

/// How a call of the unimplemented operation `op` fails: with
/// `DeviceMismatch` where its storages belong to different device contexts,
/// else with `Unimplemented`.
pub open spec fn refusal(op: Op, one_context: bool) -> WgpuError {
    if one_context {
        WgpuError::Unimplemented(op)
    } else {
        WgpuError::DeviceMismatch
    }
}

/// Fails as a call of the unimplemented operation `op` fails.
pub fn refuse(op: Op, one_context: bool) -> (r: Result<WgpuStorage, WgpuError>)
    ensures
        r matches Err(e) && e == refusal(op, one_context),
{
    if one_context {
        Err(WgpuError::Unimplemented(op))
    } else {
        Err(WgpuError::DeviceMismatch)
    }
}

impl WgpuStorage {
    /// Multiplies every element by `mul` and adds `add`, both given by their bit patterns. Not implemented.
    pub fn affine(&self, layout: &Layout, mul: u64, add: u64) -> (r: Result<WgpuStorage, WgpuError>)
        ensures
            r matches Err(e) && e == WgpuError::Unimplemented(Op::Affine),
    {
        refuse(Op::Affine, true)
    }

    /// The exponential linear unit with parameter `alpha`, given by its bit pattern. Not implemented.
    pub fn elu(&self, layout: &Layout, alpha: u64) -> (r: Result<WgpuStorage, WgpuError>)
        ensures
            r matches Err(e) && e == WgpuError::Unimplemented(Op::Elu),
    {
        refuse(Op::Elu, true)
    }

    /// Reduces the dimensions `dims`. Not implemented.
    pub fn reduce_op(&self, op: ReduceOp, layout: &Layout, dims: &Vec<usize>) -> (r: Result<WgpuStorage, WgpuError>)
        ensures
            r matches Err(e) && e == WgpuError::Unimplemented(Op::ReduceOp),
    {
        refuse(Op::ReduceOp, true)
    }

    /// Converts the elements to `dtype`. Not implemented.
    pub fn to_dtype(&self, layout: &Layout, dtype: DType) -> (r: Result<WgpuStorage, WgpuError>)
        ensures
            r matches Err(e) && e == WgpuError::Unimplemented(Op::ToDtype),
    {
        refuse(Op::ToDtype, true)
    }

    /// Applies `op` to every element. Not implemented.
    pub fn unary_impl(&self, op: UnaryOp, layout: &Layout) -> (r: Result<WgpuStorage, WgpuError>)
        ensures
            r matches Err(e) && e == WgpuError::Unimplemented(Op::UnaryImpl),
    {
        refuse(Op::UnaryImpl, true)
    }

    /// Average pooling over windows of size `kernel`. Not implemented.
    pub fn avg_pool2d(&self, layout: &Layout, kernel: (usize, usize), stride: (usize, usize)) -> (r: Result<WgpuStorage, WgpuError>)
        ensures
            r matches Err(e) && e == WgpuError::Unimplemented(Op::AvgPool2d),
    {
        refuse(Op::AvgPool2d, true)
    }

    /// Maximum pooling over windows of size `kernel`. Not implemented.
    pub fn max_pool2d(&self, layout: &Layout, kernel: (usize, usize), stride: (usize, usize)) -> (r: Result<WgpuStorage, WgpuError>)
        ensures
            r matches Err(e) && e == WgpuError::Unimplemented(Op::MaxPool2d),
    {
        refuse(Op::MaxPool2d, true)
    }

    /// Nearest-neighbour upsampling to `height` by `width`. Not implemented.
    pub fn upsample_nearest2d(&self, layout: &Layout, height: usize, width: usize) -> (r: Result<WgpuStorage, WgpuError>)
        ensures
            r matches Err(e) && e == WgpuError::Unimplemented(Op::UpsampleNearest2d),
    {
        refuse(Op::UpsampleNearest2d, true)
    }

    /// Compares the elements with those of `rhs`. Not implemented.
    pub fn cmp(&self, op: CmpOp, rhs: &WgpuStorage, layout: &Layout, rhs_layout: &Layout) -> (r: Result<WgpuStorage, WgpuError>)
        ensures
            r matches Err(e) && e == refusal(Op::Cmp, same_context(self@, rhs@)),
    {
        let one_context: bool = self.same_device(rhs);
        refuse(Op::Cmp, one_context)
    }

    /// Applies `op` to the elements and those of `rhs`. Not implemented.
    pub fn binary_impl(&self, op: BinaryOp, rhs: &WgpuStorage, layout: &Layout, rhs_layout: &Layout) -> (r: Result<WgpuStorage, WgpuError>)
        ensures
            r matches Err(e) && e == refusal(Op::BinaryImpl, same_context(self@, rhs@)),
    {
        let one_context: bool = self.same_device(rhs);
        refuse(Op::BinaryImpl, one_context)
    }

    /// Picks from `on_true` where the element is set and from `on_false` where it is not. Not implemented.
    pub fn where_cond(&self, layout: &Layout, on_true: &WgpuStorage, true_layout: &Layout, on_false: &WgpuStorage, false_layout: &Layout) -> (r: Result<WgpuStorage, WgpuError>)
        ensures
            r matches Err(e) && e == refusal(Op::WhereCond, same_context(self@, on_true@) && same_context(self@, on_false@)),
    {
        let one_context: bool = self.same_device(on_true) && self.same_device(on_false);
        refuse(Op::WhereCond, one_context)
    }

    /// One-dimensional convolution with `kernel`. Not implemented.
    pub fn conv1d(&self, layout: &Layout, kernel: &WgpuStorage, kernel_layout: &Layout, params: &ParamsConv1D) -> (r: Result<WgpuStorage, WgpuError>)
        ensures
            r matches Err(e) && e == refusal(Op::Conv1d, same_context(self@, kernel@)),
    {
        let one_context: bool = self.same_device(kernel);
        refuse(Op::Conv1d, one_context)
    }

    /// Two-dimensional convolution with `kernel`. Not implemented.
    pub fn conv2d(&self, layout: &Layout, kernel: &WgpuStorage, kernel_layout: &Layout, params: &ParamsConv2D) -> (r: Result<WgpuStorage, WgpuError>)
        ensures
            r matches Err(e) && e == refusal(Op::Conv2d, same_context(self@, kernel@)),
    {
        let one_context: bool = self.same_device(kernel);
        refuse(Op::Conv2d, one_context)
    }

    /// Selects along `dim` the entries that `ids` name. Not implemented.
    pub fn index_select(&self, ids: &WgpuStorage, layout: &Layout, ids_layout: &Layout, dim: usize) -> (r: Result<WgpuStorage, WgpuError>)
        ensures
            r matches Err(e) && e == refusal(Op::IndexSelect, same_context(self@, ids@)),
    {
        let one_context: bool = self.same_device(ids);
        refuse(Op::IndexSelect, one_context)
    }

    /// Gathers along `dim` the elements that `ids` name. Not implemented.
    pub fn gather(&self, layout: &Layout, ids: &WgpuStorage, ids_layout: &Layout, dim: usize) -> (r: Result<WgpuStorage, WgpuError>)
        ensures
            r matches Err(e) && e == refusal(Op::Gather, same_context(self@, ids@)),
    {
        let one_context: bool = self.same_device(ids);
        refuse(Op::Gather, one_context)
    }

    /// Adds the elements of `src` at the places along `dim` that `ids` name. Not implemented.
    pub fn scatter_add(&self, layout: &Layout, ids: &WgpuStorage, ids_layout: &Layout, src: &WgpuStorage, src_layout: &Layout, dim: usize) -> (r: Result<WgpuStorage, WgpuError>)
        ensures
            r matches Err(e) && e == refusal(Op::ScatterAdd, same_context(self@, ids@) && same_context(self@, src@)),
    {
        let one_context: bool = self.same_device(ids) && self.same_device(src);
        refuse(Op::ScatterAdd, one_context)
    }

    /// Adds the entries of `src` at the indices along `dim` that `ids` name. Not implemented.
    pub fn index_add(&self, layout: &Layout, ids: &WgpuStorage, ids_layout: &Layout, src: &WgpuStorage, src_layout: &Layout, dim: usize) -> (r: Result<WgpuStorage, WgpuError>)
        ensures
            r matches Err(e) && e == refusal(Op::IndexAdd, same_context(self@, ids@) && same_context(self@, src@)),
    {
        let one_context: bool = self.same_device(ids) && self.same_device(src);
        refuse(Op::IndexAdd, one_context)
    }

    /// Batched matrix product with `rhs`. Not implemented.
    pub fn matmul(&self, rhs: &WgpuStorage, bmnk: (usize, usize, usize, usize), layout: &Layout, rhs_layout: &Layout) -> (r: Result<WgpuStorage, WgpuError>)
        ensures
            r matches Err(e) && e == refusal(Op::Matmul, same_context(self@, rhs@)),
    {
        let one_context: bool = self.same_device(rhs);
        refuse(Op::Matmul, one_context)
    }
}

impl WgpuDevice {
    /// A storage of zeros. Not implemented.
    pub fn zeros_impl(&self, shape: &Shape, dtype: DType) -> (r: Result<WgpuStorage, WgpuError>)
        ensures
            r matches Err(e) && e == WgpuError::Unimplemented(Op::ZerosImpl),
    {
        refuse(Op::ZerosImpl, true)
    }

    /// A storage of ones. Not implemented.
    pub fn ones_impl(&self, shape: &Shape, dtype: DType) -> (r: Result<WgpuStorage, WgpuError>)
        ensures
            r matches Err(e) && e == WgpuError::Unimplemented(Op::OnesImpl),
    {
        refuse(Op::OnesImpl, true)
    }

    /// A storage of uniform samples between `low` and `high`, both given by their bit patterns. Not implemented.
    pub fn rand_uniform(&self, shape: &Shape, dtype: DType, low: u64, high: u64) -> (r: Result<WgpuStorage, WgpuError>)
        ensures
            r matches Err(e) && e == WgpuError::Unimplemented(Op::RandUniform),
    {
        refuse(Op::RandUniform, true)
    }

    /// A storage of normal samples with the given mean and deviation, both given by their bit patterns. Not implemented.
    pub fn rand_normal(&self, shape: &Shape, dtype: DType, mean: u64, std: u64) -> (r: Result<WgpuStorage, WgpuError>)
        ensures
            r matches Err(e) && e == WgpuError::Unimplemented(Op::RandNormal),
    {
        refuse(Op::RandNormal, true)
    }
}

} // verus!
