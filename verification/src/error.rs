//! Failures of the backend, and the names of its operations.

use vstd::prelude::*;

verus! {

/// An operation of the backend contract.
#[derive(Clone, Copy, Debug, PartialEq, Eq, Hash, Structural)]
pub enum Op {
    Affine,
    Elu,
    ReduceOp,
    Cmp,
    ToDtype,
    UnaryImpl,
    BinaryImpl,
    WhereCond,
    Conv1d,
    Conv2d,
    IndexSelect,
    Gather,
    ScatterAdd,
    IndexAdd,
    Matmul,
    CopyStridedSrc,
    AvgPool2d,
    MaxPool2d,
    UpsampleNearest2d,
    ZerosImpl,
    OnesImpl,
    RandUniform,
    RandNormal,
}

impl Op {
    /// The operation's name, as a diagnostic shows it.
    pub open spec fn spec_name(self) -> Seq<char> {
        match self {
            Op::Affine => "affine"@,
            Op::Elu => "elu"@,
            Op::ReduceOp => "reduce_op"@,
            Op::Cmp => "cmp"@,
            Op::ToDtype => "to_dtype"@,
            Op::UnaryImpl => "unary_impl"@,
            Op::BinaryImpl => "binary_impl"@,
            Op::WhereCond => "where_cond"@,
            Op::Conv1d => "conv1d"@,
            Op::Conv2d => "conv2d"@,
            Op::IndexSelect => "index_select"@,
            Op::Gather => "gather"@,
            Op::ScatterAdd => "scatter_add"@,
            Op::IndexAdd => "index_add"@,
            Op::Matmul => "matmul"@,
            Op::CopyStridedSrc => "copy_strided_src"@,
            Op::AvgPool2d => "avg_pool2d"@,
            Op::MaxPool2d => "max_pool2d"@,
            Op::UpsampleNearest2d => "upsample_nearest2d"@,
            Op::ZerosImpl => "zeros_impl"@,
            Op::OnesImpl => "ones_impl"@,
            Op::RandUniform => "rand_uniform"@,
            Op::RandNormal => "rand_normal"@,
        }
    }

    /// The operation's name, as a diagnostic shows it.
    pub fn name(&self) -> (s: &'static str)
        ensures
            s@ == self.spec_name(),
    {
        match self {
            Op::Affine => "affine",
            Op::Elu => "elu",
            Op::ReduceOp => "reduce_op",
            Op::Cmp => "cmp",
            Op::ToDtype => "to_dtype",
            Op::UnaryImpl => "unary_impl",
            Op::BinaryImpl => "binary_impl",
            Op::WhereCond => "where_cond",
            Op::Conv1d => "conv1d",
            Op::Conv2d => "conv2d",
            Op::IndexSelect => "index_select",
            Op::Gather => "gather",
            Op::ScatterAdd => "scatter_add",
            Op::IndexAdd => "index_add",
            Op::Matmul => "matmul",
            Op::CopyStridedSrc => "copy_strided_src",
            Op::AvgPool2d => "avg_pool2d",
            Op::MaxPool2d => "max_pool2d",
            Op::UpsampleNearest2d => "upsample_nearest2d",
            Op::ZerosImpl => "zeros_impl",
            Op::OnesImpl => "ones_impl",
            Op::RandUniform => "rand_uniform",
            Op::RandNormal => "rand_normal",
        }
    }
}

/// Why a device context could not be created.
#[derive(Clone, Copy, Debug, PartialEq, Eq, Hash, Structural)]
pub enum InitFailure {
    /// The selector names no adapter.
    NoAdapter,
    /// The adapter cannot give the limits that the backend asks for.
    Limits,
    /// The driver refused the connection.
    Driver,
}

/// A failure of the backend. None is recovered from inside the backend.
#[derive(Clone, Copy, Debug, PartialEq, Eq, Hash, Structural)]
pub enum WgpuError {
    /// No device context could be created.
    DeviceInitError(InitFailure),
    /// An allocation is larger than the device allows.
    OutOfDeviceMemory,
    /// The backend does not implement the operation yet.
    Unimplemented(Op),
    /// Storages of different device contexts met in one operation.
    DeviceMismatch,
    /// A wait of a read-back ended without its signal.
    ReadbackTimeout,
    /// The device refused to map a buffer, or mapped too little of it.
    MapFailed,
    /// A shape, stride or offset does not fit the storage it is used with.
    LayoutError,
}

} // verus!
