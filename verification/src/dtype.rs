//! Element types.

use vstd::prelude::*;

verus! {

/// The element type of a storage. A storage keeps its tag for its whole life.
#[derive(Clone, Copy, Debug, PartialEq, Eq, Hash, Structural)]
pub enum DType {
    U8,
    U32,
    I64,
    BF16,
    F16,
    F32,
    F64,
}

impl DType {
    /// Bytes per element.
    pub open spec fn width(self) -> nat {
        match self {
            DType::U8 => 1,
            DType::U32 => 4,
            DType::I64 => 8,
            DType::BF16 => 2,
            DType::F16 => 2,
            DType::F32 => 4,
            DType::F64 => 8,
        }
    }

    /// Bytes per element.
    pub fn size_in_bytes(&self) -> (w: usize)
        ensures
            w == self.width(),
    {
        match self {
            DType::U8 => 1,
            DType::U32 => 4,
            DType::I64 => 8,
            DType::BF16 => 2,
            DType::F16 => 2,
            DType::F32 => 4,
            DType::F64 => 8,
        }
    }

    /// Every element type, in declaration order.
    pub fn all() -> (v: Vec<DType>)
        ensures
            v@ == seq![
                DType::U8,
                DType::U32,
                DType::I64,
                DType::BF16,
                DType::F16,
                DType::F32,
                DType::F64,
            ],
    {
        let mut v: Vec<DType> = Vec::new();
        v.push(DType::U8);
        v.push(DType::U32);
        v.push(DType::I64);
        v.push(DType::BF16);
        v.push(DType::F16);
        v.push(DType::F32);
        v.push(DType::F64);
        proof {
            assert(v@ =~= seq![
                DType::U8,
                DType::U32,
                DType::I64,
                DType::BF16,
                DType::F16,
                DType::F32,
                DType::F64,
            ]);
        }
        v
    }
}

} // verus!
