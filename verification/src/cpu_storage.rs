//! Host storage: typed elements in host memory.
//!
//! Floating-point elements are held by their bit patterns. Moving a storage
//! to a device and back moves bits, so nothing here does arithmetic on them.

use crate::dtype::DType;
use crate::word::{decode, encode, image, lemma_image_len, lemma_parse_image, parse, Word};
use vstd::prelude::*;

verus! {

/// A flat run of elements of one type, in host memory.
///
/// `BF16` and `F16` hold 16-bit patterns, `F32` 32-bit patterns and `F64`
/// 64-bit patterns.
#[derive(Clone, Debug, PartialEq, Eq)]
pub enum CpuStorage {
    U8(Vec<u8>),
    U32(Vec<u32>),
    I64(Vec<i64>),
    BF16(Vec<u16>),
    F16(Vec<u16>),
    F32(Vec<u32>),
    F64(Vec<u64>),
}

/// What a host storage is: an element type and the elements' bit patterns.
pub struct Numeric {
    pub dtype: DType,
    pub bits: Seq<nat>,
}

/// The bit patterns of `xs`.
pub open spec fn patterns<W: Word>(xs: Seq<W>) -> Seq<nat> {
    Seq::new(xs.len(), |i: int| xs[i].bits())
}

impl View for CpuStorage {
    type V = Numeric;

    open spec fn view(&self) -> Numeric {
        match self {
            CpuStorage::U8(v) => Numeric { dtype: DType::U8, bits: patterns(v@) },
            CpuStorage::U32(v) => Numeric { dtype: DType::U32, bits: patterns(v@) },
            CpuStorage::I64(v) => Numeric { dtype: DType::I64, bits: patterns(v@) },
            CpuStorage::BF16(v) => Numeric { dtype: DType::BF16, bits: patterns(v@) },
            CpuStorage::F16(v) => Numeric { dtype: DType::F16, bits: patterns(v@) },
            CpuStorage::F32(v) => Numeric { dtype: DType::F32, bits: patterns(v@) },
            CpuStorage::F64(v) => Numeric { dtype: DType::F64, bits: patterns(v@) },
        }
    }
}

impl CpuStorage {
    /// The bytes that the storage occupies in device memory.
    pub open spec fn bytes(&self) -> Seq<u8> {
        match self {
            CpuStorage::U8(v) => image(v@),
            CpuStorage::U32(v) => image(v@),
            CpuStorage::I64(v) => image(v@),
            CpuStorage::BF16(v) => image(v@),
            CpuStorage::F16(v) => image(v@),
            CpuStorage::F32(v) => image(v@),
            CpuStorage::F64(v) => image(v@),
        }
    }

    /// The storage's element type. It is the type of the variant.
    pub fn dtype(&self) -> (d: DType)
        ensures
            d == self@.dtype,
    {
        match self {
            CpuStorage::U8(_) => DType::U8,
            CpuStorage::U32(_) => DType::U32,
            CpuStorage::I64(_) => DType::I64,
            CpuStorage::BF16(_) => DType::BF16,
            CpuStorage::F16(_) => DType::F16,
            CpuStorage::F32(_) => DType::F32,
            CpuStorage::F64(_) => DType::F64,
        }
    }

    /// The number of elements.
    pub fn len(&self) -> (n: usize)
        ensures
            n == self@.bits.len(),
    {
        match self {
            CpuStorage::U8(v) => v.len(),
            CpuStorage::U32(v) => v.len(),
            CpuStorage::I64(v) => v.len(),
            CpuStorage::BF16(v) => v.len(),
            CpuStorage::F16(v) => v.len(),
            CpuStorage::F32(v) => v.len(),
            CpuStorage::F64(v) => v.len(),
        }
    }

    /// The storage as raw bytes: each element's bits, nothing converted.
    pub fn to_bytes(&self) -> (out: Vec<u8>)
        ensures
            out@ == self.bytes(),
            out@.len() == self@.bits.len() * self@.dtype.width(),
    {
        proof {
            self.lemma_bytes_len();
        }
        match self {
            CpuStorage::U8(v) => encode(v),
            CpuStorage::U32(v) => encode(v),
            CpuStorage::I64(v) => encode(v),
            CpuStorage::BF16(v) => encode(v),
            CpuStorage::F16(v) => encode(v),
            CpuStorage::F32(v) => encode(v),
            CpuStorage::F64(v) => encode(v),
        }
    }

    /// The storage of type `dtype` that `bytes` hold: `None` unless they hold
    /// a whole number of elements.
    pub fn from_bytes(dtype: DType, bytes: &[u8]) -> (r: Option<CpuStorage>)
        ensures
            r is Some <==> bytes@.len() % dtype.width() == 0,
            r matches Some(s) ==> {
                &&& s@.dtype == dtype
                &&& s@.bits.len() * dtype.width() == bytes@.len()
                &&& s.bytes() == bytes@
            },
    {
        match dtype {
            DType::U8 => match decode::<u8>(bytes) {
                Some(v) => Some(CpuStorage::U8(v)),
                None => None,
            },
            DType::U32 => match decode::<u32>(bytes) {
                Some(v) => Some(CpuStorage::U32(v)),
                None => None,
            },
            DType::I64 => match decode::<i64>(bytes) {
                Some(v) => Some(CpuStorage::I64(v)),
                None => None,
            },
            DType::BF16 => match decode::<u16>(bytes) {
                Some(v) => Some(CpuStorage::BF16(v)),
                None => None,
            },
            DType::F16 => match decode::<u16>(bytes) {
                Some(v) => Some(CpuStorage::F16(v)),
                None => None,
            },
            DType::F32 => match decode::<u32>(bytes) {
                Some(v) => Some(CpuStorage::F32(v)),
                None => None,
            },
            DType::F64 => match decode::<u64>(bytes) {
                Some(v) => Some(CpuStorage::F64(v)),
                None => None,
            },
        }
    }

    /// A storage occupies its element count times its element width.
    pub proof fn lemma_bytes_len(&self)
        ensures
            self.bytes().len() == self@.bits.len() * self@.dtype.width(),
    {
        match self {
            CpuStorage::U8(v) => lemma_image_len(v@),
            CpuStorage::U32(v) => lemma_image_len(v@),
            CpuStorage::I64(v) => lemma_image_len(v@),
            CpuStorage::BF16(v) => lemma_image_len(v@),
            CpuStorage::F16(v) => lemma_image_len(v@),
            CpuStorage::F32(v) => lemma_image_len(v@),
            CpuStorage::F64(v) => lemma_image_len(v@),
        }
    }

    /// Two storages of one type that occupy the same bytes hold the same
    /// elements.
    pub proof fn lemma_bytes_injective(&self, other: &CpuStorage)
        requires
            self@.dtype == other@.dtype,
            self.bytes() == other.bytes(),
        ensures
            self@ == other@,
    {
        match (self, other) {
            (CpuStorage::U8(a), CpuStorage::U8(b)) => lemma_image_injective(a@, b@),
            (CpuStorage::U32(a), CpuStorage::U32(b)) => lemma_image_injective(a@, b@),
            (CpuStorage::I64(a), CpuStorage::I64(b)) => lemma_image_injective(a@, b@),
            (CpuStorage::BF16(a), CpuStorage::BF16(b)) => lemma_image_injective(a@, b@),
            (CpuStorage::F16(a), CpuStorage::F16(b)) => lemma_image_injective(a@, b@),
            (CpuStorage::F32(a), CpuStorage::F32(b)) => lemma_image_injective(a@, b@),
            (CpuStorage::F64(a), CpuStorage::F64(b)) => lemma_image_injective(a@, b@),
            _ => {},
        }
    }
}

/// Elements with the same image are the same elements.
pub proof fn lemma_image_injective<W: Word>(a: Seq<W>, b: Seq<W>)
    requires
        image(a) == image(b),
    ensures
        a == b,
        patterns(a) == patterns(b),
{
    lemma_image_len(a);
    lemma_image_len(b);
    W::lemma_width();
    assert(a.len() == b.len()) by (nonlinear_arith)
        requires
            a.len() * W::width() == b.len() * W::width(),
            W::width() > 0,
    ;
    lemma_parse_image(a);
    lemma_parse_image(b);
}

} // verus!
