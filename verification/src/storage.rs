//! Device storage.
//!
//! A device storage is a buffer in device memory, tagged with its element
//! type and its device context. The bytes stay on the device: what is kept
//! here is what the backend has to know of the buffer to plan work on it.
//!
//! Every operation is a plan. It checks its arguments, says what the device
//! is to do, and describes the storage that results. The caller carries the
//! plan out on the device.

use crate::cpu_storage::CpuStorage;
use crate::device::{
    capacity, spec_capacity, BufferDescriptor, BufferUsages, Device, WgpuDevice, COPY_ALIGNMENT,
};
use crate::dtype::DType;
use crate::error::{Op, WgpuError};
use crate::layout::{count, Layout, LayoutView};
use crate::memory::CopyRegion;
use crate::readback::{Action, Phase, Readback};
use vstd::prelude::*;
use vstd::slice::slice_subrange;

verus! {

/// Whether a buffer has been written to.
#[derive(Clone, Copy, Debug, PartialEq, Eq, Structural)]
pub enum BufferState {
    /// Just allocated: the contents are undefined.
    Uninitialized,
    /// Written by an upload or by an operation. Reading it leaves it so.
    Populated,
}

/// What a device buffer is to the backend.
pub struct BufferView {
    /// The element type.
    pub dtype: DType,
    /// The device context that the buffer belongs to.
    pub device: Device,
    /// The size of the data in bytes: element count times element width.
    pub size: nat,
    pub state: BufferState,
}

impl BufferView {
    /// The data is a whole number of elements, and the buffer is within the
    /// limits of its device.
    pub open spec fn wf(self) -> bool {
        &&& self.size % self.dtype.width() == 0
        &&& self.size <= usize::MAX
        &&& spec_capacity(self.size) <= self.device.limits.max_buffer_size
    }

    /// The number of elements.
    pub open spec fn len(self) -> nat {
        self.size / self.dtype.width()
    }

    /// The bytes that the device has set aside for the buffer.
    pub open spec fn capacity(self) -> nat {
        spec_capacity(self.size)
    }
}

/// A buffer in device memory.
#[derive(Debug, PartialEq, Eq)]
pub struct Buffer {
    dtype: DType,
    device: WgpuDevice,
    size: usize,
    state: BufferState,
}

impl View for Buffer {
    type V = BufferView;

    closed spec fn view(&self) -> BufferView {
        BufferView {
            dtype: self.dtype,
            device: self.device@,
            size: self.size as nat,
            state: self.state,
        }
    }
}

/// The descriptor of the buffer that backs `size` bytes of data.
pub open spec fn backing(size: nat, mapped_at_creation: bool) -> BufferDescriptor {
    BufferDescriptor {
        size: spec_capacity(size) as u64,
        usage: BufferUsages::operational(),
        mapped_at_creation: mapped_at_creation,
    }
}

impl Buffer {
    #[verifier::type_invariant]
    spec fn inv(&self) -> bool {
        self@.wf()
    }

    /// The size of the data in bytes.
    pub fn size(&self) -> (n: usize)
        ensures
            n == self@.size,
            self@.wf(),
    {
        proof {
            use_type_invariant(self);
        }
        self.size
    }

    /// The number of elements.
    pub fn len(&self) -> (n: usize)
        ensures
            n == self@.len(),
            n * self@.dtype.width() == self@.size,
    {
        proof {
            use_type_invariant(self);
            let w = self.dtype.width();
            assert((self.size as nat / w) * w == self.size as nat) by (nonlinear_arith)
                requires
                    w > 0,
                    self.size as nat % w == 0,
            ;
        }
        self.size / self.dtype.size_in_bytes()
    }

    /// The bytes that the device has set aside for the buffer.
    pub fn capacity(&self) -> (n: u64)
        ensures
            n == self@.capacity(),
            self@.wf(),
    {
        proof {
            use_type_invariant(self);
        }
        match capacity(self.size) {
            Some(n) => n,
            None => 0,
        }
    }

    pub fn dtype(&self) -> (d: DType)
        ensures
            d == self@.dtype,
    {
        self.dtype
    }

    pub fn device(&self) -> (d: &WgpuDevice)
        ensures
            d@ == self@.device,
    {
        &self.device
    }

    pub fn state(&self) -> (s: BufferState)
        ensures
            s == self@.state,
    {
        self.state
    }

    /// Whether `size` bytes of `dtype` elements can be allocated on `device`,
    /// and the failure where they cannot.
    pub open spec fn admissible(device: Device, size: nat, dtype: DType) -> Result<(), WgpuError> {
        if size % dtype.width() != 0 {
            Err(WgpuError::LayoutError)
        } else if spec_capacity(size) > device.limits.max_buffer_size {
            Err(WgpuError::OutOfDeviceMemory)
        } else {
            Ok(())
        }
    }

    /// A buffer for `size` bytes of `dtype` elements on `device`, with
    /// undefined contents, and how to ask the device for it.
    ///
    /// It is refused with `LayoutError` where `size` is no whole number of
    /// elements, and with `OutOfDeviceMemory` where the device allows no
    /// buffer that large.
    pub fn uninit(device: &WgpuDevice, size: usize, dtype: DType) -> (r: Result<
        (Buffer, BufferDescriptor),
        WgpuError,
    >)
        ensures
            match r {
                Ok((buffer, descriptor)) => {
                    &&& Self::admissible(device@, size as nat, dtype) is Ok
                    &&& buffer@ == (BufferView {
                        dtype: dtype,
                        device: device@,
                        size: size as nat,
                        state: BufferState::Uninitialized,
                    })
                    &&& descriptor == backing(size as nat, false)
                },
                Err(e) => Self::admissible(device@, size as nat, dtype) == Err::<(), WgpuError>(e),
            },
    {
        Self::allocate(device, size, dtype, BufferState::Uninitialized, false)
    }

    /// The buffer that `uninit` and the uploads share: the state and the
    /// mapping at creation are the caller's.
    fn allocate(
        device: &WgpuDevice,
        size: usize,
        dtype: DType,
        state: BufferState,
        mapped_at_creation: bool,
    ) -> (r: Result<(Buffer, BufferDescriptor), WgpuError>)
        ensures
            match r {
                Ok((buffer, descriptor)) => {
                    &&& Self::admissible(device@, size as nat, dtype) is Ok
                    &&& buffer@ == (BufferView {
                        dtype: dtype,
                        device: device@,
                        size: size as nat,
                        state: state,
                    })
                    &&& descriptor == backing(size as nat, mapped_at_creation)
                },
                Err(e) => Self::admissible(device@, size as nat, dtype) == Err::<(), WgpuError>(e),
            },
    {
        if size % dtype.size_in_bytes() != 0 {
            return Err(WgpuError::LayoutError);
        }
        let room: u64 = match capacity(size) {
            Some(room) => room,
            None => {
                return Err(WgpuError::OutOfDeviceMemory);
            },
        };
        if room > device.0.limits.max_buffer_size {
            return Err(WgpuError::OutOfDeviceMemory);
        }
        let descriptor = BufferDescriptor {
            size: room,
            usage: BufferUsages::operational(),
            mapped_at_creation: mapped_at_creation,
        };
        Ok((Buffer { dtype: dtype, device: *device, size: size, state: state }, descriptor))
    }
}

/// How a storage comes to the device: a buffer is created with these
/// contents at its start.
#[derive(Debug, PartialEq, Eq)]
pub struct Upload {
    /// The buffer to create. It is as large as the contents rounded up to
    /// whole words, and it starts out mapped unless there is nothing to
    /// write.
    pub descriptor: BufferDescriptor,
    /// The bytes to write at the start of the buffer.
    pub contents: Vec<u8>,
}

/// How a storage is duplicated on the device: a buffer is created and the
/// whole source buffer is copied into it. No byte passes through the host.
#[derive(Clone, Copy, Debug, PartialEq, Eq, Structural)]
pub struct Duplicate {
    /// The buffer to create.
    pub descriptor: BufferDescriptor,
    /// The copy from the source buffer into the new one.
    pub copy: CopyRegion,
}

/// A storage in device memory.
#[derive(Debug, PartialEq, Eq)]
pub struct WgpuStorage(Buffer);

impl View for WgpuStorage {
    type V = BufferView;

    closed spec fn view(&self) -> BufferView {
        self.0@
    }
}

impl WgpuDevice {
    /// Whether `bytes` can be uploaded as elements of `dtype`, and the
    /// failure where they cannot.
    pub open spec fn uploadable(&self, dtype: DType, bytes: Seq<u8>) -> Result<(), WgpuError> {
        Buffer::admissible(self@, bytes.len(), dtype)
    }

    /// A new storage of `dtype` elements whose contents are `bytes`, and the
    /// upload that creates it.
    ///
    /// It is refused with `LayoutError` where `bytes` are no whole number of
    /// elements, and with `OutOfDeviceMemory` where the device allows no
    /// buffer that large.
    pub fn upload(&self, dtype: DType, bytes: Vec<u8>) -> (r: Result<(WgpuStorage, Upload), WgpuError>)
        ensures
            match r {
                Ok((storage, upload)) => {
                    &&& self.uploadable(dtype, bytes@) is Ok
                    &&& storage@ == (BufferView {
                        dtype: dtype,
                        device: self@,
                        size: bytes@.len(),
                        state: BufferState::Populated,
                    })
                    &&& upload.contents@ == bytes@
                    &&& upload.descriptor == backing(bytes@.len(), bytes@.len() > 0)
                },
                Err(e) => self.uploadable(dtype, bytes@) == Err::<(), WgpuError>(e),
            },
    {
        let size: usize = bytes.len();
        match Buffer::allocate(self, size, dtype, BufferState::Populated, size > 0) {
            Ok((buffer, descriptor)) => Ok(
                (WgpuStorage(buffer), Upload { descriptor: descriptor, contents: bytes }),
            ),
            Err(e) => Err(e),
        }
    }

    /// A new storage with the type and the elements of `storage`, and the
    /// upload that creates it. The elements are uploaded as they are: their
    /// bytes, nothing converted.
    ///
    /// It is refused with `OutOfDeviceMemory` where the device allows no
    /// buffer that large.
    pub fn storage_from_cpu_storage(&self, storage: &CpuStorage) -> (r: Result<
        (WgpuStorage, Upload),
        WgpuError,
    >)
        ensures
            r is Ok <==> self.admits(spec_capacity(storage.bytes().len())),
            r matches Ok((device_storage, upload)) ==> {
                &&& device_storage@ == (BufferView {
                    dtype: storage@.dtype,
                    device: self@,
                    size: storage.bytes().len(),
                    state: BufferState::Populated,
                })
                &&& device_storage@.len() == storage@.bits.len()
                &&& upload.contents@ == storage.bytes()
                &&& upload.descriptor == backing(
                    storage.bytes().len(),
                    storage.bytes().len() > 0,
                )
            },
            r matches Err(e) ==> e == WgpuError::OutOfDeviceMemory,
    {
        let bytes: Vec<u8> = storage.to_bytes();
        let dtype: DType = storage.dtype();
        proof {
            let w = dtype.width();
            let n = storage@.bits.len();
            assert((n * w) % w == 0 && (n * w) / w == n) by (nonlinear_arith)
                requires
                    w > 0,
            ;
        }
        self.upload(dtype, bytes)
    }
}

impl WgpuStorage {
    /// The buffer that holds the storage.
    pub fn buffer(&self) -> (b: &Buffer)
        ensures
            b@ == self@,
    {
        &self.0
    }

    /// The storage that `buffer` holds.
    pub fn from_buffer(buffer: Buffer) -> (s: WgpuStorage)
        ensures
            s@ == buffer@,
    {
        WgpuStorage(buffer)
    }

    /// The element type.
    pub fn dtype(&self) -> (d: DType)
        ensures
            d == self@.dtype,
    {
        self.0.dtype()
    }

    /// The device context that the storage belongs to.
    pub fn device(&self) -> (d: &WgpuDevice)
        ensures
            d@ == self@.device,
    {
        self.0.device()
    }

    /// A duplicate of the storage on its device, and the plan that makes it:
    /// a new buffer of the same capacity and a copy of the whole source
    /// buffer into it.
    ///
    /// The duplicate has the type, the size and the state of the source. The
    /// layout plays no part: the whole storage is duplicated.
    pub fn try_clone(&self, layout: &Layout) -> (r: Result<(WgpuStorage, Duplicate), WgpuError>)
        ensures
            r matches Ok((twin, plan)) && {
                &&& twin@ == self@
                &&& self@.wf()
                &&& plan.descriptor == backing(self@.size, false)
                &&& plan.copy == (CopyRegion {
                    src_offset: 0,
                    dst_offset: 0,
                    size: self@.capacity() as u64,
                })
            },
    {
        let room: u64 = self.0.capacity();
        let twin = Buffer {
            dtype: self.0.dtype,
            device: self.0.device,
            size: self.0.size,
            state: self.0.state,
        };
        let plan = Duplicate {
            descriptor: BufferDescriptor {
                size: room,
                usage: BufferUsages::operational(),
                mapped_at_creation: false,
            },
            copy: CopyRegion { src_offset: 0, dst_offset: 0, size: room },
        };
        Ok((WgpuStorage(twin), plan))
    }

    /// Starts a read-back of the storage: the protocol's state and its first
    /// action.
    pub fn readback(&self) -> (r: (Readback, Action))
        ensures
            Readback::begins(r, self@.capacity() as u64),
            self@.wf(),
    {
        Readback::begin(self.0.capacity())
    }

    /// The host storage that the mapped bytes `mapped` of a read-back hold.
    ///
    /// `readback` is the protocol that the bytes come from. They are decoded
    /// only where it has come to `Mapped`, that is after the queue has
    /// reported idle and after the mapping has been granted. The first
    /// `size` bytes are the data; what follows them is padding.
    pub fn to_cpu_storage(&self, readback: &Readback, mapped: &[u8]) -> (r: Result<
        CpuStorage,
        WgpuError,
    >)
        ensures
            self@.wf(),
            match r {
                Ok(host) => {
                    &&& host_copy(self@, readback.spec_phase(), mapped@) == Ok::<
                        Seq<u8>,
                        WgpuError,
                    >(host.bytes())
                    &&& host@.dtype == self@.dtype
                    &&& host@.bits.len() == self@.len()
                },
                Err(e) => host_copy(self@, readback.spec_phase(), mapped@) == Err::<
                    Seq<u8>,
                    WgpuError,
                >(e),
            },
    {
        proof {
            use_type_invariant(&self.0);
        }
        match readback.phase() {
            Phase::AwaitingQueue => {
                return Err(WgpuError::ReadbackTimeout);
            },
            Phase::AwaitingMap => {
                return Err(WgpuError::ReadbackTimeout);
            },
            Phase::TimedOut => {
                return Err(WgpuError::ReadbackTimeout);
            },
            Phase::Rejected => {
                return Err(WgpuError::MapFailed);
            },
            Phase::Mapped => {},
        }
        let size: usize = self.0.size;
        if mapped.len() < size {
            return Err(WgpuError::MapFailed);
        }
        let data: &[u8] = slice_subrange(mapped, 0, size);
        proof {
            assert(data@ =~= mapped@.take(size as int));
        }
        match CpuStorage::from_bytes(self.0.dtype, data) {
            Some(host) => {
                proof {
                    let w = self@.dtype.width();
                    let n = host@.bits.len();
                    assert((n * w) / w == n) by (nonlinear_arith)
                        requires
                            w > 0,
                    ;
                }
                Ok(host)
            },
            None => Err(WgpuError::MapFailed),
        }
    }
}

/// What a read-back of a storage gives for the mapped bytes `mapped`, in the
/// phase that the protocol has come to: the data bytes, or the failure.
pub open spec fn host_copy(storage: BufferView, phase: Phase, mapped: Seq<u8>) -> Result<
    Seq<u8>,
    WgpuError,
> {
    match phase {
        Phase::AwaitingQueue => Err(WgpuError::ReadbackTimeout),
        Phase::AwaitingMap => Err(WgpuError::ReadbackTimeout),
        Phase::TimedOut => Err(WgpuError::ReadbackTimeout),
        Phase::Rejected => Err(WgpuError::MapFailed),
        Phase::Mapped => if mapped.len() < storage.size {
            Err(WgpuError::MapFailed)
        } else {
            Ok(mapped.take(storage.size as int))
        },
    }
}

/// Whether two storages belong to the same device context.
pub open spec fn same_context(a: BufferView, b: BufferView) -> bool {
    a.device.connection == b.device.connection
}

/// The copy that moves element number `k` of a layout: `w` bytes from the
/// element's place in the source to place `dst_offset + k` in the
/// destination.
pub open spec fn element_copy(l: LayoutView, w: nat, dst_offset: nat, k: nat) -> CopyRegion {
    CopyRegion {
        src_offset: (l.index(k) * w) as u64,
        dst_offset: ((dst_offset + k) * w) as u64,
        size: w as u64,
    }
}

/// The copies that move the first `n` elements of a layout, in row-major
/// order.
pub open spec fn element_copies(l: LayoutView, w: nat, dst_offset: nat, n: nat) -> Seq<
    CopyRegion,
> {
    Seq::new(n, |k: int| element_copy(l, w, dst_offset, k as nat))
}

/// The copy that moves `n` elements which lie one after the other, all at
/// once.
pub open spec fn block_copy(l: LayoutView, w: nat, dst_offset: nat, n: nat) -> CopyRegion {
    CopyRegion {
        src_offset: (l.start_offset * w) as u64,
        dst_offset: (dst_offset * w) as u64,
        size: (n * w) as u64,
    }
}

/// The copies of a strided copy of all elements of a layout: a single one
/// where the elements lie one after the other, else one for each element.
pub open spec fn strided_copies(l: LayoutView, w: nat, dst_offset: nat) -> Seq<CopyRegion> {
    if l.contiguous() {
        seq![block_copy(l, w, dst_offset, count(l.dims))]
    } else {
        element_copies(l, w, dst_offset, count(l.dims))
    }
}

/// Whether the copies of a strided copy move whole words between word
/// boundaries, as the device demands: either the single copy does, or each
/// element is a whole number of words.
pub open spec fn whole_words(l: LayoutView, w: nat, dst_offset: nat) -> bool {
    if l.contiguous() {
        block_copy(l, w, dst_offset, count(l.dims)).aligned()
    } else {
        w % 4 == 0
    }
}

/// Whether the elements that `l` picks from `src` can be copied to `dst`
/// from element `dst_offset` on, and the failure where they cannot.
///
/// Storages of different device contexts fail with `DeviceMismatch`. With
/// `LayoutError` fail different element types, a layout that leaves the
/// source, and elements that do not fit into the destination. Copies that
/// would not move whole words fail with `Unimplemented`: the device copies
/// whole words only.
pub open spec fn strided_copy_check(
    src: BufferView,
    dst: BufferView,
    dst_offset: nat,
    l: LayoutView,
) -> Result<(), WgpuError> {
    if !same_context(src, dst) {
        Err(WgpuError::DeviceMismatch)
    } else if src.dtype != dst.dtype || !l.fits(src.len()) || dst_offset + count(l.dims)
        > dst.len() {
        Err(WgpuError::LayoutError)
    } else if !whole_words(l, src.dtype.width(), dst_offset) {
        Err(WgpuError::Unimplemented(Op::CopyStridedSrc))
    } else {
        Ok(())
    }
}

/// How the elements of a layout are copied from one storage into another:
/// the device carries out the copies in order.
#[derive(Debug, PartialEq, Eq)]
pub struct StridedCopy {
    /// The copies, in the order in which the device carries them out.
    pub regions: Vec<CopyRegion>,
}

impl WgpuStorage {
    /// Whether the storage and `other` belong to the same device context.
    pub fn same_device(&self, other: &WgpuStorage) -> (same: bool)
        ensures
            same == same_context(self@, other@),
    {
        self.0.device.same_device(&other.0.device)
    }

    /// Copies the elements that `src_l` picks from the storage into `dst`,
    /// one after the other from element `dst_offset` on.
    ///
    /// On success `dst` is populated and the plan holds the copies: one for
    /// all elements where they lie one after the other in the source, else
    /// one for each element. On failure `dst` is as it was.
    pub fn copy_strided_src(&self, dst: &mut WgpuStorage, dst_offset: usize, src_l: &Layout) -> (r:
        Result<StridedCopy, WgpuError>)
        ensures
            match r {
                Ok(plan) => {
                    &&& strided_copy_check(self@, old(dst)@, dst_offset as nat, src_l@) is Ok
                    &&& plan.regions@ == strided_copies(
                        src_l@,
                        self@.dtype.width(),
                        dst_offset as nat,
                    )
                    &&& final(dst)@ == (BufferView { state: BufferState::Populated, ..old(dst)@ })
                },
                Err(e) => {
                    &&& strided_copy_check(self@, old(dst)@, dst_offset as nat, src_l@) == Err::<
                        (),
                        WgpuError,
                    >(e)
                    &&& final(dst)@ == old(dst)@
                },
            },
    {
        if !self.same_device(dst) {
            return Err(WgpuError::DeviceMismatch);
        }
        if self.0.dtype != dst.0.dtype {
            return Err(WgpuError::LayoutError);
        }
        let src_len: usize = self.0.len();
        if !src_l.fits(src_len) {
            return Err(WgpuError::LayoutError);
        }
        let dst_len: usize = dst.0.len();
        let n: usize = match src_l.shape().elem_count() {
            Some(n) => n,
            None => {
                return Err(WgpuError::LayoutError);
            },
        };
        if dst_offset > dst_len || n > dst_len - dst_offset {
            return Err(WgpuError::LayoutError);
        }
        let w: usize = self.0.dtype.size_in_bytes();
        let src_size: usize = self.0.size();
        let dst_size: usize = dst.0.size();
        if src_l.is_contiguous() {
            let start: usize = src_l.start_offset();
            proof {
                assert(start * w <= src_len * w && dst_offset * w <= dst_len * w && n * w
                    <= dst_len * w) by (nonlinear_arith)
                    requires
                        start < src_len,
                        dst_offset + n <= dst_len,
                        w > 0,
                ;
            }
            let block = CopyRegion {
                src_offset: (start * w) as u64,
                dst_offset: (dst_offset * w) as u64,
                size: (n * w) as u64,
            };
            if block.src_offset % COPY_ALIGNMENT != 0 || block.dst_offset % COPY_ALIGNMENT != 0
                || block.size % COPY_ALIGNMENT != 0 {
                return Err(WgpuError::Unimplemented(Op::CopyStridedSrc));
            }
            let mut regions: Vec<CopyRegion> = Vec::new();
            regions.push(block);
            proof {
                assert(regions@ =~= seq![block]);
            }
            dst.0.state = BufferState::Populated;
            return Ok(StridedCopy { regions: regions });
        }
        if w % 4 != 0 {
            return Err(WgpuError::Unimplemented(Op::CopyStridedSrc));
        }
        let mut regions: Vec<CopyRegion> = Vec::new();
        let mut k: usize = 0;
        while k < n
            invariant
                k <= n,
                w == self@.dtype.width(),
                w > 0,
                src_l@.fits(src_len as nat),
                src_len * w == src_size,
                dst_len * w == dst_size,
                dst_offset + n <= dst_len,
                regions@ == element_copies(src_l@, w as nat, dst_offset as nat, k as nat),
            decreases n - k,
        {
            let at: usize = src_l.index(k, src_len);
            proof {
                assert(at * w < src_len * w && (dst_offset + k) * w < dst_len * w)
                    by (nonlinear_arith)
                    requires
                        at < src_len,
                        dst_offset + k < dst_len,
                        w > 0,
                ;
            }
            let region = CopyRegion {
                src_offset: (at * w) as u64,
                dst_offset: ((dst_offset + k) * w) as u64,
                size: w as u64,
            };
            regions.push(region);
            proof {
                assert(region == element_copy(src_l@, w as nat, dst_offset as nat, k as nat));
                assert(regions@ =~= element_copies(
                    src_l@,
                    w as nat,
                    dst_offset as nat,
                    (k + 1) as nat,
                ));
            }
            k += 1;
        }
        dst.0.state = BufferState::Populated;
        Ok(StridedCopy { regions: regions })
    }
}

} // verus!
