//! What the device does to the memory of its buffers.
//!
//! The memory of a buffer is a sequence of bytes. The functions here say what
//! a buffer holds after the device has carried out what the backend asked
//! for. They are the yardstick for the backend's plans: a plan is right when
//! the memory it leads to is the memory that the operation promises.

use crate::device::COPY_ALIGNMENT;
use vstd::prelude::*;

verus! {

/// A copy of `size` bytes from one buffer into another.
#[derive(Clone, Copy, Debug, PartialEq, Eq, Structural)]
pub struct CopyRegion {
    /// The first byte to read, in the source.
    pub src_offset: u64,
    /// The first byte to write, in the destination.
    pub dst_offset: u64,
    /// How many bytes to copy.
    pub size: u64,
}

impl CopyRegion {
    /// The copy stays inside a source of `src_len` bytes and a destination of
    /// `dst_len` bytes.
    pub open spec fn fits(self, src_len: nat, dst_len: nat) -> bool {
        &&& self.src_offset + self.size <= src_len
        &&& self.dst_offset + self.size <= dst_len
    }

    /// The copy moves whole words between word boundaries, as the device
    /// demands of every copy.
    pub open spec fn aligned(self) -> bool {
        &&& self.src_offset % COPY_ALIGNMENT == 0
        &&& self.dst_offset % COPY_ALIGNMENT == 0
        &&& self.size % COPY_ALIGNMENT == 0
    }

    /// The destination after the copy: the bytes of the region come from the
    /// source, the others stay.
    pub open spec fn run(self, src: Seq<u8>, dst: Seq<u8>) -> Seq<u8> {
        Seq::new(
            dst.len(),
            |i: int|
                if self.dst_offset <= i < self.dst_offset + self.size {
                    src[i - self.dst_offset + self.src_offset]
                } else {
                    dst[i]
                },
        )
    }
}

/// The destination after the copies `regions`, carried out in order.
pub open spec fn run_all(regions: Seq<CopyRegion>, src: Seq<u8>, dst: Seq<u8>) -> Seq<u8>
    decreases regions.len(),
{
    if regions.len() == 0 {
        dst
    } else {
        regions.last().run(src, run_all(regions.drop_last(), src, dst))
    }
}

/// A buffer of `capacity` bytes that was created with `contents` in it holds
/// them at its start. What follows them is padding, and nothing is known of
/// it.
pub open spec fn holds(memory: Seq<u8>, contents: Seq<u8>, capacity: nat) -> bool {
    &&& memory.len() == capacity
    &&& contents.len() <= capacity
    &&& memory.take(contents.len() as int) == contents
}

/// A copy of a whole buffer into one of the same size leaves the destination
/// equal to the source.
pub proof fn lemma_whole_copy(src: Seq<u8>, dst: Seq<u8>)
    requires
        src.len() == dst.len(),
        src.len() <= u64::MAX,
    ensures
        (CopyRegion { src_offset: 0, dst_offset: 0, size: src.len() as u64 }).run(src, dst) == src,
{
    let region = CopyRegion { src_offset: 0, dst_offset: 0, size: src.len() as u64 };
    assert(region.run(src, dst) =~= src);
}

} // verus!
