//! What the transfers preserve.
//!
//! The plans of the backend are held against the device's memory here: what
//! a storage holds after an upload, a duplication or a strided copy, and
//! what a read-back gives for it.

use crate::cpu_storage::CpuStorage;
use crate::error::WgpuError;
use crate::layout::{count, lemma_count_at_least_one, lemma_offset_within_extent, LayoutView};
use crate::memory::{holds, lemma_whole_copy, run_all, CopyRegion};
use crate::readback::Phase;
use crate::storage::{
    backing, block_copy, element_copies, element_copy, host_copy, strided_copies,
    strided_copy_check, BufferView, Duplicate,
};
use crate::word::{
    image, lemma_image_len, lemma_image_slot, lemma_parse_index, lemma_parse_len,
    lemma_value_of_digits, parse, Word,
};
use vstd::prelude::*;

verus! {

/// The copy of a whole buffer of `capacity` bytes.
pub open spec fn whole(capacity: nat) -> CopyRegion {
    CopyRegion { src_offset: 0, dst_offset: 0, size: capacity as u64 }
}

/// Round trip: a host storage that is uploaded and read back comes back as
/// it was, byte for byte.
///
/// `storage` is the device storage that the upload of `sent` describes and
/// `memory` is its buffer once the device has created it with the bytes of
/// `sent`. `staging` is the staging buffer of the read-back before the copy,
/// so its contents are arbitrary. `received` is what the read-back decodes
/// from the staging buffer after the copy, once the mapping is granted.
pub proof fn lemma_round_trip(
    sent: CpuStorage,
    received: CpuStorage,
    storage: BufferView,
    memory: Seq<u8>,
    staging: Seq<u8>,
)
    requires
        storage.wf(),
        storage.dtype == sent@.dtype,
        storage.size == sent.bytes().len(),
        holds(memory, sent.bytes(), storage.capacity()),
        staging.len() == storage.capacity(),
        received@.dtype == storage.dtype,
        host_copy(storage, Phase::Mapped, whole(storage.capacity()).run(memory, staging)) == Ok::<
            Seq<u8>,
            WgpuError,
        >(received.bytes()),
    ensures
        received@ == sent@,
{
    lemma_whole_copy(memory, staging);
    received.lemma_bytes_injective(&sent);
}

/// Clone fidelity: the buffer that a duplication fills is the source buffer
/// byte for byte, so a read-back of the duplicate gives what a read-back of
/// the source gives, in every phase and with success and failure alike.
///
/// `fresh` is the new buffer before the copy, so its contents are arbitrary.
pub proof fn lemma_clone_fidelity(
    source: BufferView,
    twin: BufferView,
    plan: Duplicate,
    memory: Seq<u8>,
    fresh: Seq<u8>,
    phase: Phase,
)
    requires
        source.wf(),
        twin == source,
        plan.descriptor == backing(source.size, false),
        plan.copy == whole(source.capacity()),
        memory.len() == source.capacity(),
        fresh.len() == plan.descriptor.size,
    ensures
        plan.copy.run(memory, fresh) == memory,
        host_copy(twin, phase, plan.copy.run(memory, fresh)) == host_copy(source, phase, memory),
{
    lemma_whole_copy(memory, fresh);
}

/// Slots of `w` bytes lie one behind the other.
proof fn lemma_slots(a: nat, b: nat, w: nat)
    requires
        a < b,
    ensures
        a * w + w == (a + 1) * w,
        (a + 1) * w <= b * w,
        0 <= a * w,
{
    assert(a * w + w == (a + 1) * w) by (nonlinear_arith);
    assert((a + 1) * w <= b * w) by (nonlinear_arith)
        requires
            a < b,
    ;
    assert(0 <= a * w) by (nonlinear_arith);
}

/// After the copies of the first `n` elements of a layout, one by one, the
/// destination holds these elements from element `dst_offset` on, and is
/// otherwise as it was.
///
/// `w` is the element width and `src_len` the number of elements of the
/// source.
pub proof fn lemma_element_copies(
    l: LayoutView,
    w: nat,
    dst_offset: nat,
    n: nat,
    src_len: nat,
    src: Seq<u8>,
    dst: Seq<u8>,
)
    requires
        l.wf(),
        l.fits(src_len),
        w > 0,
        src_len * w <= src.len() <= u64::MAX,
        (dst_offset + n) * w <= dst.len() <= u64::MAX,
    ensures
        run_all(element_copies(l, w, dst_offset, n), src, dst).len() == dst.len(),
        forall|k: int, b: int|
            0 <= k < n && 0 <= b < w ==> #[trigger] run_all(
                element_copies(l, w, dst_offset, n),
                src,
                dst,
            )[(dst_offset + k) * w + b] == src[l.index(k as nat) * w + b],
        forall|i: int|
            0 <= i < dst.len() && !(dst_offset * w <= i < (dst_offset + n) * w)
                ==> #[trigger] run_all(element_copies(l, w, dst_offset, n), src, dst)[i] == dst[i],
    decreases n,
{
    let copies = element_copies(l, w, dst_offset, n);
    let out = run_all(copies, src, dst);
    if n > 0 {
        let m = (n - 1) as nat;
        let before = run_all(element_copies(l, w, dst_offset, m), src, dst);
        assert(copies.drop_last() =~= element_copies(l, w, dst_offset, m));
        let last = copies.last();
        assert(last == element_copy(l, w, dst_offset, m));
        lemma_slots(dst_offset + m, dst_offset + n, w);
        lemma_element_copies(l, w, dst_offset, m, src_len, src, dst);
        lemma_offset_within_extent(l.dims, l.stride, m);
        lemma_slots(l.index(m), src_len, w);
        let s = l.index(m) * w;
        let d = (dst_offset + m) * w;
        assert(last.src_offset == s && last.dst_offset == d && last.size == w);
        assert(out == last.run(src, before));
        assert forall|k: int, b: int| 0 <= k < n && 0 <= b < w implies #[trigger] out[(dst_offset
            + k) * w + b] == src[l.index(k as nat) * w + b] by {
            if k < m {
                lemma_slots((dst_offset + k) as nat, dst_offset + m, w);
            }
        }
        assert forall|i: int|
            0 <= i < dst.len() && !(dst_offset * w <= i < (dst_offset + n) * w)
                implies #[trigger] out[i] == dst[i] by {
            if m > 0 {
                lemma_slots(dst_offset, dst_offset + m, w);
            }
        }
    } else {
        assert(copies =~= Seq::<CopyRegion>::empty());
    }
}

/// Layout-respecting copy: after the copies of a strided copy, the
/// destination holds the elements that the layout picks from the source, in
/// row-major order from element `dst_offset` on, and is otherwise as it was.
///
/// `w` is the element width and `src_len` the number of elements of the
/// source.
pub proof fn lemma_strided_copy(
    l: LayoutView,
    w: nat,
    dst_offset: nat,
    src_len: nat,
    src: Seq<u8>,
    dst: Seq<u8>,
)
    requires
        l.wf(),
        l.fits(src_len),
        w > 0,
        src_len * w <= src.len() <= u64::MAX,
        (dst_offset + count(l.dims)) * w <= dst.len() <= u64::MAX,
    ensures
        run_all(strided_copies(l, w, dst_offset), src, dst).len() == dst.len(),
        forall|k: int, b: int|
            0 <= k < count(l.dims) && 0 <= b < w ==> #[trigger] run_all(
                strided_copies(l, w, dst_offset),
                src,
                dst,
            )[(dst_offset + k) * w + b] == src[l.index(k as nat) * w + b],
        forall|i: int|
            0 <= i < dst.len() && !(dst_offset * w <= i < (dst_offset + count(l.dims)) * w)
                ==> #[trigger] run_all(strided_copies(l, w, dst_offset), src, dst)[i] == dst[i],
{
    let n = count(l.dims);
    if l.contiguous() {
        let block = block_copy(l, w, dst_offset, n);
        let copies = strided_copies(l, w, dst_offset);
        let out = run_all(copies, src, dst);
        assert(copies.drop_last() =~= Seq::<CopyRegion>::empty());
        assert(copies.last() == block);
        assert(run_all(copies.drop_last(), src, dst) == dst);
        assert(out == block.run(src, dst));
        let s = l.start_offset * w;
        let d = dst_offset * w;
        assert(0 <= s <= src_len * w && 0 <= d && d + n * w == (dst_offset + n) * w)
            by (nonlinear_arith)
            requires
                s == l.start_offset * w,
                d == dst_offset * w,
                l.start_offset < src_len,
        ;
        assert(block.src_offset == s && block.dst_offset == d && block.size == n * w);
        assert forall|k: int, b: int| 0 <= k < n && 0 <= b < w implies #[trigger] out[(dst_offset
            + k) * w + b] == src[l.index(k as nat) * w + b] by {
            l.lemma_contiguous_index(k as nat);
            let i = (dst_offset + k) * w + b;
            assert(d <= i < d + n * w && i - d + s == (l.start_offset + k) * w + b)
                by (nonlinear_arith)
                requires
                    i == (dst_offset + k) * w + b,
                    d == dst_offset * w,
                    s == l.start_offset * w,
                    0 <= k < n,
                    0 <= b < w,
            ;
        }
    } else {
        lemma_element_copies(l, w, dst_offset, n, src_len, src, dst);
    }
}

/// Elements that are whole words lie at word boundaries.
proof fn lemma_whole_words(a: nat, w: nat)
    requires
        w % 4 == 0,
    ensures
        (a * w) % 4 == 0,
{
    let q = w / 4;
    assert(a * w == (a * q) * 4) by (nonlinear_arith)
        requires
            w == 4 * q,
    ;
    vstd::arithmetic::div_mod::lemma_mod_multiples_basic((a * q) as int, 4);
}

/// The device accepts every copy of a strided copy that the backend plans:
/// each moves whole words between word boundaries, reads inside the data of
/// the source and writes inside the data of the destination.
pub proof fn lemma_copies_accepted(
    src: BufferView,
    dst: BufferView,
    dst_offset: nat,
    l: LayoutView,
    i: int,
)
    requires
        src.wf(),
        dst.wf(),
        l.wf(),
        strided_copy_check(src, dst, dst_offset, l) is Ok,
        0 <= i < strided_copies(l, src.dtype.width(), dst_offset).len(),
    ensures
        strided_copies(l, src.dtype.width(), dst_offset)[i].aligned(),
        strided_copies(l, src.dtype.width(), dst_offset)[i].fits(src.size, dst.size),
{
    let w = src.dtype.width();
    let n = count(l.dims);
    let copy = strided_copies(l, w, dst_offset)[i];
    assert(src.len() * w == src.size && dst.len() * w == dst.size) by (nonlinear_arith)
        requires
            w > 0,
            src.size % w == 0,
            dst.size % w == 0,
            src.len() == src.size / w,
            dst.len() == dst.size / w,
    ;
    lemma_count_at_least_one(l.dims);
    if l.contiguous() {
        l.lemma_contiguous_index((n - 1) as nat);
        lemma_offset_within_extent(l.dims, l.stride, (n - 1) as nat);
        assert(l.start_offset * w + n * w <= src.len() * w && dst_offset * w + n * w <= dst.len()
            * w && 0 <= l.start_offset * w && 0 <= dst_offset * w && 0 <= n * w)
            by (nonlinear_arith)
            requires
                l.start_offset + n <= src.len(),
                dst_offset + n <= dst.len(),
                w > 0,
        ;
    } else {
        lemma_offset_within_extent(l.dims, l.stride, i as nat);
        let at = l.index(i as nat);
        assert(copy == element_copy(l, w, dst_offset, i as nat));
        assert(at * w + w <= src.len() * w && (dst_offset + i) * w + w <= dst.len() * w && 0 <= at
            * w && 0 <= (dst_offset + i) * w) by (nonlinear_arith)
            requires
                at < src.len(),
                dst_offset + i < dst.len(),
                0 <= i,
                w > 0,
        ;
        lemma_whole_words(at, w);
        lemma_whole_words(dst_offset + i as nat, w);
    }
}

/// The reference strided copy on the host: the first `n` elements that the
/// layout picks from `xs`, in row-major order.
pub open spec fn gather<W: Word>(xs: Seq<W>, l: LayoutView, n: nat) -> Seq<W> {
    Seq::new(n, |k: int| xs[l.index(k as nat) as int])
}

/// Layout-respecting copy, read on the host: where the source holds the
/// elements `xs` and the destination the elements `ys`, the destination
/// holds after a strided copy what a strided copy on the host puts there.
/// From element `dst_offset` on it holds the elements that the layout picks
/// from `xs`, and every other element is as it was.
pub proof fn lemma_strided_copy_elements<W: Word>(
    l: LayoutView,
    dst_offset: nat,
    xs: Seq<W>,
    ys: Seq<W>,
    src: Seq<u8>,
    dst: Seq<u8>,
)
    requires
        l.wf(),
        l.fits(xs.len()),
        dst_offset + count(l.dims) <= ys.len(),
        holds(src, image(xs), src.len()),
        holds(dst, image(ys), dst.len()),
        src.len() <= u64::MAX,
        dst.len() <= u64::MAX,
    ensures
        ({
            let n = count(l.dims);
            let out = run_all(strided_copies(l, W::width(), dst_offset), src, dst);
            let zs = parse::<W>(out, ys.len());
            &&& zs.len() == ys.len()
            &&& zs.subrange(dst_offset as int, (dst_offset + n) as int) == gather(xs, l, n)
            &&& forall|i: int|
                0 <= i < ys.len() && !(dst_offset <= i < dst_offset + n) ==> zs[i] == ys[i]
        }),
{
    let w = W::width();
    W::lemma_width();
    let n = count(l.dims);
    let out = run_all(strided_copies(l, w, dst_offset), src, dst);
    let zs = parse::<W>(out, ys.len());
    lemma_image_len(xs);
    lemma_image_len(ys);
    lemma_slots((dst_offset + n) as nat, (ys.len() + 1) as nat, w);
    assert((dst_offset + n) * w <= ys.len() * w) by (nonlinear_arith)
        requires
            dst_offset + n <= ys.len(),
            w > 0,
    ;
    lemma_strided_copy(l, w, dst_offset, xs.len(), src, dst);
    lemma_parse_len::<W>(out, ys.len());
    assert forall|i: int| 0 <= i < ys.len() implies #[trigger] zs[i] == (if dst_offset <= i
        < dst_offset + n {
        xs[l.index((i - dst_offset) as nat) as int]
    } else {
        ys[i]
    }) by {
        lemma_parse_index::<W>(out, ys.len(), i);
        lemma_image_slot(ys, i);
        let lo = i * w;
        let hi = (i + 1) * w;
        assert(lo + w == hi && 0 <= lo) by (nonlinear_arith)
            requires
                lo == i * w,
                hi == (i + 1) * w,
                0 <= i,
                w > 0,
        ;
        if dst_offset <= i < dst_offset + n {
            let k = i - dst_offset;
            let at = l.index(k as nat) as int;
            lemma_offset_within_extent(l.dims, l.stride, k as nat);
            lemma_image_slot(xs, at);
            let s = at * w;
            assert(s + w == (at + 1) * w) by (nonlinear_arith)
                requires
                    s == at * w,
            ;
            assert forall|b: int| 0 <= b < w implies #[trigger] out.subrange(lo, hi)[b]
                == src.subrange(s, s + w)[b] by {
                assert(out[(dst_offset + k) * w + b] == src[l.index(k as nat) * w + b]);
            }
            assert(out.subrange(lo, hi) =~= src.subrange(s, s + w));
            assert(src.subrange(s, s + w) =~= image(xs).subrange(s, s + w));
            W::lemma_bits(xs[at]);
            lemma_value_of_digits(xs[at].bits(), w);
        } else {
            assert forall|b: int| 0 <= b < w implies #[trigger] out.subrange(lo, hi)[b]
                == dst.subrange(lo, hi)[b] by {
                if i < dst_offset {
                    lemma_slots(i as nat, dst_offset, w);
                } else {
                    assert((dst_offset + n) * w <= i * w) by (nonlinear_arith)
                        requires
                            dst_offset + n <= i,
                            w > 0,
                    ;
                }
                lemma_slots(i as nat, ys.len(), w);
            }
            assert(out.subrange(lo, hi) =~= dst.subrange(lo, hi));
            assert(dst.subrange(lo, hi) =~= image(ys).subrange(lo, hi));
            W::lemma_bits(ys[i]);
            lemma_value_of_digits(ys[i].bits(), w);
        }
    }
    assert(zs.subrange(dst_offset as int, (dst_offset + n) as int) =~= gather(xs, l, n));
}

} // verus!
