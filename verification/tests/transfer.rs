//! Uploads, duplications, strided copies and read-backs, carried out on a
//! stand-in for the device: buffers are byte vectors, and a copy is refused
//! where the device would refuse it.

use wgpu_backend::cpu_storage::CpuStorage;
use wgpu_backend::device::{BufferDescriptor, BufferUsages, Limits, WgpuDevice};
use wgpu_backend::dtype::DType;
use wgpu_backend::error::{Op, WgpuError};
use wgpu_backend::layout::{Layout, Shape};
use wgpu_backend::memory::CopyRegion;
use wgpu_backend::readback::{Action, Phase, Signal};
use wgpu_backend::storage::{Buffer, BufferState, Upload, WgpuStorage};

/// What a buffer holds before anything is written to it.
const JUNK: u8 = 0xa5;

fn device(connection: u64) -> WgpuDevice {
    let adapters = vec![Limits { max_buffer_size: 1 << 30 }];
    WgpuDevice::new(0, &adapters, Some(connection)).unwrap()
}

fn create(descriptor: &BufferDescriptor) -> Vec<u8> {
    assert!(!descriptor.mapped_at_creation || descriptor.size % 4 == 0);
    vec![JUNK; descriptor.size as usize]
}

fn create_init(upload: &Upload) -> Vec<u8> {
    let mut memory = create(&upload.descriptor);
    assert_eq!(upload.descriptor.mapped_at_creation, !upload.contents.is_empty());
    memory[..upload.contents.len()].copy_from_slice(&upload.contents);
    memory
}

fn copy(region: &CopyRegion, src: &[u8], dst: &mut [u8]) {
    assert_eq!(region.src_offset % 4, 0);
    assert_eq!(region.dst_offset % 4, 0);
    assert_eq!(region.size % 4, 0);
    let s = region.src_offset as usize;
    let d = region.dst_offset as usize;
    let n = region.size as usize;
    dst[d..d + n].copy_from_slice(&src[s..s + n]);
}

fn read_back(storage: &WgpuStorage, memory: &[u8]) -> Result<CpuStorage, WgpuError> {
    let (mut readback, mut action) = storage.readback();
    let mut staging: Vec<u8> = Vec::new();
    loop {
        match action {
            Action::Stage { staging: descriptor, copy: region } => {
                assert_eq!(descriptor.usage, BufferUsages::staging());
                staging = create(&descriptor);
                copy(&region, memory, &mut staging);
                action = readback.signal(Signal::QueueIdle);
            }
            Action::RequestMap { len } => {
                assert_eq!(len % 4, 0);
                assert_eq!(len as usize, staging.len());
                action = readback.signal(Signal::MapGranted);
            }
            Action::Read { len } => {
                return storage.to_cpu_storage(&readback, &staging[..len as usize]);
            }
            Action::Wait => panic!("nothing is outstanding"),
            Action::Fail { error } => return Err(error),
        }
    }
}

fn upload(device: &WgpuDevice, host: &CpuStorage) -> (WgpuStorage, Vec<u8>) {
    let (storage, plan) = device.storage_from_cpu_storage(host).unwrap();
    let memory = create_init(&plan);
    (storage, memory)
}

fn round_trip(host: CpuStorage) {
    let device = device(1);
    let (storage, memory) = upload(&device, &host);
    assert_eq!(storage.dtype(), host.dtype());
    assert_eq!(storage.buffer().len(), host.len());
    assert_eq!(storage.buffer().state(), BufferState::Populated);
    assert_eq!(read_back(&storage, &memory), Ok(host));
}

fn floats(values: &[f32]) -> CpuStorage {
    CpuStorage::F32(values.iter().map(|v| v.to_bits()).collect())
}

#[test]
fn upload_then_read_back_f32_two_by_two() {
    let device = device(1);
    let layout = Layout::contiguous(Shape::from_dims(vec![2, 2])).unwrap();
    let host = floats(&[1.0, 2.0, 3.0, 4.0]);
    let (storage, plan) = device.storage_from_cpu_storage(&host).unwrap();
    assert_eq!(plan.descriptor.size, 16);
    assert_eq!(plan.descriptor.usage, BufferUsages::operational());
    assert!(plan.descriptor.mapped_at_creation);
    assert_eq!(
        plan.contents,
        vec![0, 0, 0x80, 0x3f, 0, 0, 0, 0x40, 0, 0, 0x40, 0x40, 0, 0, 0x80, 0x40]
    );
    let memory = create_init(&plan);
    let back = read_back(&storage, &memory).unwrap();
    assert_eq!(back, floats(&[1.0, 2.0, 3.0, 4.0]));
    match back {
        CpuStorage::F32(bits) => {
            let values: Vec<f32> = bits.iter().map(|b| f32::from_bits(*b)).collect();
            assert_eq!(values, vec![1.0, 2.0, 3.0, 4.0]);
        }
        _ => panic!("the element type changed"),
    }
    assert_eq!(layout.dims(), &vec![2, 2]);
    assert_eq!(layout.stride(), &vec![2, 1]);
    assert_eq!(layout.start_offset(), 0);
}

#[test]
fn round_trip_u8_with_padding() {
    round_trip(CpuStorage::U8(vec![1, 2, 3, 4, 5]));
}

#[test]
fn round_trip_u32() {
    round_trip(CpuStorage::U32(vec![0, 1, 0xdead_beef, u32::MAX]));
}

#[test]
fn round_trip_i64() {
    round_trip(CpuStorage::I64(vec![0, -1, 1, i64::MIN, i64::MAX, -0x0123_4567_89ab_cdef]));
}

#[test]
fn round_trip_bf16_odd_count() {
    round_trip(CpuStorage::BF16(vec![0x3f80, 0x4000, 0xffff]));
}

#[test]
fn round_trip_f16() {
    round_trip(CpuStorage::F16(vec![0x3c00, 0x7c00, 0x0001, 0x8000]));
}

#[test]
fn round_trip_f32_keeps_every_bit() {
    round_trip(CpuStorage::F32(vec![
        f32::NAN.to_bits(),
        0x7fc0_0001,
        (-0.0f32).to_bits(),
        f32::INFINITY.to_bits(),
        f32::MIN_POSITIVE.to_bits(),
    ]));
}

#[test]
fn round_trip_f64() {
    round_trip(CpuStorage::F64(vec![
        1.5f64.to_bits(),
        (-2.25f64).to_bits(),
        f64::MAX.to_bits(),
        0x7ff8_0000_0000_0001,
    ]));
}

#[test]
fn round_trip_of_every_type_when_empty() {
    round_trip(CpuStorage::U8(vec![]));
    round_trip(CpuStorage::U32(vec![]));
    round_trip(CpuStorage::I64(vec![]));
    round_trip(CpuStorage::BF16(vec![]));
    round_trip(CpuStorage::F16(vec![]));
    round_trip(CpuStorage::F32(vec![]));
    round_trip(CpuStorage::F64(vec![]));
}

#[test]
fn empty_upload_asks_for_an_empty_unmapped_buffer() {
    let device = device(1);
    let (storage, plan) = device.storage_from_cpu_storage(&CpuStorage::F64(vec![])).unwrap();
    assert_eq!(plan.descriptor.size, 0);
    assert!(!plan.descriptor.mapped_at_creation);
    assert!(plan.contents.is_empty());
    let (readback, action) = storage.readback();
    assert_eq!(readback.phase(), Phase::Mapped);
    assert_eq!(action, Action::Read { len: 0 });
}

#[test]
fn upload_pads_the_buffer_to_whole_words() {
    let device = device(1);
    let (storage, plan) = device.upload(DType::U8, vec![9, 8, 7, 6, 5]).unwrap();
    assert_eq!(plan.descriptor.size, 8);
    assert_eq!(plan.contents, vec![9, 8, 7, 6, 5]);
    assert_eq!(storage.buffer().size(), 5);
    assert_eq!(storage.buffer().capacity(), 8);
    assert_eq!(storage.buffer().len(), 5);
}

#[test]
fn upload_refuses_half_an_element() {
    let device = device(1);
    assert_eq!(device.upload(DType::U32, vec![1, 2, 3, 4, 5, 6]), Err(WgpuError::LayoutError));
    assert_eq!(device.upload(DType::F64, vec![0; 12]), Err(WgpuError::LayoutError));
    assert!(device.upload(DType::F64, vec![0; 16]).is_ok());
}

#[test]
fn clone_reads_back_as_the_source() {
    let device = device(1);
    let layout = Layout::contiguous(Shape::from_dims(vec![3])).unwrap();
    let host = CpuStorage::BF16(vec![0x1111, 0x2222, 0x3333]);
    let (source, source_memory) = upload(&device, &host);
    let (twin, plan) = source.try_clone(&layout).unwrap();
    assert_eq!(plan.descriptor.size, 8);
    assert_eq!(plan.descriptor.usage, BufferUsages::operational());
    assert!(!plan.descriptor.mapped_at_creation);
    assert_eq!(plan.copy, CopyRegion { src_offset: 0, dst_offset: 0, size: 8 });
    let mut twin_memory = create(&plan.descriptor);
    copy(&plan.copy, &source_memory, &mut twin_memory);
    assert_eq!(twin_memory, source_memory);
    assert_eq!(twin.dtype(), source.dtype());
    assert_eq!(twin.buffer().size(), source.buffer().size());
    assert_eq!(twin.device(), source.device());
    assert_eq!(read_back(&twin, &twin_memory), read_back(&source, &source_memory));
    assert_eq!(read_back(&twin, &twin_memory), Ok(host));
}

#[test]
fn clone_is_a_buffer_of_its_own() {
    let device = device(1);
    let layout = Layout::contiguous(Shape::from_dims(vec![4])).unwrap();
    let host = CpuStorage::U32(vec![10, 20, 30, 40]);
    let (source, source_memory) = upload(&device, &host);
    let (mut twin, plan) = source.try_clone(&layout).unwrap();
    let mut twin_memory = create(&plan.descriptor);
    copy(&plan.copy, &source_memory, &mut twin_memory);

    let (other, other_memory) = upload(&device, &CpuStorage::U32(vec![7, 8]));
    let two = Layout::contiguous(Shape::from_dims(vec![2])).unwrap();
    let strided = other.copy_strided_src(&mut twin, 1, &two).unwrap();
    for region in strided.regions.iter() {
        copy(region, &other_memory, &mut twin_memory);
    }
    assert_eq!(read_back(&twin, &twin_memory), Ok(CpuStorage::U32(vec![10, 7, 8, 40])));
    assert_eq!(read_back(&source, &source_memory), Ok(host));
}

#[test]
fn clone_of_an_uninitialized_buffer_stays_uninitialized() {
    let device = device(1);
    let layout = Layout::contiguous(Shape::from_dims(vec![2])).unwrap();
    let (buffer, descriptor) = Buffer::uninit(&device, 8, DType::F32).unwrap();
    assert_eq!(descriptor.size, 8);
    assert_eq!(descriptor.usage, BufferUsages::operational());
    assert!(!descriptor.mapped_at_creation);
    assert_eq!(buffer.state(), BufferState::Uninitialized);
    let storage = WgpuStorage::from_buffer(buffer);
    let (twin, _) = storage.try_clone(&layout).unwrap();
    assert_eq!(twin.buffer().state(), BufferState::Uninitialized);
}

/// The strided copy as the host would do it.
fn reference_copy(
    src: &[u32],
    dst: &[u32],
    dst_offset: usize,
    dims: &[usize],
    stride: &[usize],
    start: usize,
) -> Vec<u32> {
    let mut out = dst.to_vec();
    let count: usize = dims.iter().product();
    for k in 0..count {
        let mut rest = k;
        let mut at = start;
        for axis in (0..dims.len()).rev() {
            at += (rest % dims[axis]) * stride[axis];
            rest /= dims[axis];
        }
        out[dst_offset + k] = src[at];
    }
    out
}

fn strided_case(dims: Vec<usize>, stride: Vec<usize>, start: usize, dst_offset: usize) {
    let device = device(1);
    let src: Vec<u32> = (100..124).collect();
    let dst: Vec<u32> = (0..30).collect();
    let expected = reference_copy(&src, &dst, dst_offset, &dims, &stride, start);
    let (source, source_memory) = upload(&device, &CpuStorage::F32(src));
    let (mut target, mut target_memory) = upload(&device, &CpuStorage::F32(dst));
    let layout = Layout::new(Shape::from_dims(dims), stride, start).unwrap();
    let plan = source.copy_strided_src(&mut target, dst_offset, &layout).unwrap();
    for region in plan.regions.iter() {
        copy(region, &source_memory, &mut target_memory);
    }
    assert_eq!(read_back(&target, &target_memory), Ok(CpuStorage::F32(expected)));
}

#[test]
fn strided_copy_of_a_transpose() {
    strided_case(vec![4, 3], vec![1, 4], 0, 0);
}

#[test]
fn strided_copy_with_offsets() {
    strided_case(vec![2, 3], vec![6, 2], 5, 7);
}

#[test]
fn strided_copy_of_a_broadcast() {
    strided_case(vec![3, 4], vec![0, 1], 2, 10);
}

#[test]
fn strided_copy_of_a_contiguous_block() {
    strided_case(vec![2, 3, 4], vec![12, 4, 1], 0, 6);
}

#[test]
fn strided_copy_of_a_scalar() {
    strided_case(vec![], vec![], 23, 29);
}

#[test]
fn strided_copy_plans_one_copy_for_each_element() {
    let device = device(1);
    let (source, _) = upload(&device, &CpuStorage::I64(vec![1, 2, 3, 4, 5, 6]));
    let (buffer, _) = Buffer::uninit(&device, 48, DType::I64).unwrap();
    let mut target = WgpuStorage::from_buffer(buffer);
    assert_eq!(target.buffer().state(), BufferState::Uninitialized);
    let layout = Layout::new(Shape::from_dims(vec![3, 2]), vec![1, 3], 0).unwrap();
    let plan = source.copy_strided_src(&mut target, 0, &layout).unwrap();
    assert_eq!(target.buffer().state(), BufferState::Populated);
    let expected: Vec<CopyRegion> = [0u64, 3, 1, 4, 2, 5]
        .iter()
        .enumerate()
        .map(|(k, at)| CopyRegion { src_offset: at * 8, dst_offset: k as u64 * 8, size: 8 })
        .collect();
    assert_eq!(plan.regions, expected);
}

#[test]
fn strided_copy_between_devices_is_a_mismatch() {
    let (source, _) = upload(&device(1), &CpuStorage::U32(vec![1, 2]));
    let (mut target, _) = upload(&device(2), &CpuStorage::U32(vec![3, 4]));
    let layout = Layout::contiguous(Shape::from_dims(vec![2])).unwrap();
    assert_eq!(source.copy_strided_src(&mut target, 0, &layout), Err(WgpuError::DeviceMismatch));
}

#[test]
fn strided_copy_checks_the_layout_before_anything_is_planned() {
    let device = device(1);
    let (source, _) = upload(&device, &CpuStorage::U32(vec![1, 2, 3, 4]));
    let (buffer, _) = Buffer::uninit(&device, 16, DType::U32).unwrap();
    let mut target = WgpuStorage::from_buffer(buffer);
    let shape = || Shape::from_dims(vec![2, 2]);

    let leaves_source = Layout::new(shape(), vec![2, 2], 0).unwrap();
    assert_eq!(
        source.copy_strided_src(&mut target, 0, &leaves_source),
        Err(WgpuError::LayoutError)
    );
    let starts_late = Layout::new(shape(), vec![2, 1], 1).unwrap();
    assert_eq!(source.copy_strided_src(&mut target, 0, &starts_late), Err(WgpuError::LayoutError));
    let fits = Layout::contiguous(shape()).unwrap();
    assert_eq!(source.copy_strided_src(&mut target, 1, &fits), Err(WgpuError::LayoutError));
    assert_eq!(
        source.copy_strided_src(&mut target, usize::MAX, &fits),
        Err(WgpuError::LayoutError)
    );
    assert_eq!(target.buffer().state(), BufferState::Uninitialized);
    assert!(source.copy_strided_src(&mut target, 0, &fits).is_ok());

    let (mut other_type, _) = upload(&device, &CpuStorage::F32(vec![0; 4]));
    assert_eq!(source.copy_strided_src(&mut other_type, 0, &fits), Err(WgpuError::LayoutError));
}

#[test]
fn strided_copy_of_narrow_elements_one_by_one_is_unimplemented() {
    let device = device(1);
    let every_other = Layout::new(Shape::from_dims(vec![4]), vec![2], 0).unwrap();
    for host in [
        CpuStorage::U8(vec![1, 2, 3, 4, 5, 6, 7, 8]),
        CpuStorage::BF16(vec![1, 2, 3, 4, 5, 6, 7, 8]),
        CpuStorage::F16(vec![1, 2, 3, 4, 5, 6, 7, 8]),
    ] {
        let (source, _) = upload(&device, &host);
        let (mut target, _) = upload(&device, &host);
        assert_eq!(
            source.copy_strided_src(&mut target, 0, &every_other),
            Err(WgpuError::Unimplemented(Op::CopyStridedSrc))
        );
    }
}

#[test]
fn strided_copy_of_narrow_elements_off_the_word_boundary_is_unimplemented() {
    let device = device(1);
    let (source, _) = upload(&device, &CpuStorage::U8(vec![1, 2, 3, 4, 5, 6, 7, 8]));
    let (mut target, _) = upload(&device, &CpuStorage::U8(vec![0; 12]));
    let unimplemented = Err(WgpuError::Unimplemented(Op::CopyStridedSrc));
    let four = || Shape::from_dims(vec![4]);
    let three = Layout::contiguous(Shape::from_dims(vec![3])).unwrap();
    assert_eq!(source.copy_strided_src(&mut target, 0, &three), unimplemented);
    let starts_odd = Layout::new(four(), vec![1], 1).unwrap();
    assert_eq!(source.copy_strided_src(&mut target, 0, &starts_odd), unimplemented);
    let aligned = Layout::new(four(), vec![1], 4).unwrap();
    assert_eq!(source.copy_strided_src(&mut target, 2, &aligned), unimplemented);
    let plan = source.copy_strided_src(&mut target, 8, &aligned).unwrap();
    assert_eq!(plan.regions, vec![CopyRegion { src_offset: 4, dst_offset: 8, size: 4 }]);
}

#[test]
fn strided_copy_of_a_contiguous_block_is_a_single_copy() {
    let device = device(1);
    let host = CpuStorage::BF16(vec![10, 11, 12, 13, 14, 15]);
    let (source, source_memory) = upload(&device, &host);
    let (mut target, mut target_memory) = upload(&device, &CpuStorage::BF16(vec![0; 8]));
    let layout = Layout::new(Shape::from_dims(vec![2, 2]), vec![2, 1], 2).unwrap();
    let plan = source.copy_strided_src(&mut target, 4, &layout).unwrap();
    assert_eq!(plan.regions, vec![CopyRegion { src_offset: 4, dst_offset: 8, size: 8 }]);
    for region in plan.regions.iter() {
        copy(region, &source_memory, &mut target_memory);
    }
    assert_eq!(
        read_back(&target, &target_memory),
        Ok(CpuStorage::BF16(vec![0, 0, 0, 0, 12, 13, 14, 15]))
    );
}

#[test]
fn two_uploads_on_one_context_are_read_back_independently() {
    let device = device(1);
    let handle_a = device;
    let handle_b = device;
    let host_a = CpuStorage::U32((0..1000).collect());
    let host_b = CpuStorage::I64((0..1000).map(|v| -v).collect());
    // Both uploads are planned before either is carried out, and they are
    // carried out in the other order.
    let (storage_a, plan_a) = handle_a.storage_from_cpu_storage(&host_a).unwrap();
    let (storage_b, plan_b) = handle_b.storage_from_cpu_storage(&host_b).unwrap();
    let memory_b = create_init(&plan_b);
    let memory_a = create_init(&plan_a);
    assert!(storage_a.same_device(&storage_b));
    assert_eq!(read_back(&storage_b, &memory_b), Ok(host_b));
    assert_eq!(read_back(&storage_a, &memory_a), Ok(host_a));
}

#[test]
fn read_back_decodes_the_data_and_not_the_padding() {
    let device = device(1);
    let (storage, _) = upload(&device, &CpuStorage::U8(vec![1, 2, 3]));
    let (mut readback, _) = storage.readback();
    readback.signal(Signal::QueueIdle);
    readback.signal(Signal::MapGranted);
    assert_eq!(
        storage.to_cpu_storage(&readback, &[1, 2, 3, 0xee]),
        Ok(CpuStorage::U8(vec![1, 2, 3]))
    );
    assert_eq!(storage.to_cpu_storage(&readback, &[1, 2]), Err(WgpuError::MapFailed));
}

#[test]
fn read_back_refuses_to_decode_before_the_mapping_is_granted() {
    let device = device(1);
    let (storage, memory) = upload(&device, &CpuStorage::U32(vec![5]));
    let (mut readback, _) = storage.readback();
    assert_eq!(storage.to_cpu_storage(&readback, &memory), Err(WgpuError::ReadbackTimeout));
    readback.signal(Signal::QueueIdle);
    assert_eq!(storage.to_cpu_storage(&readback, &memory), Err(WgpuError::ReadbackTimeout));
    readback.signal(Signal::QueueIdle);
    assert_eq!(storage.to_cpu_storage(&readback, &memory), Err(WgpuError::ReadbackTimeout));
    readback.signal(Signal::MapGranted);
    assert_eq!(storage.to_cpu_storage(&readback, &memory), Ok(CpuStorage::U32(vec![5])));
}

#[test]
fn read_back_failure_leaves_the_storage_readable() {
    let device = device(1);
    let host = CpuStorage::U32(vec![5, 6]);
    let (storage, memory) = upload(&device, &host);

    let (mut timed_out, _) = storage.readback();
    assert_eq!(
        timed_out.signal(Signal::TimedOut),
        Action::Fail { error: WgpuError::ReadbackTimeout }
    );
    assert_eq!(storage.to_cpu_storage(&timed_out, &memory), Err(WgpuError::ReadbackTimeout));

    let (mut rejected, _) = storage.readback();
    rejected.signal(Signal::QueueIdle);
    assert_eq!(rejected.signal(Signal::MapRejected), Action::Fail { error: WgpuError::MapFailed });
    assert_eq!(storage.to_cpu_storage(&rejected, &memory), Err(WgpuError::MapFailed));

    assert_eq!(read_back(&storage, &memory), Ok(host));
}
