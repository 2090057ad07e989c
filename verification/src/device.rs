//! Device contexts.
//!
//! A device context stands for one open connection to a compute device. The
//! connection itself lives with the caller, who talks to the driver: this
//! module decides. It picks the adapter, says which limits to ask for, and
//! turns what the driver answered into a context or a failure. Later it says
//! how large an allocation may be and how to describe it to the device.

use crate::error::{InitFailure, WgpuError};
use crate::readback::Signal;
use vstd::prelude::*;

verus! {

/// The device copies whole words of this many bytes: offsets and sizes of a
/// buffer-to-buffer copy are multiples of it.
pub const COPY_ALIGNMENT: u64 = 4;

/// What an allocation reads of a device's limits.
#[derive(Clone, Copy, Debug, PartialEq, Eq, Structural)]
pub struct Limits {
    /// The largest buffer, in bytes.
    pub max_buffer_size: u64,
}

/// What a buffer may be used for.
#[derive(Clone, Copy, Debug, PartialEq, Eq, Structural)]
pub struct BufferUsages {
    /// Kernels read and write it.
    pub storage: bool,
    /// Copies read from it.
    pub copy_src: bool,
    /// Copies write to it.
    pub copy_dst: bool,
    /// The host maps it for reading.
    pub map_read: bool,
}

impl BufferUsages {
    /// The usage of a buffer that backs a storage: kernels work on it and
    /// copies go both ways. The host cannot map it.
    pub open spec fn spec_operational() -> BufferUsages {
        BufferUsages { storage: true, copy_src: true, copy_dst: true, map_read: false }
    }

    /// The usage of a staging buffer: a copy fills it and the host maps it.
    pub open spec fn spec_staging() -> BufferUsages {
        BufferUsages { storage: false, copy_src: false, copy_dst: true, map_read: true }
    }

    #[verifier::when_used_as_spec(spec_operational)]
    pub fn operational() -> (u: BufferUsages)
        ensures
            u == Self::spec_operational(),
    {
        BufferUsages { storage: true, copy_src: true, copy_dst: true, map_read: false }
    }

    #[verifier::when_used_as_spec(spec_staging)]
    pub fn staging() -> (u: BufferUsages)
        ensures
            u == Self::spec_staging(),
    {
        BufferUsages { storage: false, copy_src: false, copy_dst: true, map_read: true }
    }
}

/// How the device is asked for a buffer.
#[derive(Clone, Copy, Debug, PartialEq, Eq, Structural)]
pub struct BufferDescriptor {
    /// Bytes to allocate.
    pub size: u64,
    pub usage: BufferUsages,
    /// Whether the buffer starts out mapped, so that the host can fill it.
    pub mapped_at_creation: bool,
}

/// Where a device context runs.
#[derive(Clone, Copy, Debug, PartialEq, Eq, Structural)]
pub enum DeviceLocation {
    Wgpu { gpu_id: usize },
}

/// The bytes that the device sets aside for `size` bytes of data: `size`
/// rounded up to whole words, so that the buffer can be copied as a whole.
pub open spec fn spec_capacity(size: nat) -> nat {
    if size % (COPY_ALIGNMENT as nat) == 0 {
        size
    } else {
        (size + COPY_ALIGNMENT - size % (COPY_ALIGNMENT as nat)) as nat
    }
}

/// The capacity is the least whole number of words that holds the data:
/// no multiple `c` of the word size that holds it is smaller.
pub proof fn lemma_capacity(size: nat, c: nat)
    requires
        size <= c,
        c % 4 == 0,
    ensures
        size <= spec_capacity(size) <= c,
        spec_capacity(size) % 4 == 0,
{
}

/// The bytes that the device sets aside for `size` bytes of data, or `None`
/// where that number exceeds every limit a device can have.
pub fn capacity(size: usize) -> (c: Option<u64>)
    ensures
        c is Some <==> spec_capacity(size as nat) <= u64::MAX,
        c matches Some(n) ==> n == spec_capacity(size as nat),
{
    let size: u64 = size as u64;
    let rest: u64 = size % COPY_ALIGNMENT;
    if rest == 0 {
        Some(size)
    } else {
        size.checked_add(COPY_ALIGNMENT - rest)
    }
}

/// The `max_buffer_size` of `wgpu::Limits::downlevel_defaults()`, the limits
/// that the backend asks every device for. Trusted: wgpu sets that field to
/// `1 << 28`, which is 256 MiB.
#[verifier::external_body]
fn downlevel_max_buffer_size() -> (n: u64)
    ensures
        n == 0x1000_0000,
{
    wgpu::Limits::downlevel_defaults().max_buffer_size
}

/// The limits that the backend asks every device for.
pub open spec fn spec_required_limits() -> Limits {
    Limits { max_buffer_size: 0x1000_0000 }
}

/// The limits that the backend asks every device for.
#[verifier::when_used_as_spec(spec_required_limits)]
pub fn required_limits() -> (l: Limits)
    ensures
        l == spec_required_limits(),
{
    Limits { max_buffer_size: downlevel_max_buffer_size() }
}

/// What to ask the driver for, once an adapter is chosen.
#[derive(Clone, Copy, Debug, PartialEq, Eq, Structural)]
pub struct DeviceRequest {
    /// The index of the chosen adapter.
    pub ordinal: usize,
    /// The limits to open the device with.
    pub limits: Limits,
}

/// One open connection to a compute device.
#[derive(Clone, Copy, Debug, PartialEq, Eq, Structural)]
pub struct Device {
    /// The index of the adapter that the device was opened on.
    pub ordinal: usize,
    /// The connection's identity: no two open connections share one.
    pub connection: u64,
    /// The limits that the device was opened with.
    pub limits: Limits,
}

impl Device {
    /// Whether `selector` names one of `adapters` and that adapter can give
    /// the required limits.
    pub open spec fn spec_negotiate(selector: usize, adapters: Seq<Limits>) -> Result<
        DeviceRequest,
        WgpuError,
    > {
        if selector >= adapters.len() {
            Err(WgpuError::DeviceInitError(InitFailure::NoAdapter))
        } else if adapters[selector as int].max_buffer_size < required_limits().max_buffer_size {
            Err(WgpuError::DeviceInitError(InitFailure::Limits))
        } else {
            Ok(DeviceRequest { ordinal: selector, limits: required_limits() })
        }
    }

    /// Chooses the adapter that `selector` names among `adapters`, each given
    /// by its limits, and says what to ask the driver for.
    pub fn negotiate(selector: usize, adapters: &Vec<Limits>) -> (r: Result<
        DeviceRequest,
        WgpuError,
    >)
        ensures
            r == Self::spec_negotiate(selector, adapters@),
    {
        if selector >= adapters.len() {
            return Err(WgpuError::DeviceInitError(InitFailure::NoAdapter));
        }
        let required: Limits = required_limits();
        if adapters[selector].max_buffer_size < required.max_buffer_size {
            return Err(WgpuError::DeviceInitError(InitFailure::Limits));
        }
        Ok(DeviceRequest { ordinal: selector, limits: required })
    }

    /// The context for a request that the driver answered: with the identity
    /// of the connection it opened, or with nothing where it refused.
    pub fn create(request: DeviceRequest, connection: Option<u64>) -> (r: Result<
        Device,
        WgpuError,
    >)
        ensures
            r == match connection {
                Some(id) => Ok(
                    Device { ordinal: request.ordinal, connection: id, limits: request.limits },
                ),
                None => Err::<Device, WgpuError>(WgpuError::DeviceInitError(InitFailure::Driver)),
            },
    {
        match connection {
            Some(id) => Ok(
                Device { ordinal: request.ordinal, connection: id, limits: request.limits },
            ),
            None => Err(WgpuError::DeviceInitError(InitFailure::Driver)),
        }
    }
}

/// A handle to a device context. Every storage holds one; copies of a handle
/// stand for the same context.
#[derive(Clone, Copy, Debug, PartialEq, Eq, Structural)]
pub struct WgpuDevice(pub Device);

impl View for WgpuDevice {
    type V = Device;

    open spec fn view(&self) -> Device {
        self.0
    }
}

impl WgpuDevice {
    /// Whether an allocation of `byte_size` bytes is within the limits.
    pub open spec fn admits(&self, byte_size: nat) -> bool {
        byte_size <= self@.limits.max_buffer_size
    }

    /// Creates the context for the adapter that `ordinal` names.
    ///
    /// `adapters` are the limits of the adapters that the driver lists, and
    /// `connection` is what the driver answered when asked to open the
    /// chosen one. The connection is looked at only where the negotiation
    /// succeeds.
    pub fn new(ordinal: usize, adapters: &Vec<Limits>, connection: Option<u64>) -> (r: Result<
        WgpuDevice,
        WgpuError,
    >)
        ensures
            r == match Device::spec_negotiate(ordinal, adapters@) {
                Err(e) => Err::<WgpuDevice, WgpuError>(e),
                Ok(request) => match connection {
                    None => Err(WgpuError::DeviceInitError(InitFailure::Driver)),
                    Some(id) => Ok(
                        WgpuDevice(
                            Device { ordinal: ordinal, connection: id, limits: required_limits() },
                        ),
                    ),
                },
            },
    {
        let request: DeviceRequest = match Device::negotiate(ordinal, adapters) {
            Ok(request) => request,
            Err(e) => {
                return Err(e);
            },
        };
        match Device::create(request, connection) {
            Ok(device) => Ok(WgpuDevice(device)),
            Err(e) => Err(e),
        }
    }

    /// Where the context runs: on the adapter it was opened on.
    pub fn location(&self) -> (l: DeviceLocation)
        ensures
            l == (DeviceLocation::Wgpu { gpu_id: self@.ordinal }),
    {
        DeviceLocation::Wgpu { gpu_id: self.0.ordinal }
    }

    /// Whether the two handles stand for the same connection.
    pub fn same_device(&self, other: &WgpuDevice) -> (same: bool)
        ensures
            same == (self@.connection == other@.connection),
    {
        self.0.connection == other.0.connection
    }

    /// What a submission amounts to whose wait has ended with `signal`.
    ///
    /// The caller enqueues the commands, submits them and blocks until the
    /// device answers. The commands have completed where the queue reports
    /// idle. A wait that was given up is a timeout, and an answer that no
    /// submission asks for is a failure of its own.
    pub fn submit_and_wait(&self, signal: Signal) -> (r: Result<(), WgpuError>)
        ensures
            r == match signal {
                Signal::QueueIdle => Ok::<(), WgpuError>(()),
                Signal::TimedOut => Err(WgpuError::ReadbackTimeout),
                Signal::MapGranted => Err(WgpuError::MapFailed),
                Signal::MapRejected => Err(WgpuError::MapFailed),
            },
    {
        match signal {
            Signal::QueueIdle => Ok(()),
            Signal::TimedOut => Err(WgpuError::ReadbackTimeout),
            Signal::MapGranted => Err(WgpuError::MapFailed),
            Signal::MapRejected => Err(WgpuError::MapFailed),
        }
    }

    /// Describes a buffer of exactly `byte_size` bytes for `usage`. Its
    /// contents are undefined until something is written to it.
    pub fn allocate_buffer(&self, byte_size: usize, usage: BufferUsages) -> (r: Result<
        BufferDescriptor,
        WgpuError,
    >)
        ensures
            r == if self.admits(byte_size as nat) {
                Ok(
                    BufferDescriptor {
                        size: byte_size as u64,
                        usage: usage,
                        mapped_at_creation: false,
                    },
                )
            } else {
                Err::<BufferDescriptor, WgpuError>(WgpuError::OutOfDeviceMemory)
            },
    {
        if byte_size as u64 > self.0.limits.max_buffer_size {
            return Err(WgpuError::OutOfDeviceMemory);
        }
        Ok(BufferDescriptor { size: byte_size as u64, usage: usage, mapped_at_creation: false })
    }
}

} // verus!
