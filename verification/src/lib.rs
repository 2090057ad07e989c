//! A compute backend for tensors that keeps its storages on a GPU.
//!
//! The backend is split in two. This crate holds what can be decided without
//! the device: how host elements lie in device memory, how large a buffer is
//! and whether the device admits it, which copies an operation takes, how a
//! read-back proceeds from one device signal to the next, and how each
//! operation fails. Its results are plans. The caller owns the connection to
//! the device, carries the plans out, and reports back what the device
//! signalled.
//!
//! [`WgpuDevice`] is the handle to a device context and [`WgpuStorage`] a
//! storage on it. [`CpuStorage`] is storage on the host, and a [`Layout`]
//! says how a tensor lies in a storage of either kind.

pub mod cpu_storage;
pub mod device;
pub mod dtype;
pub mod error;
pub mod layout;
pub mod memory;
pub mod ops;
pub mod readback;
pub mod storage;
pub mod transfer;
pub mod word;

pub use cpu_storage::CpuStorage;
pub use device::{Device, WgpuDevice};
pub use dtype::DType;
pub use error::WgpuError;
pub use layout::{Layout, Shape};
pub use storage::{Buffer, WgpuStorage};
