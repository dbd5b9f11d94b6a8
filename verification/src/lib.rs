//! Host-side dispatch logic of an OpenCL point-cloud registration pipeline:
//! launch geometry, device-buffer sizing, argument validation, read-back
//! layout, colour packing and device-extension queries.

pub mod launch;
pub mod buffers;
pub mod dispatch;
pub mod readback;
pub mod color;
pub mod extensions;
pub mod correspondence;
