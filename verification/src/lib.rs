//! The per-frame render pipeline of a real-time ray tracer: the packing of
//! colour channels into pixel words, the conversion of a frame of such words
//! into the bytes of a display surface, the host mirror of the device's frame
//! buffer, the arguments bound to the compute kernel, and the frame loop's
//! state machine.

pub mod bridge;
pub mod color;
pub mod error;
pub mod format;
pub mod frame_loop;
pub mod kernel;
pub mod presenter;
pub mod surface;
