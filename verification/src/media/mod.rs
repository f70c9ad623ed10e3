//! Media frames: the shared byte buffers, NV12 plane splitting, frame
//! routing (video or speedtest filler), the passthrough decoder and the
//! speedtest byte counter.

pub mod buffer;
pub mod counter;
pub mod frame;
pub mod decode;
