//! Transport-level rules: stream provenance, frame-length checks and USB
//! device bookkeeping. The sockets themselves live with the caller.

pub mod error;
pub mod framing;
pub mod source;
pub mod usb;
pub mod loopback;
pub mod listen;
