//! Session rules: UI-facing state, the control handshake, the control-plane
//! reactions, media-socket binding and keepalive.

pub mod error;
pub mod keepalive;
pub mod state;
pub mod handshake;
pub mod controlplane;
pub mod pairing;
