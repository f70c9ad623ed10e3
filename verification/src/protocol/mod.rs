//! ClearCam Protocol (CCP): pure data types and byte-level (de)serialization.

pub mod envelope;
pub mod wire;
pub mod media;
pub mod version;
pub mod messages;
