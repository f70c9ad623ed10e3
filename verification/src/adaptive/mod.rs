//! Bitrate tables, mode selection, speedtest planning and the live
//! adaptation state machine.

pub mod tables;
pub mod types;
pub mod select;
pub mod speedtest;
pub mod adaptation;
