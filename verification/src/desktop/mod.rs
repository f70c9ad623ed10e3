//! Desktop-side session setup: the QR pairing token, the per-device pairing
//! keys and the payload that the phone scans.

pub mod b64;
pub mod token;
pub mod pairing_store;
pub mod qr;
pub mod usb_session;
