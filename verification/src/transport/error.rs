//! Transport errors.

use vstd::prelude::*;

verus! {

/// `std::io::Error`, carried through opaquely.
#[verifier::external_type_specification]
#[verifier::external_body]
pub struct ExIoError(std::io::Error);

/// `serde_json::Error`, carried through opaquely.
#[verifier::external_type_specification]
#[verifier::external_body]
pub struct ExJsonError(serde_json::Error);

/// Errors of the framed control and media streams.
#[derive(Debug)]
pub enum TransportError {
    /// A frame longer than the protocol's payload cap.
    FrameTooLarge(usize),
    /// The socket failed.
    Io(std::io::Error),
    /// The payload was not valid JSON for the expected message.
    Json(serde_json::Error),
}

} // verus!
