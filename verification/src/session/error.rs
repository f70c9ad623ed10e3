//! Session errors.

use vstd::prelude::*;
use crate::transport::error::TransportError;

verus! {

/// Why a session could not be set up or ended.
#[derive(Debug)]
pub enum SessionError {
    Transport(TransportError),
    HandshakeTimeout,
    Unauthorized,
    IncompatibleProtoVer { peer: u32, local: u32 },
    UnexpectedMessage(&'static str),
    /// The media socket presented an unknown sessionId/token.
    UnknownMediaBinding,
    MediaHandshakeTimeout,
    /// No session id could be drawn: the random source failed.
    SessionIdUnavailable,
    Closed(String),
}

} // verus!
