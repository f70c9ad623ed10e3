//! ClearCam desktop core: the ClearCam Protocol (CCP) wire formats, the
//! adaptive-bitrate rules, the session state machines and the media-frame
//! bookkeeping, each with its contract proved by Verus.

pub mod protocol;
pub mod adaptive;
pub mod transport;
pub mod session;
pub mod media;
pub mod desktop;
