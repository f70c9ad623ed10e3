//! Control-plane message bodies that carry no floating-point field.

use vstd::prelude::*;
use crate::protocol::version::Capability;

verus! {

/// Device model and OS version reported in `HELLO`.
#[derive(Debug, Clone, PartialEq, Eq)]
pub struct DeviceIdent {
    pub model: String,
    pub os_ver: String,
}

/// First message of a session, sent by the phone.
#[derive(Debug, Clone, PartialEq, Eq)]
pub struct Hello {
    pub proto_ver: u32,
    pub app: String,
    pub device: DeviceIdent,
    pub session_id: String,
    pub caps: Vec<Capability>,
}

/// Desktop's answer to `HELLO`: its protocol version and the agreed capabilities.
#[derive(Debug, Clone, PartialEq, Eq)]
pub struct HelloAck {
    pub proto_ver: u32,
    pub caps: Vec<Capability>,
}

/// Credential presented in `AUTH`: a fresh QR token (Wi-Fi) or a stored
/// pairing key (USB).
#[derive(Debug, Clone, PartialEq, Eq)]
pub enum Auth {
    Token { token: String },
    PairingKey { pairing_key: String },
}

impl Auth {
    /// A token credential.
    pub fn token(token: &str) -> (a: Auth)
        ensures
            a matches Auth::Token { token: t } && t@ == token@,
    {
        Auth::Token { token: token.to_owned() }
    }

    /// A pairing-key credential.
    pub fn pairing_key(key: &str) -> (a: Auth)
        ensures
            a matches Auth::PairingKey { pairing_key: k } && k@ == key@,
    {
        Auth::PairingKey { pairing_key: key.to_owned() }
    }
}

/// Successful authentication: the session id the media socket must present.
#[derive(Debug, Clone, PartialEq, Eq)]
pub struct AuthOk {
    pub session_id: String,
}

/// First frame on the media socket, binding it to a control session.
#[derive(Debug, Clone, PartialEq, Eq)]
pub struct MediaHello {
    pub session_id: String,
    pub token: String,
}

/// Orderly close of a session.
#[derive(Debug, Clone, PartialEq, Eq)]
pub struct Bye {
    pub reason: String,
}

/// Error codes carried by `ERROR`.
#[derive(Debug, Clone, Copy, PartialEq, Eq, Hash, Structural)]
pub enum ErrorCode {
    IncompatibleVersion,
    Unauthorized,
    BadRequest,
    UnsupportedMode,
    CameraUnavailable,
    Internal,
    Timeout,
}

/// Error body. The `seq` of the failing request travels in the envelope's
/// `ack` field, not here.
#[derive(Debug, Clone, PartialEq, Eq)]
pub struct ErrorMsg {
    pub code: ErrorCode,
    pub message: String,
}

/// Battery charging state.
#[derive(Debug, Clone, Copy, PartialEq, Eq, Structural)]
pub enum BatteryState {
    Unknown,
    Unplugged,
    Charging,
    Full,
}

/// Thermal pressure reported by the phone.
#[derive(Debug, Clone, Copy, PartialEq, Eq, Structural)]
pub enum ThermalState {
    Nominal,
    Fair,
    Serious,
    Critical,
}

/// Which side of the phone a camera faces.
#[derive(Debug, Clone, Copy, PartialEq, Eq, Structural)]
pub enum CameraPosition {
    Front,
    Back,
}

/// One camera of the phone and its best mode.
#[derive(Debug, Clone, PartialEq, Eq)]
pub struct CameraEntry {
    pub id: String,
    pub name: String,
    pub position: CameraPosition,
    pub max_width: u16,
    pub max_height: u16,
    pub max_fps: u16,
    /// Supported pixel formats as wire strings (`"nv12"`, `"hevc"`, `"h264"`).
    pub supported_formats: Vec<String>,
}

/// The phone's cameras.
#[derive(Debug, Clone, PartialEq, Eq)]
pub struct CameraList {
    pub cameras: Vec<CameraEntry>,
}

/// Ask the phone to switch camera.
#[derive(Debug, Clone, PartialEq, Eq)]
pub struct SetCamera {
    pub camera_id: String,
}

/// The camera in use and its applied format (free-form, for diagnostics).
#[derive(Debug, Clone, PartialEq, Eq)]
pub struct CameraState {
    pub active_camera_id: String,
    pub applied_format: String,
}

/// Speedtest traffic pattern.
#[derive(Debug, Clone, Copy, PartialEq, Eq, Structural)]
pub enum SpeedtestPattern {
    /// Step pattern: short increasing bitrate ramps.
    Ramp,
}

/// Ask the phone to generate speedtest traffic.
#[derive(Debug, Clone, PartialEq, Eq)]
pub struct SpeedtestStart {
    pub id: String,
    pub target_bitrate_kbps: u32,
    pub duration_ms: u32,
    pub pattern: SpeedtestPattern,
}

/// Progress notification for an in-flight speedtest run.
#[derive(Debug, Clone, PartialEq, Eq)]
pub struct SpeedtestTick {
    pub id: String,
    pub tick_index: u32,
    pub ts_usec: u64,
}

/// Raw or encoded frames.
#[derive(Debug, Clone, Copy, PartialEq, Eq, Structural)]
pub enum FormatKind {
    Raw,
    Encoded,
}

/// Codec named in a [`Mode`].
#[derive(Debug, Clone, Copy, PartialEq, Eq, Structural)]
pub enum CodecName {
    /// No codec (raw frames); `"none"` on the wire.
    NoCodec,
    Hevc,
    H264,
}

/// Pixel layout of raw or decoded frames.
#[derive(Debug, Clone, Copy, PartialEq, Eq, Structural)]
pub enum PixelFormat {
    Nv12,
}

/// A streaming mode: format, codec, geometry, frame rate and bitrate.
#[derive(Debug, Clone, Copy, PartialEq, Eq, Structural)]
pub struct Mode {
    pub format: FormatKind,
    pub codec: CodecName,
    pub width: u16,
    pub height: u16,
    pub fps: u16,
    /// For `Encoded`; ignored for `Raw`.
    pub bitrate_kbps: u32,
    pub pixel_format: PixelFormat,
    pub full_range: bool,
}

/// Start streaming in a mode.
#[derive(Debug, Clone, Copy, PartialEq, Eq, Structural)]
pub struct Start {
    pub mode: Mode,
}

/// Stop streaming.
#[derive(Debug, Clone, Copy, PartialEq, Eq, Structural)]
pub struct Stop {}

/// Switch to another mode while streaming.
#[derive(Debug, Clone, Copy, PartialEq, Eq, Structural)]
pub struct SetMode {
    pub mode: Mode,
}

/// The phone applied a mode, starting at media `seq` `at_seq`.
#[derive(Debug, Clone, Copy, PartialEq, Eq, Structural)]
pub struct ModeApplied {
    pub mode: Mode,
    pub at_seq: u32,
}

/// Keepalive probe.
#[derive(Debug, Clone, Copy, PartialEq, Eq, Structural)]
pub struct Ping {
    pub ts_usec: u64,
}

/// Keepalive answer echoing the probe's timestamp.
#[derive(Debug, Clone, Copy, PartialEq, Eq, Structural)]
pub struct Pong {
    pub ts_usec: u64,
    pub echo_usec: u64,
}

} // verus!
