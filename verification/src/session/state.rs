//! Coarse-grained, UI-facing state of one session.

use vstd::prelude::*;

verus! {

/// Transport discriminator: Wi-Fi or USB.
#[derive(Debug, Clone, Copy, PartialEq, Eq, Structural)]
pub enum TransportTag {
    Wifi,
    Usb,
}

/// Coarse-grained state of one session, as the UI shows it.
#[derive(Debug, Clone, PartialEq, Eq)]
pub enum SessionStateKind {
    Idle,
    Listening { control_port: u16, media_port: u16 },
    /// Wi-Fi inbound handshake (labelled `handshaking` for wire compatibility).
    WifiHandshake,
    /// USB outbound handshake; carries the UDID of the dialed device.
    UsbHandshake { udid: String },
    Ready,
    Reconnecting,
    Closed { reason: String },
}

/// The label of a state.
pub open spec fn spec_label(s: SessionStateKind) -> Seq<char> {
    match s {
        SessionStateKind::Idle => "idle"@,
        SessionStateKind::Listening { .. } => "listening"@,
        SessionStateKind::WifiHandshake => "handshaking"@,
        SessionStateKind::UsbHandshake { .. } => "usb_handshake"@,
        SessionStateKind::Ready => "ready"@,
        SessionStateKind::Reconnecting => "reconnecting"@,
        SessionStateKind::Closed { .. } => "closed"@,
    }
}

impl SessionStateKind {
    /// The Wi-Fi handshake state.
    pub fn wifi_handshake() -> (s: SessionStateKind)
        ensures
            s == SessionStateKind::WifiHandshake,
    {
        SessionStateKind::WifiHandshake
    }

    /// The USB handshake state for the device `udid`.
    pub fn usb_handshake(udid: &str) -> (s: SessionStateKind)
        ensures
            s matches SessionStateKind::UsbHandshake { udid: u } && u@ == udid@,
    {
        SessionStateKind::UsbHandshake { udid: udid.to_owned() }
    }

    /// The state's label (its wire tag).
    pub fn label(&self) -> (l: &'static str)
        ensures
            l@ == spec_label(*self),
    {
        match self {
            SessionStateKind::Idle => "idle",
            SessionStateKind::Listening { .. } => "listening",
            SessionStateKind::WifiHandshake => "handshaking",
            SessionStateKind::UsbHandshake { .. } => "usb_handshake",
            SessionStateKind::Ready => "ready",
            SessionStateKind::Reconnecting => "reconnecting",
            SessionStateKind::Closed { .. } => "closed",
        }
    }

    /// The UDID of a USB handshake; `None` in every other state.
    pub fn udid(&self) -> (r: Option<&str>)
        ensures
            match self {
                SessionStateKind::UsbHandshake { udid } => r matches Some(s) && s@ == udid@,
                _ => r is None,
            },
    {
        match self {
            SessionStateKind::UsbHandshake { udid } => Some(udid.as_str()),
            _ => None,
        }
    }
}

} // verus!
