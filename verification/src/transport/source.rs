//! Provenance tag of a control or media stream: Wi-Fi or USB.

use vstd::prelude::*;
use vstd::string::StringExecFns;

verus! {

/// Where a stream came from.
#[derive(Debug, Clone, PartialEq, Eq)]
pub enum Source {
    Wifi,
    Usb { udid: String },
}

impl Source {
    /// The device UDID of a USB stream.
    pub fn udid(&self) -> (r: Option<&str>)
        ensures
            match self {
                Source::Usb { udid } => r matches Some(s) && s@ == udid@,
                Source::Wifi => r is None,
            },
    {
        match self {
            Source::Usb { udid } => Some(udid.as_str()),
            Source::Wifi => None,
        }
    }

    /// Whether the stream came over USB.
    pub fn is_usb(&self) -> (b: bool)
        ensures
            b == (self is Usb),
    {
        match self {
            Source::Usb { .. } => true,
            Source::Wifi => false,
        }
    }

    /// Human-readable form: `wifi` or `usb(<udid>)`.
    pub fn display_string(&self) -> (s: String)
        ensures
            match self {
                Source::Wifi => s@ == "wifi"@,
                Source::Usb { udid } => s@ == "usb("@ + udid@ + ")"@,
            },
    {
        match self {
            Source::Wifi => String::from_str("wifi"),
            Source::Usb { udid } => {
                let mut s = String::from_str("usb(");
                s.append(udid.as_str());
                s.append(")");
                s
            },
        }
    }
}

} // verus!
