//! Transport classes, user limits and the modes a camera offers.

use vstd::prelude::*;
use crate::protocol::version::{Capability, CapabilityView};

verus! {

/// The link a session runs over.
#[derive(Debug, Clone, Copy, PartialEq, Eq, Structural)]
pub enum TransportClass {
    WiFi,
    Usb2,
    Usb3,
}

impl TransportClass {
    /// Highest raw bitrate (kbps) ever attempted on this transport.
    pub open spec fn spec_raw_ceiling_kbps(self) -> u64 {
        match self {
            TransportClass::WiFi => 0,
            TransportClass::Usb2 => 480_000,
            TransportClass::Usb3 => 5_000_000,
        }
    }

    /// Highest raw bitrate (in kbps) we will ever attempt on this transport;
    /// Wi-Fi never carries raw video.
    pub fn raw_ceiling_kbps(self) -> (k: u64)
        ensures
            k == self.spec_raw_ceiling_kbps(),
    {
        match self {
            TransportClass::WiFi => 0,
            TransportClass::Usb2 => 480_000,
            TransportClass::Usb3 => 5_000_000,
        }
    }
}

/// Caps the user puts on the selected mode.
#[derive(Debug, Clone, Copy, Default, PartialEq, Eq, Structural)]
pub struct UserLimits {
    pub max_width: Option<u16>,
    pub max_height: Option<u16>,
    pub max_fps: Option<u16>,
    pub prefer_raw: bool,
}

/// A resolution/frame-rate pair a camera offers, with its capabilities.
#[derive(Debug, Clone)]
pub struct AvailableMode {
    pub width: u16,
    pub height: u16,
    pub fps: u16,
    pub caps: Vec<Capability>,
}

/// Whether the capability list `caps` holds `cap`.
pub open spec fn caps_contain(caps: Seq<Capability>, cap: CapabilityView) -> bool {
    exists|i: int| 0 <= i < caps.len() && caps[i]@ == cap
}

impl AvailableMode {
    /// Whether the mode offers `cap`.
    pub fn supports(&self, cap: &Capability) -> (b: bool)
        ensures
            b == caps_contain(self.caps@, cap@),
    {
        let mut i: usize = 0;
        while i < self.caps.len()
            invariant
                i <= self.caps@.len(),
                forall|j: int| 0 <= j < i ==> self.caps@[j]@ != cap@,
            decreases self.caps@.len() - i,
        {
            if self.caps[i] == *cap {
                return true;
            }
            i = i + 1;
        }
        false
    }
}

} // verus!
