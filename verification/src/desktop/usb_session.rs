//! What the desktop does when the USB supervisor has dialed a device: run
//! the USB handshake with the stored pairing key, ask the user to trust a
//! device it has no key for, or give up when the store cannot be read.

use vstd::prelude::*;
use crate::desktop::b64::b64_nopad;
use crate::desktop::pairing_store::{PairingMaterial, PairingStoreError};

verus! {

/// The next step for a dialed USB device.
#[derive(Debug)]
pub enum UsbSessionPlan {
    /// Run the USB handshake expecting this pairing key.
    Handshake { pairing_key_b64: String },
    /// No key is stored: ask the user to trust the device and go idle.
    RequestTrust,
    /// The store could not be read: drop this device.
    Skip,
}

/// The plan for a device, from the result of looking its key up.
pub fn plan_usb_session(lookup: Result<Option<PairingMaterial>, PairingStoreError>) -> (p: UsbSessionPlan)
    ensures
        match lookup {
            Ok(Some(m)) => p matches UsbSessionPlan::Handshake { pairing_key_b64 } && pairing_key_b64@ == b64_nopad(
                false,
                m@,
            ),
            Ok(None) => p is RequestTrust,
            Err(_) => p is Skip,
        },
{
    match lookup {
        Ok(Some(m)) => UsbSessionPlan::Handshake { pairing_key_b64: m.as_b64() },
        Ok(None) => UsbSessionPlan::RequestTrust,
        Err(_) => UsbSessionPlan::Skip,
    }
}

/// The key the supervisor hands along with the dialed streams: the stored
/// key as base64, or `None` when there is none or the store failed.
pub fn dial_key(lookup: Result<Option<PairingMaterial>, PairingStoreError>) -> (k: Option<String>)
    ensures
        match lookup {
            Ok(Some(m)) => k matches Some(s) && s@ == b64_nopad(false, m@),
            _ => k is None,
        },
{
    match lookup {
        Ok(Some(m)) => Some(m.as_b64()),
        _ => None,
    }
}

} // verus!
