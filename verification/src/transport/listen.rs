//! Turning a usbmuxd listen stream into bus events: attach events of
//! USB-attached devices are reported and remembered, so that a detach, which
//! carries only the multiplexer id, can be reported with the device's UDID.

use vstd::prelude::*;
use std::collections::HashMap;
use crate::transport::usb::{ConnectionType, UsbDevice, UsbEvent, UsbEventView};

verus! {

/// The devices a listen stream has attached and not yet detached, by
/// multiplexer id.
pub struct ListenTracker {
    known: HashMap<u32, String>,
}

impl View for ListenTracker {
    type V = Map<u32, Seq<char>>;

    closed spec fn view(&self) -> Map<u32, Seq<char>> {
        self.known@.map_values(|s: String| s@)
    }
}

impl ListenTracker {
    /// A tracker that knows no device.
    pub fn new() -> (t: ListenTracker)
        ensures
            t@ == Map::<u32, Seq<char>>::empty(),
    {
        let t = ListenTracker { known: HashMap::new() };
        assert(t@ =~= Map::<u32, Seq<char>>::empty());
        t
    }

    /// An attach event: a USB-attached device is remembered (replacing any
    /// earlier entry for its id) and reported; a network device is skipped.
    pub fn on_connected(&mut self, dev: UsbDevice) -> (r: Option<UsbEvent>)
        ensures
            dev.connection == ConnectionType::Usb ==> (r matches Some(e) && e@ == UsbEventView::Connected(dev@)
                && final(self)@ == old(self)@.insert(dev.id, dev.udid@)),
            dev.connection != ConnectionType::Usb ==> (r is None && final(self)@ == old(self)@),
    {
        broadcast use vstd::std_specs::hash::group_hash_axioms;

        if dev.connection != ConnectionType::Usb {
            return None;
        }
        let ghost before = self@;
        self.known.insert(dev.id, dev.udid.clone());
        assert(self@ =~= before.insert(dev.id, dev.udid@));
        Some(UsbEvent::Connected(dev))
    }

    /// A detach event: the device is forgotten and reported lost with its
    /// remembered UDID, or an empty UDID when it was never seen.
    pub fn on_disconnected(&mut self, id: u32) -> (e: UsbEvent)
        ensures
            final(self)@ == old(self)@.remove(id),
            e@ == (UsbEventView::Lost {
                id,
                udid: if old(self)@.contains_key(id) { old(self)@[id] } else { Seq::empty() },
            }),
    {
        broadcast use vstd::std_specs::hash::group_hash_axioms;

        let ghost before = self@;
        let udid = match self.known.remove(&id) {
            Some(u) => u,
            None => String::new(),
        };
        assert(self@ =~= before.remove(id));
        UsbEvent::Lost { id, udid }
    }
}

/// Law: a device that attached and then detached is reported lost with the
/// UDID it attached with, and is no longer known.
pub proof fn law_lost_names_attached_udid(known: Map<u32, Seq<char>>, id: u32, udid: Seq<char>)
    ensures
        known.insert(id, udid).contains_key(id),
        known.insert(id, udid)[id] == udid,
        !known.insert(id, udid).remove(id).contains_key(id),
{
}

} // verus!
