//! In-process stand-in for the USB multiplexer: virtual devices whose two
//! protocol ports are routed to addresses of the caller's choosing.

use vstd::prelude::*;
use crate::transport::usb::{ConnectionType, UsbDevice, UsbDeviceView};

verus! {

/// The control port a loopback conductor routes by default.
pub const DEFAULT_CONTROL_PORT: u16 = 7000;

/// The media port a loopback conductor routes by default.
pub const DEFAULT_MEDIA_PORT: u16 = 7001;

/// A virtual device: its id, UDID and where its two ports lead.
#[derive(Debug, Clone)]
pub struct LoopbackDevice<A> {
    pub id: u32,
    pub udid: String,
    pub control_addr: A,
    pub media_addr: A,
}

/// Which of a device's two addresses a port leads to.
#[derive(Debug, Clone, Copy, PartialEq, Eq, Structural)]
pub enum LoopbackRoute {
    Control,
    Media,
}

/// Why a loopback dial found no address.
#[derive(Debug, Clone, Copy, PartialEq, Eq, Structural)]
pub enum LoopbackMiss {
    /// No registered device has this id.
    DeviceNotFound(u32),
    /// The port is neither of the two protocol ports.
    PortNotRouted(u16),
}

/// The route of `port`: the control port first, then the media port.
pub open spec fn spec_route(control_port: u16, media_port: u16, port: u16) -> Option<LoopbackRoute> {
    if port == control_port {
        Some(LoopbackRoute::Control)
    } else if port == media_port {
        Some(LoopbackRoute::Media)
    } else {
        None
    }
}

/// The route of `port` on a conductor serving `control_port` and `media_port`.
pub fn loopback_route(control_port: u16, media_port: u16, port: u16) -> (r: Option<LoopbackRoute>)
    ensures
        r == spec_route(control_port, media_port, port),
{
    if port == control_port {
        Some(LoopbackRoute::Control)
    } else if port == media_port {
        Some(LoopbackRoute::Media)
    } else {
        None
    }
}

/// How the multiplexer lists a virtual device: over USB, with no product id.
pub open spec fn listed_view<A>(d: LoopbackDevice<A>) -> UsbDeviceView {
    UsbDeviceView { id: d.id, udid: d.udid@, connection: ConnectionType::Usb, product_id: None }
}

/// The listing of the registered devices, in registration order.
pub fn loopback_list<A>(devs: &[LoopbackDevice<A>]) -> (r: Vec<UsbDevice>)
    ensures
        r@.len() == devs@.len(),
        forall|i: int| 0 <= i < devs@.len() ==> (#[trigger] r@[i])@ == listed_view(devs@[i]),
{
    let mut r: Vec<UsbDevice> = Vec::new();
    let mut i: usize = 0;
    while i < devs.len()
        invariant
            i <= devs@.len(),
            r@.len() == i,
            forall|j: int| 0 <= j < i ==> (#[trigger] r@[j])@ == listed_view(devs@[j]),
        decreases devs@.len() - i,
    {
        let d = &devs[i];
        r.push(UsbDevice { id: d.id, udid: d.udid.clone(), connection: ConnectionType::Usb, product_id: None });
        i = i + 1;
    }
    r
}

/// The first registered device with id `id`, if any.
pub open spec fn first_with_id<A>(devs: Seq<LoopbackDevice<A>>, id: u32) -> Option<int> {
    if exists|i: int| 0 <= i < devs.len() && devs[i].id == id {
        Some(choose|i: int| 0 <= i < devs.len() && devs[i].id == id && forall|j: int| 0 <= j < i ==> devs[j].id != id)
    } else {
        None
    }
}

/// The address a dial of `port` on device `device_id` reaches: the first
/// device registered with that id, then the route of the port.
pub fn loopback_target<A: Copy>(
    devs: &[LoopbackDevice<A>],
    device_id: u32,
    port: u16,
    control_port: u16,
    media_port: u16,
) -> (r: Result<A, LoopbackMiss>)
    ensures
        match first_with_id(devs@, device_id) {
            None => r == Err::<A, LoopbackMiss>(LoopbackMiss::DeviceNotFound(device_id)),
            Some(i) => match spec_route(control_port, media_port, port) {
                Some(LoopbackRoute::Control) => r == Ok::<A, LoopbackMiss>(devs@[i].control_addr),
                Some(LoopbackRoute::Media) => r == Ok::<A, LoopbackMiss>(devs@[i].media_addr),
                None => r == Err::<A, LoopbackMiss>(LoopbackMiss::PortNotRouted(port)),
            },
        },
{
    let mut i: usize = 0;
    while i < devs.len()
        invariant
            i <= devs@.len(),
            forall|j: int| 0 <= j < i ==> devs@[j].id != device_id,
        decreases devs@.len() - i,
    {
        if devs[i].id == device_id {
            proof {
                let k = choose|k: int|
                    0 <= k < devs@.len() && devs@[k].id == device_id && forall|j: int| 0 <= j < k ==> devs@[j].id != device_id;
                if k < i {
                } else if k > i {
                    assert(devs@[i as int].id == device_id);
                }
            }
            return match loopback_route(control_port, media_port, port) {
                Some(LoopbackRoute::Control) => Ok(devs[i].control_addr),
                Some(LoopbackRoute::Media) => Ok(devs[i].media_addr),
                None => Err(LoopbackMiss::PortNotRouted(port)),
            };
        }
        i = i + 1;
    }
    Err(LoopbackMiss::DeviceNotFound(device_id))
}

/// The registered devices once every device with id `id` is dropped.
pub open spec fn without_id<A>(devs: Seq<LoopbackDevice<A>>, id: u32) -> Seq<LoopbackDevice<A>>
    decreases devs.len(),
{
    if devs.len() == 0 {
        devs
    } else if devs.last().id == id {
        without_id(devs.drop_last(), id)
    } else {
        without_id(devs.drop_last(), id).push(devs.last())
    }
}

/// Drop every device registered with id `id`, keeping the others in order.
pub fn loopback_unregister<A>(devs: &mut Vec<LoopbackDevice<A>>, id: u32)
    ensures
        final(devs)@ == without_id(old(devs)@, id),
{
    let ghost orig = old(devs)@;
    let mut kept: Vec<LoopbackDevice<A>> = Vec::new();
    let mut rest: Vec<LoopbackDevice<A>> = Vec::new();
    std::mem::swap(devs, &mut rest);
    let ghost n = orig.len();
    while rest.len() > 0
        invariant
            n == orig.len(),
            rest@.len() <= n,
            kept@ == without_id(orig.subrange(0, n - rest@.len()), id),
            rest@ == orig.subrange(n - rest@.len(), n as int),
        decreases rest@.len(),
    {
        let ghost k = n - rest@.len();
        let d = rest.remove(0);
        proof {
            assert(d == orig[k]);
            assert(orig.subrange(0, k + 1).drop_last() =~= orig.subrange(0, k));
            assert(orig.subrange(0, k + 1).last() == orig[k]);
            assert(rest@ =~= orig.subrange(k + 1, n as int));
        }
        if d.id != id {
            kept.push(d);
        }
    }
    proof {
        assert(orig.subrange(0, n as int) =~= orig);
    }
    *devs = kept;
}

/// Law: unregistering `id` leaves no device with that id and keeps every
/// other device.
pub proof fn law_unregister_removes_id<A>(devs: Seq<LoopbackDevice<A>>, id: u32)
    ensures
        forall|i: int| 0 <= i < without_id(devs, id).len() ==> (#[trigger] without_id(devs, id)[i]).id != id,
        forall|i: int| 0 <= i < devs.len() && devs[i].id != id ==> without_id(devs, id).contains(#[trigger] devs[i]),
    decreases devs.len(),
{
    if devs.len() > 0 {
        let d = devs.drop_last();
        law_unregister_removes_id(d, id);
        let w = without_id(devs, id);
        let wd = without_id(d, id);
        assert forall|i: int| 0 <= i < devs.len() && devs[i].id != id implies w.contains(#[trigger] devs[i]) by {
            if i < devs.len() - 1 {
                assert(devs[i] == d[i]);
                assert(wd.contains(d[i]));
                let k = choose|k: int| 0 <= k < wd.len() && wd[k] == d[i];
                if devs.last().id != id {
                    assert(w[k] == wd[k]);
                }
            } else {
                assert(w[w.len() - 1] == devs.last());
            }
        }
    }
}

} // verus!
