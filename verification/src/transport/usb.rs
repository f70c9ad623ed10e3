//! USB device bookkeeping: the devices a poll of the multiplexer lists, and
//! the connect/lost events that the difference between two polls yields.

use vstd::prelude::*;

verus! {

/// How the multiplexer reaches a device; network-only devices are skipped.
#[derive(Debug, Clone, Copy, PartialEq, Eq, Structural)]
pub enum ConnectionType {
    Usb,
    Network,
}

/// A device the USB multiplexer lists.
#[derive(Debug, Clone, PartialEq, Eq)]
pub struct UsbDevice {
    /// Multiplexer device id (stable while plugged in).
    pub id: u32,
    /// Apple UDID.
    pub udid: String,
    pub connection: ConnectionType,
    pub product_id: Option<u16>,
}

/// The value of a [`UsbDevice`].
pub struct UsbDeviceView {
    pub id: u32,
    pub udid: Seq<char>,
    pub connection: ConnectionType,
    pub product_id: Option<u16>,
}

impl View for UsbDevice {
    type V = UsbDeviceView;

    open spec fn view(&self) -> UsbDeviceView {
        UsbDeviceView { id: self.id, udid: self.udid@, connection: self.connection, product_id: self.product_id }
    }
}

impl UsbDevice {
    /// A copy of the device record.
    pub fn duplicate(&self) -> (d: UsbDevice)
        ensures
            d@ == self@,
    {
        UsbDevice {
            id: self.id,
            udid: self.udid.clone(),
            connection: self.connection,
            product_id: self.product_id,
        }
    }
}

/// A change on the USB bus.
#[derive(Debug, Clone, PartialEq, Eq)]
pub enum UsbEvent {
    Connected(UsbDevice),
    Lost { id: u32, udid: String },
}

/// The value of a [`UsbEvent`].
pub enum UsbEventView {
    Connected(UsbDeviceView),
    Lost { id: u32, udid: Seq<char> },
}

impl View for UsbEvent {
    type V = UsbEventView;

    open spec fn view(&self) -> UsbEventView {
        match self {
            UsbEvent::Connected(d) => UsbEventView::Connected(d@),
            UsbEvent::Lost { id, udid } => UsbEventView::Lost { id: *id, udid: udid@ },
        }
    }
}

/// The views of a list of devices.
pub open spec fn device_views(ds: Seq<UsbDevice>) -> Seq<UsbDeviceView> {
    ds.map_values(|d: UsbDevice| d@)
}

/// The views of a list of events.
pub open spec fn event_views(es: Seq<UsbEvent>) -> Seq<UsbEventView> {
    es.map_values(|e: UsbEvent| e@)
}

/// The USB-attached devices of a listing, in order.
pub open spec fn usb_only(ds: Seq<UsbDeviceView>) -> Seq<UsbDeviceView>
    decreases ds.len(),
{
    if ds.len() == 0 {
        Seq::empty()
    } else if ds.last().connection == ConnectionType::Usb {
        usb_only(ds.drop_last()).push(ds.last())
    } else {
        usb_only(ds.drop_last())
    }
}

/// Whether a device with id `id` is in the list.
pub open spec fn has_id(ds: Seq<UsbDeviceView>, id: u32) -> bool {
    exists|i: int| 0 <= i < ds.len() && ds[i].id == id
}

/// `Connected` for every device of `now` whose id was not in `prev`, in the
/// order of `now`.
pub open spec fn connected_events(prev: Seq<UsbDeviceView>, now: Seq<UsbDeviceView>) -> Seq<UsbEventView>
    decreases now.len(),
{
    if now.len() == 0 {
        Seq::empty()
    } else if !has_id(prev, now.last().id) {
        connected_events(prev, now.drop_last()).push(UsbEventView::Connected(now.last()))
    } else {
        connected_events(prev, now.drop_last())
    }
}

/// `Lost` for every device of `prev` whose id is not in `now`, in the order
/// of `prev`.
pub open spec fn lost_events(prev: Seq<UsbDeviceView>, now: Seq<UsbDeviceView>) -> Seq<UsbEventView>
    decreases prev.len(),
{
    if prev.len() == 0 {
        Seq::empty()
    } else if !has_id(now, prev.last().id) {
        lost_events(prev.drop_last(), now).push(UsbEventView::Lost { id: prev.last().id, udid: prev.last().udid })
    } else {
        lost_events(prev.drop_last(), now)
    }
}

/// Whether a device with id `id` is in the list.
fn contains_id(ds: &[UsbDevice], id: u32) -> (b: bool)
    ensures
        b == has_id(device_views(ds@), id),
{
    let mut i: usize = 0;
    while i < ds.len()
        invariant
            i <= ds@.len(),
            forall|j: int| 0 <= j < i ==> ds@[j].id != id,
        decreases ds@.len() - i,
    {
        if ds[i].id == id {
            assert(device_views(ds@)[i as int].id == id);
            return true;
        }
        i = i + 1;
    }
    assert forall|j: int| 0 <= j < device_views(ds@).len() implies device_views(ds@)[j].id != id by {
        assert(device_views(ds@)[j] == ds@[j]@);
    }
    false
}

/// One polling round: keep the USB-attached devices of `listed` as the new
/// snapshot, and emit `Connected` for each of them whose id `prev` lacks,
/// then `Lost` for each device of `prev` whose id is gone.
pub fn poll_diff(prev: &[UsbDevice], listed: &[UsbDevice]) -> (r: (Vec<UsbDevice>, Vec<UsbEvent>))
    ensures
        device_views(r.0@) == usb_only(device_views(listed@)),
        event_views(r.1@) == connected_events(device_views(prev@), device_views(r.0@)) + lost_events(
            device_views(prev@),
            device_views(r.0@),
        ),
{
    let mut now: Vec<UsbDevice> = Vec::new();
    let mut i: usize = 0;
    while i < listed.len()
        invariant
            i <= listed@.len(),
            device_views(now@) == usb_only(device_views(listed@.subrange(0, i as int))),
        decreases listed@.len() - i,
    {
        assert(device_views(listed@.subrange(0, i + 1)).drop_last() =~= device_views(
            listed@.subrange(0, i as int),
        ));
        if listed[i].connection == ConnectionType::Usb {
            let d = listed[i].duplicate();
            now.push(d);
            assert(device_views(now@) =~= device_views(now@.drop_last()).push(d@));
        }
        i = i + 1;
    }
    assert(listed@.subrange(0, i as int) =~= listed@);
    let mut events: Vec<UsbEvent> = Vec::new();
    let mut k: usize = 0;
    while k < now.len()
        invariant
            k <= now@.len(),
            event_views(events@) == connected_events(device_views(prev@), device_views(now@.subrange(0, k as int))),
        decreases now@.len() - k,
    {
        assert(device_views(now@.subrange(0, k + 1)).drop_last() =~= device_views(now@.subrange(0, k as int)));
        if !contains_id(prev, now[k].id) {
            let e = UsbEvent::Connected(now[k].duplicate());
            events.push(e);
            assert(event_views(events@) =~= event_views(events@.drop_last()).push(e@));
        }
        k = k + 1;
    }
    assert(now@.subrange(0, k as int) =~= now@);
    let ghost connected = event_views(events@);
    let mut lost: Vec<UsbEvent> = Vec::new();
    let mut p: usize = 0;
    while p < prev.len()
        invariant
            p <= prev@.len(),
            event_views(lost@) == lost_events(device_views(prev@.subrange(0, p as int)), device_views(now@)),
        decreases prev@.len() - p,
    {
        assert(device_views(prev@.subrange(0, p + 1)).drop_last() =~= device_views(prev@.subrange(0, p as int)));
        if !contains_id(now.as_slice(), prev[p].id) {
            let e = UsbEvent::Lost { id: prev[p].id, udid: prev[p].udid.clone() };
            lost.push(e);
            assert(event_views(lost@) =~= event_views(lost@.drop_last()).push(e@));
        }
        p = p + 1;
    }
    assert(prev@.subrange(0, p as int) =~= prev@);
    let ghost lost_v = event_views(lost@);
    let mut q: usize = 0;
    let n0 = events.len();
    while q < lost.len()
        invariant
            q <= lost@.len(),
            n0 == connected.len(),
            event_views(events@) == connected + lost_v.subrange(0, q as int),
            lost_v == event_views(lost@),
        decreases lost@.len() - q,
    {
        let e = lost[q].clone_event();
        let ghost before = events@;
        events.push(e);
        assert(lost_v[q as int] == lost@[q as int]@);
        assert(event_views(events@) =~= event_views(before).push(e@));
        assert(event_views(events@) =~= connected + lost_v.subrange(0, q + 1));
        q = q + 1;
    }
    assert(lost_v.subrange(0, q as int) =~= lost_v);
    (now, events)
}

impl UsbEvent {
    /// A copy of the event.
    pub fn clone_event(&self) -> (e: UsbEvent)
        ensures
            e@ == self@,
    {
        match self {
            UsbEvent::Connected(d) => UsbEvent::Connected(d.duplicate()),
            UsbEvent::Lost { id, udid } => UsbEvent::Lost { id: *id, udid: udid.clone() },
        }
    }
}

/// Polling an unchanged bus again yields no events: when the listing is the
/// previous snapshot and holds USB-attached devices only, nothing connects
/// or gets lost.
pub proof fn law_repeat_poll_is_quiet(snapshot: Seq<UsbDeviceView>)
    ensures
        connected_events(snapshot, snapshot) =~= Seq::<UsbEventView>::empty(),
        lost_events(snapshot, snapshot) =~= Seq::<UsbEventView>::empty(),
{
    lemma_connected_none_new(snapshot, snapshot);
    lemma_lost_none_gone(snapshot, snapshot);
}

proof fn lemma_connected_none_new(prev: Seq<UsbDeviceView>, now: Seq<UsbDeviceView>)
    requires
        forall|i: int| 0 <= i < now.len() ==> has_id(prev, #[trigger] now[i].id),
    ensures
        connected_events(prev, now) =~= Seq::<UsbEventView>::empty(),
    decreases now.len(),
{
    if now.len() > 0 {
        assert(has_id(prev, now[now.len() - 1].id));
        lemma_connected_none_new(prev, now.drop_last());
    }
}

proof fn lemma_lost_none_gone(prev: Seq<UsbDeviceView>, now: Seq<UsbDeviceView>)
    requires
        forall|i: int| 0 <= i < prev.len() ==> has_id(now, #[trigger] prev[i].id),
    ensures
        lost_events(prev, now) =~= Seq::<UsbEventView>::empty(),
    decreases prev.len(),
{
    if prev.len() > 0 {
        assert(has_id(now, prev[prev.len() - 1].id));
        lemma_lost_none_gone(prev.drop_last(), now);
    }
}

/// The `Lost` event of a device.
pub open spec fn lost_of(d: UsbDeviceView) -> UsbEventView {
    UsbEventView::Lost { id: d.id, udid: d.udid }
}

proof fn lemma_lost_events_exact(prev: Seq<UsbDeviceView>, now: Seq<UsbDeviceView>)
    ensures
        forall|i: int|
            0 <= i < prev.len() && !has_id(now, #[trigger] prev[i].id) ==> lost_events(prev, now).contains(
                lost_of(prev[i]),
            ),
        forall|k: int|
            0 <= k < lost_events(prev, now).len() ==> exists|i: int|
                0 <= i < prev.len() && !has_id(now, prev[i].id) && #[trigger] lost_events(prev, now)[k]
                    == lost_of(#[trigger] prev[i]),
    decreases prev.len(),
{
    if prev.len() > 0 {
        let d = prev.drop_last();
        lemma_lost_events_exact(d, now);
        let l = lost_events(prev, now);
        let ld = lost_events(d, now);
        assert forall|i: int| 0 <= i < prev.len() && !has_id(now, #[trigger] prev[i].id) implies l.contains(
            lost_of(prev[i]),
        ) by {
            if i == prev.len() - 1 {
                assert(l[l.len() - 1] == lost_of(prev[i]));
            } else {
                assert(prev[i] == d[i]);
                let k = choose|k: int| 0 <= k < ld.len() && ld[k] == lost_of(d[i]);
                assert(l[k] == ld[k]);
            }
        }
        assert forall|k: int| 0 <= k < l.len() implies exists|i: int|
            0 <= i < prev.len() && !has_id(now, prev[i].id) && #[trigger] l[k] == lost_of(#[trigger] prev[i]) by {
            if k < ld.len() {
                assert(l[k] == ld[k]);
                let i = choose|i: int| 0 <= i < d.len() && !has_id(now, d[i].id) && ld[k] == lost_of(d[i]);
                assert(prev[i] == d[i]);
            } else {
                assert(l[k] == lost_of(prev[prev.len() - 1]));
            }
        }
    }
}

proof fn lemma_connected_events_exact(prev: Seq<UsbDeviceView>, now: Seq<UsbDeviceView>)
    ensures
        forall|j: int|
            0 <= j < now.len() && !has_id(prev, #[trigger] now[j].id) ==> connected_events(prev, now).contains(
                UsbEventView::Connected(now[j]),
            ),
        forall|k: int|
            0 <= k < connected_events(prev, now).len() ==> exists|j: int|
                0 <= j < now.len() && !has_id(prev, now[j].id) && #[trigger] connected_events(prev, now)[k]
                    == UsbEventView::Connected(#[trigger] now[j]),
    decreases now.len(),
{
    if now.len() > 0 {
        let d = now.drop_last();
        lemma_connected_events_exact(prev, d);
        let c = connected_events(prev, now);
        let cd = connected_events(prev, d);
        assert forall|j: int| 0 <= j < now.len() && !has_id(prev, #[trigger] now[j].id) implies c.contains(
            UsbEventView::Connected(now[j]),
        ) by {
            if j == now.len() - 1 {
                assert(c[c.len() - 1] == UsbEventView::Connected(now[j]));
            } else {
                assert(now[j] == d[j]);
                let k = choose|k: int| 0 <= k < cd.len() && cd[k] == UsbEventView::Connected(d[j]);
                assert(c[k] == cd[k]);
            }
        }
        assert forall|k: int| 0 <= k < c.len() implies exists|j: int|
            0 <= j < now.len() && !has_id(prev, now[j].id) && #[trigger] c[k] == UsbEventView::Connected(
                #[trigger] now[j],
            ) by {
            if k < cd.len() {
                assert(c[k] == cd[k]);
                let j = choose|j: int| 0 <= j < d.len() && !has_id(prev, d[j].id) && cd[k] == UsbEventView::Connected(d[j]);
                assert(now[j] == d[j]);
            } else {
                assert(c[k] == UsbEventView::Connected(now[now.len() - 1]));
            }
        }
    }
}

proof fn lemma_usb_only_exact(ds: Seq<UsbDeviceView>)
    ensures
        forall|i: int|
            0 <= i < ds.len() && (#[trigger] ds[i]).connection == ConnectionType::Usb ==> usb_only(ds).contains(ds[i]),
        forall|k: int| 0 <= k < usb_only(ds).len() ==> (#[trigger] usb_only(ds)[k]).connection == ConnectionType::Usb
            && ds.contains(usb_only(ds)[k]),
    decreases ds.len(),
{
    if ds.len() > 0 {
        let d = ds.drop_last();
        lemma_usb_only_exact(d);
        let u = usb_only(ds);
        let ud = usb_only(d);
        assert forall|i: int| 0 <= i < ds.len() && (#[trigger] ds[i]).connection == ConnectionType::Usb implies u.contains(
            ds[i],
        ) by {
            if i == ds.len() - 1 {
                assert(u[u.len() - 1] == ds[i]);
            } else {
                assert(ds[i] == d[i]);
                let k = choose|k: int| 0 <= k < ud.len() && ud[k] == d[i];
                assert(u[k] == ud[k]);
            }
        }
        assert forall|k: int| 0 <= k < u.len() implies (#[trigger] u[k]).connection == ConnectionType::Usb
            && ds.contains(u[k]) by {
            if k < ud.len() {
                assert(u[k] == ud[k]);
                let i = choose|i: int| 0 <= i < d.len() && d[i] == ud[k];
                assert(ds[i] == d[i]);
            } else {
                assert(u[k] == ds[ds.len() - 1]);
            }
        }
    }
}

/// What one polling round reports, given the previous snapshot `prev` and
/// the bus listing `listed`: the new snapshot holds exactly the USB-attached
/// devices of the listing; every device of `prev` whose id is gone from the
/// snapshot is reported `Lost` with its id and UDID, and every `Lost` names
/// such a device; every device of the snapshot whose id `prev` lacks is
/// reported `Connected`, and every `Connected` is such a device.
pub proof fn law_poll_reports_every_change(prev: Seq<UsbDeviceView>, listed: Seq<UsbDeviceView>)
    ensures
        ({
            let now = usb_only(listed);
            let ev = connected_events(prev, now) + lost_events(prev, now);
            &&& forall|d: UsbDeviceView| #[trigger] now.contains(d) ==> d.connection == ConnectionType::Usb
                && listed.contains(d)
            &&& forall|i: int| 0 <= i < listed.len() && (#[trigger] listed[i]).connection == ConnectionType::Usb
                ==> now.contains(listed[i])
            &&& forall|i: int| 0 <= i < prev.len() && !(exists|j: int| 0 <= j < now.len() && now[j].id == prev[i].id)
                ==> ev.contains(UsbEventView::Lost { id: (#[trigger] prev[i]).id, udid: prev[i].udid })
            &&& forall|j: int| 0 <= j < now.len() && !(exists|i: int| 0 <= i < prev.len() && prev[i].id == now[j].id)
                ==> ev.contains(UsbEventView::Connected(#[trigger] now[j]))
            &&& forall|e: UsbEventView| #[trigger] ev.contains(e) ==> match e {
                UsbEventView::Lost { id, udid } => exists|i: int|
                    0 <= i < prev.len() && prev[i].id == id && prev[i].udid == udid && !(exists|j: int|
                        0 <= j < now.len() && now[j].id == id),
                UsbEventView::Connected(d) => now.contains(d) && !(exists|i: int|
                    0 <= i < prev.len() && prev[i].id == d.id),
            }
        }),
{
    let now = usb_only(listed);
    let c = connected_events(prev, now);
    let l = lost_events(prev, now);
    let ev = c + l;
    lemma_usb_only_exact(listed);
    lemma_lost_events_exact(prev, now);
    lemma_connected_events_exact(prev, now);
    assert forall|d: UsbDeviceView| #[trigger] now.contains(d) implies d.connection == ConnectionType::Usb
        && listed.contains(d) by {
        let k = choose|k: int| 0 <= k < now.len() && now[k] == d;
        assert(now[k].connection == ConnectionType::Usb);
    }
    assert forall|i: int| 0 <= i < prev.len() && !(exists|j: int| 0 <= j < now.len() && now[j].id == prev[i].id)
        implies ev.contains(UsbEventView::Lost { id: (#[trigger] prev[i]).id, udid: prev[i].udid }) by {
        assert(!has_id(now, prev[i].id));
        assert(l.contains(lost_of(prev[i])));
        let k = choose|k: int| 0 <= k < l.len() && l[k] == lost_of(prev[i]);
        assert(ev[c.len() + k] == l[k]);
    }
    assert forall|j: int| 0 <= j < now.len() && !(exists|i: int| 0 <= i < prev.len() && prev[i].id == now[j].id)
        implies ev.contains(UsbEventView::Connected(#[trigger] now[j])) by {
        assert(!has_id(prev, now[j].id));
        assert(c.contains(UsbEventView::Connected(now[j])));
        let k = choose|k: int| 0 <= k < c.len() && c[k] == UsbEventView::Connected(now[j]);
        assert(ev[k] == c[k]);
    }
    assert forall|e: UsbEventView| #[trigger] ev.contains(e) implies match e {
        UsbEventView::Lost { id, udid } => exists|i: int|
            0 <= i < prev.len() && prev[i].id == id && prev[i].udid == udid && !(exists|j: int|
                0 <= j < now.len() && now[j].id == id),
        UsbEventView::Connected(d) => now.contains(d) && !(exists|i: int| 0 <= i < prev.len() && prev[i].id == d.id),
    } by {
        let k = choose|k: int| 0 <= k < ev.len() && ev[k] == e;
        if k < c.len() {
            assert(ev[k] == c[k]);
            let j = choose|j: int| 0 <= j < now.len() && !has_id(prev, now[j].id) && c[k] == UsbEventView::Connected(now[j]);
            assert(now.contains(now[j]));
        } else {
            assert(ev[k] == l[k - c.len()]);
            let i = choose|i: int| 0 <= i < prev.len() && !has_id(now, prev[i].id) && l[k - c.len()] == lost_of(prev[i]);
        }
    }
}

proof fn lemma_usb_only_is_filter(ds: Seq<UsbDeviceView>)
    ensures
        usb_only(ds) == ds.filter(|d: UsbDeviceView| d.connection == ConnectionType::Usb),
    decreases ds.len(),
{
    reveal(Seq::filter);
    if ds.len() > 0 {
        lemma_usb_only_is_filter(ds.drop_last());
    }
}

proof fn lemma_lost_is_filter(prev: Seq<UsbDeviceView>, now: Seq<UsbDeviceView>)
    ensures
        lost_events(prev, now) == prev.filter(|d: UsbDeviceView| !has_id(now, d.id)).map_values(
            |d: UsbDeviceView| UsbEventView::Lost { id: d.id, udid: d.udid },
        ),
    decreases prev.len(),
{
    reveal(Seq::filter);
    if prev.len() > 0 {
        let d = prev.drop_last();
        lemma_lost_is_filter(d, now);
        let f = d.filter(|d: UsbDeviceView| !has_id(now, d.id));
        let g = |d: UsbDeviceView| UsbEventView::Lost { id: d.id, udid: d.udid };
        assert(f.push(prev.last()).map_values(g) =~= f.map_values(g).push(g(prev.last())));
    }
}

proof fn lemma_connected_is_filter(prev: Seq<UsbDeviceView>, now: Seq<UsbDeviceView>)
    ensures
        connected_events(prev, now) == now.filter(|d: UsbDeviceView| !has_id(prev, d.id)).map_values(
            |d: UsbDeviceView| UsbEventView::Connected(d),
        ),
    decreases now.len(),
{
    reveal(Seq::filter);
    if now.len() > 0 {
        let d = now.drop_last();
        lemma_connected_is_filter(prev, d);
        let f = d.filter(|d: UsbDeviceView| !has_id(prev, d.id));
        let g = |d: UsbDeviceView| UsbEventView::Connected(d);
        assert(f.push(now.last()).map_values(g) =~= f.map_values(g).push(g(now.last())));
    }
}

/// The events of one polling round, exactly and in order: the new snapshot
/// is the listing's USB-attached devices in listing order; the events are
/// `Connected` for each snapshot device whose id `prev` lacks, in snapshot
/// order, followed by `Lost` (id and UDID) for each device of `prev` whose
/// id the snapshot lacks, in the order of `prev`; nothing else, nothing twice.
pub proof fn law_poll_events_in_order(prev: Seq<UsbDeviceView>, listed: Seq<UsbDeviceView>)
    ensures
        usb_only(listed) == listed.filter(|d: UsbDeviceView| d.connection == ConnectionType::Usb),
        ({
            let now = listed.filter(|d: UsbDeviceView| d.connection == ConnectionType::Usb);
            connected_events(prev, now) + lost_events(prev, now) == now.filter(
                |d: UsbDeviceView| !has_id(prev, d.id),
            ).map_values(|d: UsbDeviceView| UsbEventView::Connected(d)) + prev.filter(
                |d: UsbDeviceView| !has_id(now, d.id),
            ).map_values(|d: UsbDeviceView| UsbEventView::Lost { id: d.id, udid: d.udid })
        }),
{
    let now = listed.filter(|d: UsbDeviceView| d.connection == ConnectionType::Usb);
    lemma_usb_only_is_filter(listed);
    lemma_lost_is_filter(prev, now);
    lemma_connected_is_filter(prev, now);
}

} // verus!
