//! What the QR code tells the phone, and the modes a speedtest weighs.

use vstd::prelude::*;
use crate::adaptive::types::AvailableMode;
use crate::protocol::messages::CameraEntry;
use crate::protocol::version::{Capability, CapabilityView};

verus! {

/// The version of the QR payload layout.
pub const QR_PAYLOAD_VERSION: u32 = 1;

/// What the QR code carries: where to connect and the token to present.
#[derive(Debug, Clone, PartialEq, Eq)]
pub struct QrPayload {
    pub v: u32,
    pub host: String,
    pub cport: u16,
    pub mport: u16,
    pub token: String,
}

/// The desktop side, before it listens: the host the phone should dial.
#[derive(Debug)]
pub struct AppCore {
    pub host: String,
}

impl AppCore {
    /// The QR payload once the control and media listeners are bound to
    /// `cport` and `mport` and `token` has been drawn.
    pub fn qr_payload(self, cport: u16, mport: u16, token: String) -> (q: QrPayload)
        ensures
            q.v == QR_PAYLOAD_VERSION,
            q.host@ == self.host@,
            q.cport == cport,
            q.mport == mport,
            q.token@ == token@,
    {
        QrPayload { v: QR_PAYLOAD_VERSION, host: self.host, cport, mport, token }
    }
}

/// The capabilities every camera mode is assumed to offer: HEVC, H.264 and
/// raw NV12, in that order.
pub open spec fn is_standard_caps(c: Seq<Capability>) -> bool {
    &&& c.len() == 3
    &&& c[0]@ == CapabilityView::Hevc
    &&& c[1]@ == CapabilityView::H264
    &&& c[2]@ == CapabilityView::RawNv12
}

/// A fresh list of the standard capabilities.
pub fn standard_caps() -> (c: Vec<Capability>)
    ensures
        is_standard_caps(c@),
{
    let mut c: Vec<Capability> = Vec::new();
    c.push(Capability::Hevc);
    c.push(Capability::H264);
    c.push(Capability::RawNv12);
    c
}

/// Whether `m` is `width x height @ fps` with the standard capabilities.
pub open spec fn is_mode(m: AvailableMode, width: u16, height: u16, fps: u16) -> bool {
    m.width == width && m.height == height && m.fps == fps && is_standard_caps(m.caps@)
}

/// The modes assumed for an iPhone that has not listed its cameras:
/// 720p30, 720p60, 1080p30 and 1080p60.
pub fn default_iphone_caps() -> (v: Vec<AvailableMode>)
    ensures
        v@.len() == 4,
        is_mode(v@[0], 1280, 720, 30),
        is_mode(v@[1], 1280, 720, 60),
        is_mode(v@[2], 1920, 1080, 30),
        is_mode(v@[3], 1920, 1080, 60),
{
    let mut v: Vec<AvailableMode> = Vec::new();
    v.push(AvailableMode { width: 1280, height: 720, fps: 30, caps: standard_caps() });
    v.push(AvailableMode { width: 1280, height: 720, fps: 60, caps: standard_caps() });
    v.push(AvailableMode { width: 1920, height: 1080, fps: 30, caps: standard_caps() });
    v.push(AvailableMode { width: 1920, height: 1080, fps: 60, caps: standard_caps() });
    v
}

/// The modes a speedtest recommendation chooses among: each listed camera's
/// largest mode with the standard capabilities, or the iPhone defaults when
/// no camera is listed.
pub fn speedtest_modes(cameras: &[CameraEntry]) -> (v: Vec<AvailableMode>)
    ensures
        cameras@.len() == 0 ==> v@.len() == 4 && is_mode(v@[0], 1280, 720, 30) && is_mode(
            v@[1],
            1280,
            720,
            60,
        ) && is_mode(v@[2], 1920, 1080, 30) && is_mode(v@[3], 1920, 1080, 60),
        cameras@.len() > 0 ==> v@.len() == cameras@.len() && forall|i: int|
            0 <= i < cameras@.len() ==> is_mode(
                #[trigger] v@[i],
                cameras@[i].max_width,
                cameras@[i].max_height,
                cameras@[i].max_fps,
            ),
{
    if cameras.len() == 0 {
        return default_iphone_caps();
    }
    let mut v: Vec<AvailableMode> = Vec::new();
    let mut i: usize = 0;
    while i < cameras.len()
        invariant
            i <= cameras@.len(),
            v@.len() == i,
            forall|j: int|
                0 <= j < i ==> is_mode(
                    #[trigger] v@[j],
                    cameras@[j].max_width,
                    cameras@[j].max_height,
                    cameras@[j].max_fps,
                ),
        decreases cameras@.len() - i,
    {
        let c = &cameras[i];
        v.push(AvailableMode { width: c.max_width, height: c.max_height, fps: c.max_fps, caps: standard_caps() });
        i = i + 1;
    }
    v
}

} // verus!
