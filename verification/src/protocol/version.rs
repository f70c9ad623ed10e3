//! Protocol version and capability negotiation.

use vstd::prelude::*;
use vstd::std_specs::cmp::PartialEqSpecImpl;

verus! {

/// Current CCP protocol version. Bumped on incompatible changes.
pub const PROTO_VER: u32 = 1u32;

/// A protocol capability advertised in `HELLO`/`HELLO_ACK`.
///
/// Unknown capability strings become [`Capability::Other`] so older readers
/// do not break when newer peers advertise new flags.
#[derive(Debug, Clone, Hash)]
pub enum Capability {
    Hevc,
    H264,
    RawNv12,
    Usb3,
    SpeedtestV1,
    Other(String),
}

/// The mathematical value of a [`Capability`]: its variant, and for
/// `Other` the characters of its wire string.
pub enum CapabilityView {
    Hevc,
    H264,
    RawNv12,
    Usb3,
    SpeedtestV1,
    Other(Seq<char>),
}

impl View for Capability {
    type V = CapabilityView;

    open spec fn view(&self) -> CapabilityView {
        match self {
            Capability::Hevc => CapabilityView::Hevc,
            Capability::H264 => CapabilityView::H264,
            Capability::RawNv12 => CapabilityView::RawNv12,
            Capability::Usb3 => CapabilityView::Usb3,
            Capability::SpeedtestV1 => CapabilityView::SpeedtestV1,
            Capability::Other(s) => CapabilityView::Other(s@),
        }
    }
}

/// The canonical wire string of a capability.
pub open spec fn spec_wire_str(c: CapabilityView) -> Seq<char> {
    match c {
        CapabilityView::Hevc => "hevc"@,
        CapabilityView::H264 => "h264"@,
        CapabilityView::RawNv12 => "raw_nv12"@,
        CapabilityView::Usb3 => "usb3"@,
        CapabilityView::SpeedtestV1 => "speedtest_v1"@,
        CapabilityView::Other(s) => s,
    }
}

/// The capability that a wire string names; any string that names no known
/// capability becomes `Other` with that string.
pub open spec fn spec_from_wire(s: Seq<char>) -> CapabilityView {
    if s == "hevc"@ {
        CapabilityView::Hevc
    } else if s == "h264"@ {
        CapabilityView::H264
    } else if s == "raw_nv12"@ {
        CapabilityView::RawNv12
    } else if s == "usb3"@ {
        CapabilityView::Usb3
    } else if s == "speedtest_v1"@ {
        CapabilityView::SpeedtestV1
    } else {
        CapabilityView::Other(s)
    }
}

/// Whether two strings hold the same characters.
fn str_eq(a: &str, b: &str) -> (r: bool)
    ensures
        r == (a@ == b@),
{
    let x: String = a.to_owned();
    let y: String = b.to_owned();
    x == y
}

impl Capability {
    /// Canonical wire string for known capabilities; an `Other` capability
    /// answers its own string.
    pub fn as_str(&self) -> (s: &str)
        ensures
            s@ == spec_wire_str(self@),
    {
        match self {
            Capability::Hevc => "hevc",
            Capability::H264 => "h264",
            Capability::RawNv12 => "raw_nv12",
            Capability::Usb3 => "usb3",
            Capability::SpeedtestV1 => "speedtest_v1",
            Capability::Other(s) => s.as_str(),
        }
    }

    /// The capability that the wire string `s` names (the `From<&str>`
    /// conversion of the protocol).
    pub fn from_wire(s: &str) -> (c: Capability)
        ensures
            c@ == spec_from_wire(s@),
    {
        if str_eq(s, "hevc") {
            Capability::Hevc
        } else if str_eq(s, "h264") {
            Capability::H264
        } else if str_eq(s, "raw_nv12") {
            Capability::RawNv12
        } else if str_eq(s, "usb3") {
            Capability::Usb3
        } else if str_eq(s, "speedtest_v1") {
            Capability::SpeedtestV1
        } else {
            Capability::Other(s.to_owned())
        }
    }
}

impl PartialEq for Capability {
    fn eq(&self, other: &Capability) -> (r: bool) {
        match (self, other) {
            (Capability::Hevc, Capability::Hevc) => true,
            (Capability::H264, Capability::H264) => true,
            (Capability::RawNv12, Capability::RawNv12) => true,
            (Capability::Usb3, Capability::Usb3) => true,
            (Capability::SpeedtestV1, Capability::SpeedtestV1) => true,
            (Capability::Other(a), Capability::Other(b)) => *a == *b,
            _ => false,
        }
    }
}

impl Eq for Capability {

}

impl PartialEqSpecImpl for Capability {
    open spec fn obeys_eq_spec() -> bool {
        true
    }

    open spec fn eq_spec(&self, other: &Capability) -> bool {
        self@ == other@
    }
}

/// The wire string of the capability that a string names is that string.
pub proof fn law_wire_of_from_wire(s: Seq<char>)
    ensures
        spec_wire_str(spec_from_wire(s)) == s,
{
}

/// A capability read back from its own wire string is the same capability,
/// unless it is an `Other` whose string names a known capability.
pub proof fn law_from_wire_of_wire(c: CapabilityView)
    requires
        !(c is Other && spec_from_wire(spec_wire_str(c)) !is Other),
    ensures
        spec_from_wire(spec_wire_str(c)) == c,
{
    reveal_strlit("hevc");
    reveal_strlit("h264");
    reveal_strlit("raw_nv12");
    reveal_strlit("usb3");
    reveal_strlit("speedtest_v1");
    match c {
        CapabilityView::Hevc => {},
        CapabilityView::H264 => {
            assert("h264"@[1] != "hevc"@[1]);
        },
        CapabilityView::RawNv12 => {
            assert("raw_nv12"@.len() != "hevc"@.len());
            assert("raw_nv12"@.len() != "h264"@.len());
        },
        CapabilityView::Usb3 => {
            assert("usb3"@[0] != "hevc"@[0]);
            assert("usb3"@[0] != "h264"@[0]);
            assert("usb3"@.len() != "raw_nv12"@.len());
        },
        CapabilityView::SpeedtestV1 => {
            assert("speedtest_v1"@.len() != "hevc"@.len());
            assert("speedtest_v1"@.len() != "h264"@.len());
            assert("speedtest_v1"@.len() != "raw_nv12"@.len());
            assert("speedtest_v1"@.len() != "usb3"@.len());
        },
        CapabilityView::Other(_) => {},
    }
}

} // verus!
