//! Server-side control-plane handshake as a state machine:
//!
//! ```text
//!     <- HELLO   -> HELLO_ACK, or ERROR(incompatible_version | bad_request)
//!     <- AUTH    -> AUTH_OK,   or ERROR(unauthorized | bad_request)
//! ```
//!
//! Over Wi-Fi the phone must present the QR token; over USB it must present
//! the stored pairing key. The caller reads frames and writes the replies.

use vstd::prelude::*;
use vstd::string::StringExecFns;
use crate::protocol::messages::{Auth, ErrorCode, Hello};
use crate::protocol::version::{Capability, CapabilityView, PROTO_VER};
use crate::session::error::SessionError;
use crate::desktop::token::random_bytes;

verus! {

/// Which credential a handshake accepts.
#[derive(Debug, Clone, Copy, PartialEq, Eq, Structural)]
pub enum HandshakeKind {
    /// Wi-Fi: the QR token.
    Wifi,
    /// USB: the stored pairing key.
    Usb,
}

/// The body of a received envelope, as far as the handshake cares.
#[derive(Debug)]
pub enum Inbound {
    Hello(Hello),
    Auth(Auth),
    Other,
}

/// Something that happened while waiting for the phone.
#[derive(Debug)]
pub enum HandshakeEvent {
    /// An envelope with sequence number `seq` arrived.
    Received { seq: u64, body: Inbound },
    /// The phone stayed silent past the handshake timeout.
    TimedOut,
}

/// Where the handshake stands.
#[derive(Debug)]
pub enum HandshakePhase {
    AwaitHello,
    AwaitAuth { hello: Hello },
    Done,
}

/// A session whose handshake succeeded.
#[derive(Debug)]
pub struct AcceptedSession {
    pub session_id: String,
    /// The credential the phone presented (token or pairing key).
    pub token: String,
    pub hello: Hello,
}

/// What the caller must do next.
#[derive(Debug)]
pub enum HandshakeStep {
    /// Send `HELLO_ACK { proto_ver: PROTO_VER, caps }` acking `ack`, then wait for `AUTH`.
    SendHelloAck { ack: u64, caps: Vec<Capability> },
    /// Send `ERROR { code, message }` acking `ack`, then fail with `error`.
    Reject { ack: u64, code: ErrorCode, message: String, error: SessionError },
    /// Send `AUTH_OK { session_id }` (seq 1) acking `ack`; the session is accepted.
    Accept { ack: u64, session: AcceptedSession },
    /// Fail without sending anything.
    Fail(SessionError),
}

/// The handshake of one control connection.
pub struct Handshake {
    pub kind: HandshakeKind,
    /// The credential the phone must present.
    pub secret: String,
    pub server_caps: Vec<Capability>,
    pub phase: HandshakePhase,
}

/// The server's capabilities that the client also advertises, in the
/// server's order.
pub open spec fn spec_agreed_caps(server: Seq<CapabilityView>, client: Seq<CapabilityView>) -> Seq<CapabilityView>
    decreases server.len(),
{
    if server.len() == 0 {
        Seq::empty()
    } else if client.contains(server.last()) {
        spec_agreed_caps(server.drop_last(), client).push(server.last())
    } else {
        spec_agreed_caps(server.drop_last(), client)
    }
}

/// The views of a list of capabilities.
pub open spec fn cap_views(cs: Seq<Capability>) -> Seq<CapabilityView> {
    cs.map_values(|c: Capability| c@)
}

impl Capability {
    /// A copy of the capability.
    pub fn duplicate(&self) -> (c: Capability)
        ensures
            c@ == self@,
    {
        match self {
            Capability::Hevc => Capability::Hevc,
            Capability::H264 => Capability::H264,
            Capability::RawNv12 => Capability::RawNv12,
            Capability::Usb3 => Capability::Usb3,
            Capability::SpeedtestV1 => Capability::SpeedtestV1,
            Capability::Other(s) => Capability::Other(s.clone()),
        }
    }
}

/// The capabilities both sides support, in the server's order.
pub fn negotiate_caps(server: &[Capability], client: &[Capability]) -> (r: Vec<Capability>)
    ensures
        cap_views(r@) == spec_agreed_caps(cap_views(server@), cap_views(client@)),
{
    let mut out: Vec<Capability> = Vec::new();
    let mut i: usize = 0;
    while i < server.len()
        invariant
            i <= server@.len(),
            cap_views(out@) == spec_agreed_caps(cap_views(server@.subrange(0, i as int)), cap_views(client@)),
        decreases server@.len() - i,
    {
        assert(cap_views(server@.subrange(0, i + 1)).drop_last() =~= cap_views(server@.subrange(0, i as int)));
        let mut found = false;
        let mut j: usize = 0;
        while j < client.len()
            invariant
                i < server@.len(),
                j <= client@.len(),
                found == exists|k: int| 0 <= k < j && client@[k]@ == server@[i as int]@,
            decreases client@.len() - j,
        {
            if client[j] == server[i] {
                found = true;
            }
            j = j + 1;
        }
        proof {
            let cv = cap_views(client@);
            if found {
                let k = choose|k: int| 0 <= k < client@.len() && client@[k]@ == server@[i as int]@;
                assert(cv[k] == server@[i as int]@);
            } else {
                assert forall|k: int| 0 <= k < cv.len() implies cv[k] != server@[i as int]@ by {
                    assert(cv[k] == client@[k]@);
                }
            }
            assert(cap_views(server@.subrange(0, i + 1)).last() == server@[i as int]@);
        }
        if found {
            let c = server[i].duplicate();
            let ghost before = out@;
            out.push(c);
            assert(cap_views(out@) =~= cap_views(before).push(c@));
        }
        i = i + 1;
    }
    assert(server@.subrange(0, i as int) =~= server@);
    out
}

/// A nibble (`0 <= v < 16`) as a lowercase hexadecimal digit.
pub open spec fn hex_digit(v: int) -> char {
    if v < 10 {
        (48 + v) as char
    } else {
        (87 + v) as char
    }
}

/// Bytes as lowercase hexadecimal, high nibble first.
pub open spec fn lower_hex(b: Seq<u8>) -> Seq<char> {
    Seq::new(2 * b.len(), |i: int| hex_digit(if i % 2 == 0 { (b[i / 2] / 16) as int } else { (b[i / 2] % 16) as int }))
}

/// The bytes of a random (version 4, RFC 4122 variant) UUID built from 16
/// random bytes: the version in the high nibble of byte 6, the variant in
/// the top two bits of byte 8.
pub open spec fn uuid_v4_bytes(b: Seq<u8>) -> Seq<u8> {
    b.update(6, (b[6] & 0x0fu8) | 0x40u8).update(8, (b[8] & 0x3fu8) | 0x80u8)
}

/// `uuid::Builder::from_random_bytes(bytes).into_uuid().simple()` rendered
/// as a string: the builder sets the version and variant bits, and the
/// simple format writes the 16 bytes as 32 lowercase hex digits in order.
#[verifier::external_body]
fn uuid_v4_simple(bytes: [u8; 16]) -> (s: String)
    ensures
        s@ == lower_hex(uuid_v4_bytes(bytes@)),
{
    uuid::Builder::from_random_bytes(bytes).into_uuid().simple().to_string()
}

/// A lowercase hexadecimal digit.
pub open spec fn is_lower_hex(c: char) -> bool {
    ('0' <= c && c <= '9') || ('a' <= c && c <= 'f')
}

/// The shape of a session id: `sess-` followed by 32 lowercase hex digits.
pub open spec fn is_session_id(s: Seq<char>) -> bool {
    &&& s.len() == 37
    &&& s.subrange(0, 5) == "sess-"@
    &&& forall|i: int| 5 <= i < 37 ==> is_lower_hex(#[trigger] s[i])
}

/// The session id of 16 random bytes: `sess-` and the simple form of the
/// random UUID they make.
pub open spec fn session_id_of(b: Seq<u8>) -> Seq<char> {
    "sess-"@ + lower_hex(uuid_v4_bytes(b))
}

proof fn lemma_session_id_shape(b: Seq<u8>)
    requires
        b.len() == 16,
    ensures
        is_session_id(session_id_of(b)),
{
    reveal_strlit("sess-");
    let h = lower_hex(uuid_v4_bytes(b));
    let s = session_id_of(b);
    assert(s.subrange(0, 5) =~= "sess-"@);
    assert forall|i: int| 5 <= i < 37 implies is_lower_hex(#[trigger] s[i]) by {
        let k = i - 5;
        let byte = uuid_v4_bytes(b)[k / 2];
        assert(s[i] == h[k]);
        let v: int = if k % 2 == 0 { (byte / 16) as int } else { (byte % 16) as int };
        assert(0 <= v < 16);
        assert(h[k] == hex_digit(v));
        if v < 10 {
            assert(hex_digit(v) as int == 48 + v);
        } else {
            assert(hex_digit(v) as int == 87 + v);
        }
    }
}

/// The session id made from 16 random bytes: `sess-` and the 32 lowercase
/// hex digits of the version 4 UUID built from them.
pub fn session_id_from_bytes(bytes: [u8; 16]) -> (s: String)
    ensures
        s@ == session_id_of(bytes@),
        is_session_id(s@),
{
    let u = uuid_v4_simple(bytes);
    let mut s = String::from_str("sess-");
    s.append(u.as_str());
    proof {
        lemma_session_id_shape(bytes@);
        assert(s@ =~= session_id_of(bytes@));
    }
    s
}

/// A fresh random session id: [`session_id_from_bytes`] of 16 bytes drawn
/// from the operating system's random source; `None` when that source
/// fails.
pub fn new_session_id() -> (r: Option<String>)
    ensures
        r matches Some(s) ==> is_session_id(s@) && exists|b: Seq<u8>| b.len() == 16 && s@ == session_id_of(b),
{
    let v = match random_bytes(16) {
        Some(v) => v,
        None => {
            return None;
        },
    };
    let bytes: [u8; 16] = [
        v[0], v[1], v[2], v[3], v[4], v[5], v[6], v[7], v[8], v[9], v[10], v[11], v[12], v[13], v[14], v[15],
    ];
    assert(bytes@ =~= v@);
    Some(session_id_from_bytes(bytes))
}

/// Whether `step` refuses a presented credential because no session id
/// could be drawn: `ERROR(internal)` acking `ack`.
pub open spec fn is_no_session_id(step: HandshakeStep, ack: u64) -> bool {
    step matches HandshakeStep::Reject { ack: a, code, message, error } && a == ack && code == ErrorCode::Internal
        && message@ == "session id unavailable"@ && error is SessionIdUnavailable
}

/// The refusal sent when the random source fails at `AUTH`.
fn no_session_id(ack: u64) -> (step: HandshakeStep)
    ensures
        is_no_session_id(step, ack),
{
    HandshakeStep::Reject {
        ack,
        code: ErrorCode::Internal,
        message: String::from_str("session id unavailable"),
        error: SessionError::SessionIdUnavailable,
    }
}

impl Handshake {
    /// Invariant: a handshake waiting for `AUTH` holds a `HELLO` of the
    /// current protocol version.
    pub open spec fn wf(&self) -> bool {
        self.phase matches HandshakePhase::AwaitAuth { hello } ==> hello.proto_ver == PROTO_VER
    }

    /// A handshake waiting for `HELLO`, accepting `secret` as the credential of `kind`.
    pub fn new(kind: HandshakeKind, secret: &str, server_caps: &[Capability]) -> (h: Handshake)
        ensures
            h.kind == kind,
            h.secret@ == secret@,
            cap_views(h.server_caps@) == cap_views(server_caps@),
            h.phase is AwaitHello,
            h.wf(),
    {
        let mut caps: Vec<Capability> = Vec::new();
        let mut i: usize = 0;
        while i < server_caps.len()
            invariant
                i <= server_caps@.len(),
                cap_views(caps@) == cap_views(server_caps@.subrange(0, i as int)),
            decreases server_caps@.len() - i,
        {
            let c = server_caps[i].duplicate();
            let ghost before = caps@;
            caps.push(c);
            assert(cap_views(caps@) =~= cap_views(before).push(c@));
            assert(cap_views(server_caps@.subrange(0, i + 1)) =~= cap_views(server_caps@.subrange(0, i as int)).push(
                server_caps@[i as int]@));
            i = i + 1;
        }
        assert(server_caps@.subrange(0, i as int) =~= server_caps@);
        Handshake { kind, secret: secret.to_owned(), server_caps: caps, phase: HandshakePhase::AwaitHello }
    }

    /// React to one event. Only called before the handshake is done.
    pub fn on_event(&mut self, event: HandshakeEvent) -> (step: HandshakeStep)
        requires
            !(old(self).phase is Done),
            old(self).wf(),
        ensures
            final(self).wf(),
            step matches HandshakeStep::Accept { session, .. } ==> session.token@ == old(self).secret@
                && session.hello.proto_ver == PROTO_VER && is_session_id(session.session_id@),
            final(self).kind == old(self).kind,
            final(self).secret == old(self).secret,
            final(self).server_caps == old(self).server_caps,
            match event {
                HandshakeEvent::TimedOut => step matches HandshakeStep::Fail(SessionError::HandshakeTimeout)
                    && final(self).phase is Done,
                HandshakeEvent::Received { seq, body } => match (old(self).phase, body) {
                    (HandshakePhase::AwaitHello, Inbound::Hello(h)) => if h.proto_ver != PROTO_VER {
                        &&& step matches HandshakeStep::Reject { ack, code, message, error }
                        &&& ack == seq && code == ErrorCode::IncompatibleVersion
                        &&& message@ == "proto version mismatch"@
                        &&& error matches SessionError::IncompatibleProtoVer { peer, local }
                        &&& peer == h.proto_ver && local == PROTO_VER
                        &&& final(self).phase is Done
                    } else {
                        &&& step matches HandshakeStep::SendHelloAck { ack, caps }
                        &&& ack == seq
                        &&& cap_views(caps@) == spec_agreed_caps(cap_views(old(self).server_caps@), cap_views(h.caps@))
                        &&& final(self).phase == HandshakePhase::AwaitAuth { hello: h }
                    },
                    (HandshakePhase::AwaitHello, _) => {
                        &&& step matches HandshakeStep::Reject { ack, code, message, error }
                        &&& ack == seq && code == ErrorCode::BadRequest && message@ == "expected HELLO"@
                        &&& error matches SessionError::UnexpectedMessage(m) && m@ == "expected HELLO"@
                        &&& final(self).phase is Done
                    },
                    (HandshakePhase::AwaitAuth { hello }, Inbound::Auth(a)) => {
                        &&& final(self).phase is Done
                        &&& match (old(self).kind, a) {
                            (HandshakeKind::Wifi, Auth::Token { token }) => if token@ == old(self).secret@ {
                                (step matches HandshakeStep::Accept { ack, session } && ack == seq
                                    && session.token@ == token@ && session.hello == hello
                                    && is_session_id(session.session_id@)) || is_no_session_id(step, seq)
                            } else {
                                step matches HandshakeStep::Reject { ack, code, message, error } && ack == seq
                                    && code == ErrorCode::Unauthorized && message@ == "bad token"@
                                    && error is Unauthorized
                            },
                            (HandshakeKind::Wifi, Auth::PairingKey { .. }) => step matches HandshakeStep::Reject {
                                ack,
                                code,
                                message,
                                error,
                            } && ack == seq && code == ErrorCode::Unauthorized && message@ == "bad token"@
                                && error is Unauthorized,
                            (HandshakeKind::Usb, Auth::PairingKey { pairing_key }) => if pairing_key@
                                == old(self).secret@ {
                                (step matches HandshakeStep::Accept { ack, session } && ack == seq
                                    && session.token@ == pairing_key@ && session.hello == hello
                                    && is_session_id(session.session_id@)) || is_no_session_id(step, seq)
                            } else {
                                step matches HandshakeStep::Reject { ack, code, message, error } && ack == seq
                                    && code == ErrorCode::Unauthorized && message@ == "pairing key mismatch"@
                                    && error is Unauthorized
                            },
                            (HandshakeKind::Usb, Auth::Token { .. }) => step matches HandshakeStep::Reject {
                                ack,
                                code,
                                message,
                                error,
                            } && ack == seq && code == ErrorCode::Unauthorized && message@
                                == "USB session requires pairingKey, not token"@ && error is Unauthorized,
                        }
                    },
                    (HandshakePhase::AwaitAuth { .. }, _) => {
                        &&& step matches HandshakeStep::Reject { ack, code, message, error }
                        &&& ack == seq && code == ErrorCode::BadRequest && message@ == "expected AUTH"@
                        &&& error matches SessionError::UnexpectedMessage(m) && m@ == "expected AUTH"@
                        &&& final(self).phase is Done
                    },
                    (HandshakePhase::Done, _) => false,
                },
            },
    {
        let mut phase = HandshakePhase::Done;
        std::mem::swap(&mut phase, &mut self.phase);
        match event {
            HandshakeEvent::TimedOut => HandshakeStep::Fail(SessionError::HandshakeTimeout),
            HandshakeEvent::Received { seq, body } => match phase {
                HandshakePhase::AwaitHello => match body {
                    Inbound::Hello(h) => {
                        if h.proto_ver != PROTO_VER {
                            HandshakeStep::Reject {
                                ack: seq,
                                code: ErrorCode::IncompatibleVersion,
                                message: String::from_str("proto version mismatch"),
                                error: SessionError::IncompatibleProtoVer { peer: h.proto_ver, local: PROTO_VER },
                            }
                        } else {
                            let caps = negotiate_caps(self.server_caps.as_slice(), h.caps.as_slice());
                            self.phase = HandshakePhase::AwaitAuth { hello: h };
                            HandshakeStep::SendHelloAck { ack: seq, caps }
                        }
                    },
                    _ => HandshakeStep::Reject {
                        ack: seq,
                        code: ErrorCode::BadRequest,
                        message: String::from_str("expected HELLO"),
                        error: SessionError::UnexpectedMessage("expected HELLO"),
                    },
                },
                HandshakePhase::AwaitAuth { hello } => match body {
                    Inbound::Auth(a) => match (self.kind, a) {
                        (HandshakeKind::Wifi, Auth::Token { token }) => {
                            if token == self.secret {
                                match new_session_id() {
                                    Some(session_id) => HandshakeStep::Accept {
                                        ack: seq,
                                        session: AcceptedSession { session_id, token, hello },
                                    },
                                    None => no_session_id(seq),
                                }
                            } else {
                                HandshakeStep::Reject {
                                    ack: seq,
                                    code: ErrorCode::Unauthorized,
                                    message: String::from_str("bad token"),
                                    error: SessionError::Unauthorized,
                                }
                            }
                        },
                        (HandshakeKind::Wifi, Auth::PairingKey { .. }) => HandshakeStep::Reject {
                            ack: seq,
                            code: ErrorCode::Unauthorized,
                            message: String::from_str("bad token"),
                            error: SessionError::Unauthorized,
                        },
                        (HandshakeKind::Usb, Auth::PairingKey { pairing_key }) => {
                            if pairing_key == self.secret {
                                match new_session_id() {
                                    Some(session_id) => HandshakeStep::Accept {
                                        ack: seq,
                                        session: AcceptedSession { session_id, token: pairing_key, hello },
                                    },
                                    None => no_session_id(seq),
                                }
                            } else {
                                HandshakeStep::Reject {
                                    ack: seq,
                                    code: ErrorCode::Unauthorized,
                                    message: String::from_str("pairing key mismatch"),
                                    error: SessionError::Unauthorized,
                                }
                            }
                        },
                        (HandshakeKind::Usb, Auth::Token { .. }) => HandshakeStep::Reject {
                            ack: seq,
                            code: ErrorCode::Unauthorized,
                            message: String::from_str("USB session requires pairingKey, not token"),
                            error: SessionError::Unauthorized,
                        },
                    },
                    _ => HandshakeStep::Reject {
                        ack: seq,
                        code: ErrorCode::BadRequest,
                        message: String::from_str("expected AUTH"),
                        error: SessionError::UnexpectedMessage("expected AUTH"),
                    },
                },
                HandshakePhase::Done => HandshakeStep::Fail(SessionError::HandshakeTimeout),
            },
        }
    }
}


/// The agreed capabilities are exactly the server's capabilities that the
/// client also advertises.
pub proof fn law_agreed_caps_are_common(server: Seq<CapabilityView>, client: Seq<CapabilityView>)
    ensures
        forall|c: CapabilityView| #[trigger] spec_agreed_caps(server, client).contains(c) <==> (server.contains(c)
            && client.contains(c)),
    decreases server.len(),
{
    if server.len() > 0 {
        let d = server.drop_last();
        law_agreed_caps_are_common(d, client);
        assert forall|c: CapabilityView| #[trigger] spec_agreed_caps(server, client).contains(c) <==> (
        server.contains(c) && client.contains(c)) by {
            let a = spec_agreed_caps(server, client);
            let ad = spec_agreed_caps(d, client);
            if a.contains(c) {
                let k = choose|k: int| 0 <= k < a.len() && a[k] == c;
                if client.contains(server.last()) && k == a.len() - 1 {
                    assert(server[server.len() - 1] == c);
                } else {
                    if client.contains(server.last()) {
                        assert(a == ad.push(server.last()));
                    } else {
                        assert(a == ad);
                    }
                    assert(a[k] == ad[k]);
                    assert(ad.contains(c));
                    let j = choose|j: int| 0 <= j < d.len() && d[j] == c;
                    assert(server[j] == d[j]);
                }
            }
            if server.contains(c) && client.contains(c) {
                let j = choose|j: int| 0 <= j < server.len() && server[j] == c;
                if j == server.len() - 1 {
                    assert(a[a.len() - 1] == c);
                } else {
                    assert(d[j] == c);
                    assert(d.contains(c));
                    assert(ad.contains(c));
                    let k = choose|k: int| 0 <= k < ad.len() && ad[k] == c;
                    if client.contains(server.last()) {
                        assert(a == ad.push(server.last()));
                    } else {
                        assert(a == ad);
                    }
                    assert(a[k] == ad[k]);
                }
            }
        }
    }
}

} // verus!
