//! Session handshake: the one-time control exchange that establishes a tunnel and
//! negotiates the protocol version, before any request streams flow.

use crate::error::{ProtoError, ProtoErrorView};
use vstd::prelude::*;

verus! {

/// The protocol version this crate speaks.
pub const TUNNEL_PROTO_VERSION: &'static str = "1.0";

/// Whether a tunnel is reachable from the public internet.
#[derive(Debug, Clone, Copy, PartialEq, Eq, Structural)]
pub enum Exposure {
    /// A public hostname is allocated and TLS is terminated at the relay.
    Public,
    /// No public hostname, cert, or DNS is allocated. Reachable *only* as a
    /// federation upstream from a same-org gateway.
    Private,
}

/// Who can read the tunnelled payloads.
#[derive(Debug, Clone, Copy, PartialEq, Eq, Structural)]
pub enum TrustMode {
    /// The relay terminates the client TLS and sees plaintext. The only option
    /// when the consumer is a third-party MCP client.
    RelayTerminated,
    /// Both endpoints run an inner encrypted session *through* the relay; the
    /// relay splices ciphertext and reads nothing. Requires
    /// [`Exposure::Private`].
    E2ee,
}

/// The requested shape of a tunnel, sent by the agent in the handshake.
#[derive(Debug, Clone, PartialEq, Eq)]
pub struct TunnelSpec {
    /// A stable name, or `None` to have the relay allocate one.
    pub name: Option<String>,
    pub exposure: Exposure,
    pub mode: TrustMode,
}

/// Agent to relay: open a tunnel session.
#[derive(Debug, Clone, PartialEq, Eq)]
pub struct HandshakeRequest {
    pub proto_version: String,
    /// The dialing instance's stable UID, bound to the enrollment token at
    /// Register time so the relay can anti-spoof.
    pub instance_uid: String,
    pub spec: TunnelSpec,
    /// Bearer credential of a standalone agent. A gateway that presents its
    /// identity via the transport leaves this `None`.
    pub bearer: Option<String>,
}

/// Relay to agent: the tunnel is open.
#[derive(Debug, Clone, PartialEq, Eq)]
pub struct HandshakeResponse {
    pub accepted_proto_version: String,
    /// The allocated tunnel id.
    pub tunnel_id: String,
    /// The public URL, present iff [`Exposure::Public`].
    pub public_url: Option<String>,
    /// How often the agent should send a keepalive on the control channel.
    pub heartbeat_secs: u32,
}

/// A [`TunnelSpec`] with its strings as sequences of characters.
pub struct TunnelSpecView {
    pub name: Option<Seq<char>>,
    pub exposure: Exposure,
    pub mode: TrustMode,
}

/// A [`HandshakeRequest`] with its strings as sequences of characters.
pub struct HandshakeRequestView {
    pub proto_version: Seq<char>,
    pub instance_uid: Seq<char>,
    pub spec: TunnelSpecView,
    pub bearer: Option<Seq<char>>,
}

/// A [`HandshakeResponse`] with its strings as sequences of characters.
pub struct HandshakeResponseView {
    pub accepted_proto_version: Seq<char>,
    pub tunnel_id: Seq<char>,
    pub public_url: Option<Seq<char>>,
    pub heartbeat_secs: u32,
}

impl View for TunnelSpec {
    type V = TunnelSpecView;

    open spec fn view(&self) -> TunnelSpecView {
        TunnelSpecView { name: self.name.deep_view(), exposure: self.exposure, mode: self.mode }
    }
}

impl View for HandshakeRequest {
    type V = HandshakeRequestView;

    open spec fn view(&self) -> HandshakeRequestView {
        HandshakeRequestView {
            proto_version: self.proto_version@,
            instance_uid: self.instance_uid@,
            spec: self.spec@,
            bearer: self.bearer.deep_view(),
        }
    }
}

impl View for HandshakeResponse {
    type V = HandshakeResponseView;

    open spec fn view(&self) -> HandshakeResponseView {
        HandshakeResponseView {
            accepted_proto_version: self.accepted_proto_version@,
            tunnel_id: self.tunnel_id@,
            public_url: self.public_url.deep_view(),
            heartbeat_secs: self.heartbeat_secs,
        }
    }
}

impl TunnelSpec {
    /// A tunnel is not end-to-end encrypted and public at once.
    pub open spec fn is_valid(self) -> bool {
        !(self.mode == TrustMode::E2ee && self.exposure == Exposure::Public)
    }

    /// Enforce the cross-field invariant: end-to-end encryption is only
    /// meaningful on a private (federation-only) tunnel. A public tunnel must
    /// terminate a third-party client's TLS at the relay and therefore cannot be
    /// `e2ee`. Both the agent (pre-dial) and the relay (on handshake) call this so
    /// a malformed spec is refused at the earliest point.
    pub fn validate(&self) -> (result: Result<(), ProtoError>)
        ensures
            result is Ok <==> self.is_valid(),
            result matches Err(error) ==> error@ == ProtoErrorView::InvalidSpec(
                "e2ee trust requires private exposure (mcpg-to-mcpg only)"@,
            ),
    {
        if self.mode == TrustMode::E2ee && self.exposure == Exposure::Public {
            return Err(
                ProtoError::InvalidSpec(
                    "e2ee trust requires private exposure (mcpg-to-mcpg only)".to_owned(),
                ),
            );
        }
        Ok(())
    }
}

impl HandshakeRequest {
    /// A request for `spec` in this crate's own protocol version, without a bearer
    /// credential.
    pub fn new<U: Into<String>>(instance_uid: U, spec: TunnelSpec) -> (request: Self)
        ensures
            request.proto_version@ == TUNNEL_PROTO_VERSION@,
            call_ensures(U::into, (instance_uid,), request.instance_uid),
            request.spec == spec,
            request.bearer is None,
    {
        HandshakeRequest {
            proto_version: TUNNEL_PROTO_VERSION.to_owned(),
            instance_uid: instance_uid.into(),
            spec,
            bearer: None,
        }
    }
}

/// The major component of a version: what stands before its first `.`, or all of it.
pub open spec fn major(version: Seq<char>) -> Seq<char>
    decreases version.len(),
{
    if version.len() == 0 || version[0] == '.' {
        Seq::empty()
    } else {
        seq![version[0]] + major(version.skip(1))
    }
}

/// Whether two versions have the same major component, and have one at all.
pub open spec fn compatible(agent: Seq<char>, relay: Seq<char>) -> bool {
    major(agent) == major(relay) && major(agent).len() > 0
}

/// The major component of a version.
fn major_of(version: &str) -> (component: String)
    ensures
        component@ == major(version@),
{
    let len: usize = version.unicode_len();
    let mut end: usize = 0;
    for c in it: version.chars()
        invariant
            it.seq() == version@,
            end == it.index(),
            len == version@.len(),
            forall|i: int| 0 <= i < end ==> version@[i] != '.',
    {
        if c == '.' {
            proof {
                lemma_major(version@, end as int);
            }
            return version.substring_char(0, end).to_owned();
        }
        end = end + 1;
    }
    proof {
        lemma_major(version@, end as int);
        assert(version@.take(end as int) =~= version@);
    }
    version.to_owned()
}

/// A prefix without `.` that is followed by a `.` or by nothing is the major component.
proof fn lemma_major(version: Seq<char>, end: int)
    requires
        0 <= end <= version.len(),
        forall|i: int| 0 <= i < end ==> version[i] != '.',
        end == version.len() || version[end] == '.',
    ensures
        major(version) == version.take(end),
    decreases version.len(),
{
    if end == 0 {
        assert(version.take(0) =~= Seq::empty());
    } else {
        assert forall|i: int| 0 <= i < end - 1 implies version.skip(1)[i] != '.' by {
            assert(version.skip(1)[i] == version[i + 1]);
        }
        lemma_major(version.skip(1), end - 1);
        assert(seq![version[0]] + version.skip(1).take(end - 1) =~= version.take(end));
    }
}

/// Negotiate a protocol version between an agent and a relay. The major component
/// must match exactly; the relay's minor is authoritative within that major
/// (forward-compatible additive minors). Returns the agreed version or
/// [`ProtoError::VersionMismatch`].
pub fn negotiate(agent: &str, relay: &str) -> (result: Result<String, ProtoError>)
    ensures
        result is Ok <==> compatible(agent@, relay@),
        result matches Ok(version) ==> version@ == relay@,
        result matches Err(error) ==> error@ == (ProtoErrorView::VersionMismatch {
            agent: agent@,
            relay: relay@,
        }),
{
    let agent_major = major_of(agent);
    let relay_major = major_of(relay);
    if agent_major == relay_major && !agent_major.as_str().is_empty() {
        Ok(relay.to_owned())
    } else {
        Err(ProtoError::VersionMismatch { agent: agent.to_owned(), relay: relay.to_owned() })
    }
}

} // verus!
