//! What specs and versions are judged by, and what new messages hold.

use super::major_ends_at_the_first_dot;
use crate::error::ProtoError;
use crate::frame::{Frame, TunnelError};
use crate::handshake::{
    major, negotiate, HandshakeRequest, HandshakeResponse, TunnelSpec, TUNNEL_PROTO_VERSION,
};
use crate::http::{AttestedMeta, RequestHead, ResponseHead, TlsMeta};
use vstd::prelude::*;

verus! {

/// Mode and exposure alone settle whether a spec is accepted, and one pair is refused:
/// relay-terminated specs are accepted, private ones are, and a spec that is both end-to-end
/// encrypted and public is not, whatever its name.
pub proof fn one_pair_of_mode_and_exposure_is_refused(
    spec: TunnelSpec,
    result: Result<(), ProtoError>,
)
    requires
        call_ensures(TunnelSpec::validate, (&spec,), result),
    ensures
        spec.mode is RelayTerminated ==> result is Ok,
        spec.exposure is Private ==> result is Ok,
        spec.mode is E2ee && spec.exposure is Public ==> {
            &&& result matches Err(ProtoError::InvalidSpec(reason))
            &&& reason@ == "e2ee trust requires private exposure (mcpg-to-mcpg only)"@
        },
        spec.is_valid() <==> result is Ok,
{
}

/// Two specs with the same exposure and mode are accepted or refused together.
pub proof fn the_name_does_not_matter_for_validity(
    one: TunnelSpec,
    result: Result<(), ProtoError>,
    other: TunnelSpec,
    other_result: Result<(), ProtoError>,
)
    requires
        call_ensures(TunnelSpec::validate, (&one,), result),
        call_ensures(TunnelSpec::validate, (&other,), other_result),
        one.exposure == other.exposure,
        one.mode == other.mode,
    ensures
        result is Ok <==> other_result is Ok,
        one.is_valid() == other.is_valid(),
{
}

/// Whether both versions begin with the same `n` characters, none of them a `.`, and in each
/// a `.` or nothing follows.
pub open spec fn share_a_component(agent: Seq<char>, relay: Seq<char>, n: int) -> bool {
    &&& 0 < n <= agent.len()
    &&& n <= relay.len()
    &&& forall|i: int| 0 <= i < n ==> #[trigger] agent[i] == relay[i] && agent[i] != '.'
    &&& n == agent.len() || agent[n] == '.'
    &&& n == relay.len() || relay[n] == '.'
}

/// Two ends agree exactly when their versions have the same text up to the first `.`, and
/// some text there; whatever follows, they agree on the relay's version. Otherwise the
/// mismatch names both versions.
pub proof fn ends_agree_on_the_relays_version_when_majors_are_equal(
    agent: &str,
    relay: &str,
    result: Result<String, ProtoError>,
)
    requires
        call_ensures(negotiate, (agent, relay), result),
    ensures
        result is Ok <==> exists|n: int| share_a_component(agent@, relay@, n),
        match result {
            Ok(version) => version@ == relay@,
            Err(ProtoError::VersionMismatch { agent: named_agent, relay: named_relay }) => {
                &&& named_agent@ == agent@
                &&& named_relay@ == relay@
            },
            _ => false,
        },
{
    let (a, r) = (agent@, relay@);
    major_ends_at_the_first_dot(a);
    major_ends_at_the_first_dot(r);
    if result is Ok {
        let n = major(a).len() as int;
        assert forall|i: int| 0 <= i < n implies #[trigger] a[i] == r[i] && a[i] != '.' by {
            assert(major(a)[i] == a[i]);
            assert(major(r)[i] == r[i]);
        }
        assert(share_a_component(a, r, n));
    }
    if exists|n: int| share_a_component(a, r, n) {
        let n = choose|n: int| share_a_component(a, r, n);
        lemma_component_is_major(a, n);
        assert forall|i: int| 0 <= i < n implies #[trigger] r[i] != '.' by {
            assert(a[i] == r[i]);
        }
        lemma_component_is_major(r, n);
        assert(a.take(n) =~= r.take(n));
    }
}

/// A first component, up to a `.` or the end, is the major one.
proof fn lemma_component_is_major(version: Seq<char>, n: int)
    requires
        0 <= n <= version.len(),
        forall|i: int| 0 <= i < n ==> #[trigger] version[i] != '.',
        n == version.len() || version[n] == '.',
    ensures
        major(version) == version.take(n),
{
    major_ends_at_the_first_dot(version);
    let m = major(version).len() as int;
    assert(major(version) =~= version.take(m));
    if m < n {
        assert(version[m] == '.');
    }
    if n < m {
        assert(major(version)[n] == version[n]);
    }
}

/// Any spec may be judged and any two versions compared.
pub proof fn specs_and_versions_can_always_be_judged(spec: TunnelSpec, agent: &str, relay: &str)
    ensures
        call_requires(TunnelSpec::validate, (&spec,)),
        call_requires(negotiate, (agent, relay)),
{
}

/// A new request names version 1.0, the spec that it was given, and no bearer, with the uid
/// as it was given.
pub proof fn new_request_holds_what_it_was_given<U: Into<String>>(
    uid: U,
    spec: TunnelSpec,
    request: HandshakeRequest,
)
    requires
        call_ensures(HandshakeRequest::new::<U>, (uid, spec), request),
    ensures
        request.proto_version@ == "1.0"@,
        TUNNEL_PROTO_VERSION@ == "1.0"@,
        call_ensures(U::into, (uid,), request.instance_uid),
        request.spec == spec,
        request.bearer is None,
{
}

/// A uid that is a string stands in a new request character for character.
pub proof fn new_request_keeps_the_characters_of_its_uid(
    borrowed: &str,
    owned: String,
    spec: TunnelSpec,
    one: HandshakeRequest,
    other: HandshakeRequest,
)
    requires
        call_ensures(HandshakeRequest::new::<&str>, (borrowed, spec), one),
        call_ensures(HandshakeRequest::new::<String>, (owned, spec), other),
    ensures
        one.instance_uid@ == borrowed@,
        other.instance_uid@ == owned@,
{
}

/// A new in-band error has its code and message as they were given, not exchanged.
pub proof fn new_error_holds_what_it_was_given<C: Into<String>, M: Into<String>>(
    code: C,
    message: M,
    error: TunnelError,
)
    requires
        call_ensures(TunnelError::new::<C, M>, (code, message), error),
    ensures
        call_ensures(C::into, (code,), error.code),
        call_ensures(M::into, (message,), error.message),
{
}

/// Code and message that are strings stand in a new error character for character.
pub proof fn new_error_keeps_the_characters_of_its_strings(
    code: &str,
    message: String,
    error: TunnelError,
)
    requires
        call_ensures(TunnelError::new::<&str, String>, (code, message), error),
    ensures
        error.code@ == code@,
        error.message@ == message@,
{
}

/// What is attested by default is nothing.
pub proof fn nothing_is_attested_by_default(attested: AttestedMeta, tls: TlsMeta)
    requires
        call_ensures(<AttestedMeta as Default>::default, (), attested),
        call_ensures(<TlsMeta as Default>::default, (), tls),
    ensures
        attested.client_ip is None,
        attested.tls is None,
        tls.sni is None,
        !tls.client_cert_present,
        tls.client_cert_chain_sha256 is None,
        tls.san_uris@.len() == 0,
{
    assert(tls@.san_uris.len() == tls.san_uris@.len());
    assert(tls.sni.deep_view() is None);
    assert(tls.client_cert_chain_sha256.deep_view() is None);
}

/// Two handshake messages that look the same have the same text in every field.
pub proof fn messages_that_look_the_same_are_the_same(
    request: HandshakeRequest,
    other_request: HandshakeRequest,
    response: HandshakeResponse,
    other_response: HandshakeResponse,
)
    ensures
        request@ == other_request@ ==> {
            &&& request.proto_version@ == other_request.proto_version@
            &&& request.instance_uid@ == other_request.instance_uid@
            &&& request.spec.name.deep_view() == other_request.spec.name.deep_view()
            &&& request.spec.exposure == other_request.spec.exposure
            &&& request.spec.mode == other_request.spec.mode
            &&& request.bearer.deep_view() == other_request.bearer.deep_view()
        },
        response@ == other_response@ ==> {
            &&& response.accepted_proto_version@ == other_response.accepted_proto_version@
            &&& response.tunnel_id@ == other_response.tunnel_id@
            &&& response.public_url.deep_view() == other_response.public_url.deep_view()
            &&& response.heartbeat_secs == other_response.heartbeat_secs
        },
{
}

/// Two heads that look the same have the same text in every field.
pub proof fn heads_that_look_the_same_are_the_same(
    request: RequestHead,
    other_request: RequestHead,
    response: ResponseHead,
    other_response: ResponseHead,
    tls: TlsMeta,
    other_tls: TlsMeta,
)
    ensures
        request@ == other_request@ ==> {
            &&& request.method@ == other_request.method@
            &&& request.path@ == other_request.path@
            &&& request.query.deep_view() == other_request.query.deep_view()
            &&& request.headers.deep_view() == other_request.headers.deep_view()
            &&& request.attested.client_ip == other_request.attested.client_ip
            &&& match (request.attested.tls, other_request.attested.tls) {
                (Some(one), Some(other)) => one@ == other@,
                (None, None) => true,
                _ => false,
            }
        },
        response@ == other_response@ ==> {
            &&& response.status == other_response.status
            &&& response.headers.deep_view() == other_response.headers.deep_view()
        },
        tls@ == other_tls@ ==> {
            &&& tls.sni.deep_view() == other_tls.sni.deep_view()
            &&& tls.client_cert_present == other_tls.client_cert_present
            &&& tls.client_cert_chain_sha256.deep_view()
                == other_tls.client_cert_chain_sha256.deep_view()
            &&& tls.san_uris.deep_view() == other_tls.san_uris.deep_view()
        },
{
}

/// Two frames that look the same are of one variant, with contents that look the same.
pub proof fn frames_that_look_the_same_are_the_same(one: Frame, other: Frame)
    requires
        one@ == other@,
    ensures
        match (one, other) {
            (Frame::HandshakeRequest(a), Frame::HandshakeRequest(b)) => a@ == b@,
            (Frame::HandshakeResponse(a), Frame::HandshakeResponse(b)) => a@ == b@,
            (Frame::RequestHead(a), Frame::RequestHead(b)) => a@ == b@,
            (Frame::ResponseHead(a), Frame::ResponseHead(b)) => a@ == b@,
            (Frame::BodyChunk(a), Frame::BodyChunk(b)) => crate::buffer::chunk(a)
                == crate::buffer::chunk(b),
            (Frame::BodyEnd, Frame::BodyEnd) => true,
            (Frame::Error(a), Frame::Error(b)) => a.code@ == b.code@ && a.message@ == b.message@,
            _ => false,
        },
{
}

} // verus!
