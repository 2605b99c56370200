//! Specs, versions, and the handshake machines of both ends.

use bytes::Bytes;
use mcpg_tunnel_proto::session::{
    conclude, refusal, AgentAction, AgentEvent, AgentHandshake, RelayAction, RelayEvent,
    RelayHandshake,
};
use mcpg_tunnel_proto::{
    negotiate, AttestedMeta, Exposure, Frame, HandshakeRequest, HandshakeResponse, ProtoError,
    TlsMeta, TrustMode, TunnelError, TunnelSpec, TUNNEL_PROTO_VERSION,
};

fn spec(exposure: Exposure, mode: TrustMode) -> TunnelSpec {
    TunnelSpec {
        name: Some("acme-crm".to_owned()),
        exposure,
        mode,
    }
}

fn request() -> HandshakeRequest {
    HandshakeRequest::new("inst-1", spec(Exposure::Private, TrustMode::RelayTerminated))
}

fn response() -> HandshakeResponse {
    HandshakeResponse {
        accepted_proto_version: "1.0".to_owned(),
        tunnel_id: "acme-crm-7f3a".to_owned(),
        public_url: None,
        heartbeat_secs: 30,
    }
}

#[test]
fn spec_validate_rejects_public_e2ee() {
    assert!(spec(Exposure::Private, TrustMode::E2ee).validate().is_ok());
    assert!(spec(Exposure::Private, TrustMode::RelayTerminated)
        .validate()
        .is_ok());
    assert!(spec(Exposure::Public, TrustMode::RelayTerminated)
        .validate()
        .is_ok());
    // The one forbidden combination.
    assert!(matches!(
        spec(Exposure::Public, TrustMode::E2ee).validate(),
        Err(ProtoError::InvalidSpec(_))
    ));
}

#[test]
fn version_negotiation_matches_major_only() {
    assert_eq!(negotiate("1.0", "1.3").unwrap(), "1.3");
    assert_eq!(negotiate("1.9", "1.0").unwrap(), "1.0");
    assert!(matches!(
        negotiate("1.0", "2.0"),
        Err(ProtoError::VersionMismatch { .. })
    ));
}

#[test]
fn versions_without_a_minor_have_a_major() {
    assert_eq!(negotiate("1", "1.2.3").unwrap(), "1.2.3");
    assert_eq!(negotiate("1.2.3", "1").unwrap(), "1");
    assert_eq!(negotiate("1.", "1").unwrap(), "1");
    assert_eq!(negotiate("é.1", "é.2").unwrap(), "é.2");
}

#[test]
fn majors_are_matched_as_text_and_must_not_be_empty() {
    assert!(negotiate("01.0", "1.0").is_err());
    assert!(negotiate("10", "1").is_err());
    assert!(negotiate("", "").is_err());
    assert!(negotiate(".1", ".1").is_err());
    assert!(negotiate("", "1.0").is_err());
    match negotiate("1.0", "2.7") {
        Err(ProtoError::VersionMismatch { agent, relay }) => {
            assert_eq!(agent, "1.0");
            assert_eq!(relay, "2.7");
        }
        other => panic!("unexpected: {other:?}"),
    }
}

#[test]
fn new_request_speaks_the_crate_version_without_a_bearer() {
    let request = HandshakeRequest::new("inst-9", spec(Exposure::Public, TrustMode::E2ee));
    assert_eq!(TUNNEL_PROTO_VERSION, "1.0");
    assert_eq!(request.proto_version, "1.0");
    assert_eq!(request.instance_uid, "inst-9");
    assert_eq!(request.spec, spec(Exposure::Public, TrustMode::E2ee));
    assert_eq!(request.bearer, None);
    let owned = HandshakeRequest::new("inst-9".to_owned(), request.spec.clone());
    assert_eq!(owned, request);
}

#[test]
fn new_tunnel_error_keeps_code_and_message() {
    let error = TunnelError::new("c", "m".to_owned());
    assert_eq!(error.code, "c");
    assert_eq!(error.message, "m");
}

#[test]
fn defaults_attest_nothing() {
    let meta = AttestedMeta::default();
    assert_eq!(meta.client_ip, None);
    assert_eq!(meta.tls, None);
    let tls = TlsMeta::default();
    assert_eq!(tls.sni, None);
    assert!(!tls.client_cert_present);
    assert_eq!(tls.client_cert_chain_sha256, None);
    assert!(tls.san_uris.is_empty());
}

#[test]
fn agent_fails_before_dialing_on_an_invalid_spec() {
    let bad = HandshakeRequest::new("inst-1", spec(Exposure::Public, TrustMode::E2ee));
    let (state, action) = AgentHandshake::start(bad);
    assert!(matches!(state, AgentHandshake::Done));
    match action {
        AgentAction::Fail(ProtoError::InvalidSpec(reason)) => assert_eq!(
            reason,
            "e2ee trust requires private exposure (mcpg-to-mcpg only)"
        ),
        _ => panic!("public+e2ee must be refused locally"),
    }
}

#[test]
fn agent_opens_sends_receives_and_establishes() {
    let (state, action) = AgentHandshake::start(request());
    assert!(matches!(action, AgentAction::Open));
    let (state, action) = state.step(AgentEvent::Opened(Ok(())));
    match action {
        AgentAction::Send(frame) => assert_eq!(frame, Frame::HandshakeRequest(request())),
        _ => panic!("the request is sent first"),
    }
    let (state, action) = state.step(AgentEvent::Sent(Ok(())));
    assert!(matches!(action, AgentAction::Receive));
    let reply = Some(Frame::HandshakeResponse(response()));
    let (state, action) = state.step(AgentEvent::Received(Ok(reply)));
    assert!(matches!(state, AgentHandshake::Done));
    match action {
        AgentAction::Establish(granted) => assert_eq!(granted, response()),
        _ => panic!("a response opens the tunnel"),
    }
}

#[test]
fn agent_fails_with_whatever_failed() {
    let failures: Vec<(AgentHandshake, AgentEvent)> = vec![
        (
            AgentHandshake::Opening(request()),
            AgentEvent::Opened(Err(ProtoError::UnknownKind(9))),
        ),
        (
            AgentHandshake::Sending,
            AgentEvent::Sent(Err(ProtoError::UnknownKind(9))),
        ),
        (
            AgentHandshake::Receiving,
            AgentEvent::Received(Err(ProtoError::UnknownKind(9))),
        ),
    ];
    for (state, event) in failures {
        let (after, action) = state.step(event);
        assert!(matches!(after, AgentHandshake::Done));
        assert!(matches!(
            action,
            AgentAction::Fail(ProtoError::UnknownKind(9))
        ));
    }
}

#[test]
fn agent_concludes_from_the_first_frame() {
    let granted = conclude(Some(Frame::HandshakeResponse(response()))).unwrap();
    assert_eq!(granted, response());
    match conclude(Some(Frame::Error(TunnelError::new("quota", "full")))) {
        Err(ProtoError::Rejected(reason)) => assert_eq!(reason, "quota: full"),
        other => panic!("unexpected: {other:?}"),
    }
    assert!(matches!(conclude(None), Err(ProtoError::SessionClosed)));
    let out_of_order = vec![
        Frame::BodyEnd,
        Frame::BodyChunk(Bytes::new()),
        Frame::HandshakeRequest(request()),
    ];
    for frame in out_of_order {
        match conclude(Some(frame)) {
            Err(ProtoError::Protocol(reason)) => {
                assert_eq!(reason, "expected a handshake response or an error")
            }
            other => panic!("unexpected: {other:?}"),
        }
    }
}

#[test]
fn relay_accepts_receives_decides_confirms_and_establishes() {
    let (state, action) = RelayHandshake::start();
    assert!(matches!(action, RelayAction::Accept));
    assert!(state.request().is_none());
    let (state, action) = state.step(RelayEvent::Accepted(true));
    assert!(matches!(action, RelayAction::Receive));
    let hello = Some(Frame::HandshakeRequest(request()));
    let (state, action) = state.step(RelayEvent::Received(Ok(hello)));
    assert!(matches!(action, RelayAction::Decide));
    assert_eq!(state.request(), Some(&request()));
    let (state, action) = state.step(RelayEvent::Decided(Ok(response())));
    match action {
        RelayAction::Send(frame) => assert_eq!(frame, Frame::HandshakeResponse(response())),
        _ => panic!("the response is sent"),
    }
    assert!(state.request().is_none());
    let (state, action) = state.step(RelayEvent::Sent(Ok(())));
    assert!(matches!(state, RelayHandshake::Done));
    match action {
        RelayAction::Establish(requested) => assert_eq!(requested, request()),
        _ => panic!("the tunnel is open"),
    }
}

#[test]
fn relay_answers_a_refusal_and_fails_with_it_even_if_the_answer_is_lost() {
    for lost in [false, true] {
        let (state, action) = RelayHandshake::Deciding(request()).step(RelayEvent::Decided(Err(
            ProtoError::Rejected("quota_exceeded".to_owned()),
        )));
        match action {
            RelayAction::Send(Frame::Error(error)) => {
                assert_eq!(error.code, "handshake_rejected");
                assert_eq!(error.message, "tunnel handshake rejected: quota_exceeded");
            }
            _ => panic!("a refusal is answered in-band"),
        }
        let outcome = if lost {
            Err(ProtoError::SessionClosed)
        } else {
            Ok(())
        };
        let (state, action) = state.step(RelayEvent::Sent(outcome));
        assert!(matches!(state, RelayHandshake::Done));
        match action {
            RelayAction::Fail(ProtoError::Rejected(reason)) => {
                assert_eq!(reason, "quota_exceeded")
            }
            _ => panic!("the relay fails with its own refusal"),
        }
    }
}

#[test]
fn relay_fails_when_no_request_comes() {
    let (_, action) = RelayHandshake::Accepting.step(RelayEvent::Accepted(false));
    assert!(matches!(
        action,
        RelayAction::Fail(ProtoError::SessionClosed)
    ));
    let (_, action) = RelayHandshake::Receiving.step(RelayEvent::Received(Ok(None)));
    assert!(matches!(
        action,
        RelayAction::Fail(ProtoError::SessionClosed)
    ));
    for frame in [Frame::BodyEnd, Frame::HandshakeResponse(response())] {
        let (state, action) = RelayHandshake::Receiving.step(RelayEvent::Received(Ok(Some(frame))));
        assert!(matches!(state, RelayHandshake::Done));
        match action {
            RelayAction::Fail(ProtoError::Protocol(reason)) => {
                assert_eq!(reason, "expected a handshake request")
            }
            _ => panic!("an out-of-order frame violates the protocol"),
        }
    }
    let (_, action) = RelayHandshake::Receiving
        .step(RelayEvent::Received(Err(ProtoError::UnknownKind(9))));
    assert!(matches!(
        action,
        RelayAction::Fail(ProtoError::UnknownKind(9))
    ));
    let (_, action) = RelayHandshake::Confirming(request())
        .step(RelayEvent::Sent(Err(ProtoError::UnknownKind(9))));
    assert!(matches!(
        action,
        RelayAction::Fail(ProtoError::UnknownKind(9))
    ));
}

#[test]
fn refusal_reads_as_the_error_does() {
    let frame = refusal(&ProtoError::SessionClosed);
    assert_eq!(
        frame,
        Frame::Error(TunnelError::new(
            "handshake_rejected",
            "tunnel session closed"
        ))
    );
}

#[test]
fn policy_that_validates_refuses_an_invalid_spec() {
    let bad = HandshakeRequest::new("inst-1", spec(Exposure::Public, TrustMode::E2ee));
    let verdict = bad.spec.validate().map(|()| response());
    let (state, _) = RelayHandshake::Deciding(bad).step(RelayEvent::Decided(verdict));
    let (_, action) = state.step(RelayEvent::Sent(Ok(())));
    assert!(matches!(
        action,
        RelayAction::Fail(ProtoError::InvalidSpec(_))
    ));
}
