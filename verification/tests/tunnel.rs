//! Frames with real JSON payloads, alone and over a real yamux connection.

use std::future::Future;
use std::pin::Pin;
use std::task::Poll;

use bytes::{BufMut, Bytes, BytesMut};
use futures::{SinkExt, StreamExt};
use mcpg_tunnel_proto::driver::{open_outcome, Action, Driver, Event, Progress};
use mcpg_tunnel_proto::session::{
    AgentAction, AgentEvent, AgentHandshake, RelayAction, RelayEvent, RelayHandshake,
};
use mcpg_tunnel_proto::{
    AttestedMeta, ClientIp, Exposure, Frame, FrameCodec, FrameJson, HandshakeRequest,
    HandshakeResponse, Json, ProtoError, RequestHead, ResponseHead, TlsMeta, TrustMode, TunnelError, TunnelSpec,
    MAX_FRAME_LEN, TUNNEL_PROTO_VERSION,
};
use serde_json::Value;
use tokio::io::{AsyncRead, AsyncWrite};
use tokio::sync::{mpsc, oneshot, watch};
use tokio_util::codec::{Decoder, Encoder, Framed};
use tokio_util::compat::{Compat, FuturesAsyncReadCompatExt, TokioAsyncReadCompatExt};

// JSON, written and read by hand.

type Parsed<T> = Result<T, serde_json::Error>;

struct ByHand;

impl FrameJson for ByHand {}

fn bad(what: &str) -> serde_json::Error {
    <serde_json::Error as serde::de::Error>::custom(what)
}

fn string(text: &str) -> Value {
    Value::String(text.to_owned())
}

fn put_optional(map: &mut serde_json::Map<String, Value>, name: &str, value: &Option<String>) {
    if let Some(text) = value {
        map.insert(name.to_owned(), string(text));
    }
}

fn headers_value(headers: &[(String, String)]) -> Value {
    Value::Array(
        headers
            .iter()
            .map(|(name, value)| Value::Array(vec![string(name), string(value)]))
            .collect(),
    )
}

fn ip_text(ip: &ClientIp) -> String {
    match ip {
        ClientIp::V4(octets) => {
            let parts: Vec<String> = octets.iter().map(|octet| format!("{octet}")).collect();
            parts.join(".")
        }
        ClientIp::V6(octets) => {
            let parts: Vec<String> = octets
                .chunks(2)
                .map(|pair| format!("{:02x}{:02x}", pair[0], pair[1]))
                .collect();
            parts.join(":")
        }
    }
}

fn ip_from(text: &str) -> Parsed<ClientIp> {
    if text.contains(':') {
        let mut octets = [0u8; 16];
        for (i, group) in text.split(':').enumerate() {
            let group = u16::from_str_radix(group, 16).map_err(|_| bad("address"))?;
            octets[2 * i] = (group / 256) as u8;
            octets[2 * i + 1] = (group % 256) as u8;
        }
        Ok(ClientIp::V6(octets))
    } else {
        let mut octets = [0u8; 4];
        for (i, octet) in text.split('.').enumerate() {
            octets[i] = octet.parse().map_err(|_| bad("address"))?;
        }
        Ok(ClientIp::V4(octets))
    }
}

fn spec_value(spec: &TunnelSpec) -> Value {
    let mut map = serde_json::Map::new();
    put_optional(&mut map, "name", &spec.name);
    let exposure = match spec.exposure {
        Exposure::Public => "public",
        Exposure::Private => "private",
    };
    map.insert("exposure".to_owned(), string(exposure));
    let mode = match spec.mode {
        TrustMode::RelayTerminated => "relay_terminated",
        TrustMode::E2ee => "e2ee",
    };
    map.insert("mode".to_owned(), string(mode));
    Value::Object(map)
}

fn attested_value(attested: &AttestedMeta) -> Value {
    let mut map = serde_json::Map::new();
    if let Some(ip) = &attested.client_ip {
        map.insert("client_ip".to_owned(), string(&ip_text(ip)));
    }
    if let Some(tls) = &attested.tls {
        let mut inner = serde_json::Map::new();
        put_optional(&mut inner, "sni", &tls.sni);
        inner.insert(
            "client_cert_present".to_owned(),
            Value::Bool(tls.client_cert_present),
        );
        put_optional(
            &mut inner,
            "client_cert_chain_sha256",
            &tls.client_cert_chain_sha256,
        );
        if !tls.san_uris.is_empty() {
            let uris = tls.san_uris.iter().map(|uri| string(uri)).collect();
            inner.insert("san_uris".to_owned(), Value::Array(uris));
        }
        map.insert("tls".to_owned(), Value::Object(inner));
    }
    Value::Object(map)
}

fn required(value: &Value, name: &str) -> Parsed<String> {
    value[name]
        .as_str()
        .map(|text| text.to_owned())
        .ok_or_else(|| bad(name))
}

fn optional(value: &Value, name: &str) -> Option<String> {
    value[name].as_str().map(|text| text.to_owned())
}

fn headers_from(value: &Value) -> Parsed<Vec<(String, String)>> {
    let mut headers = Vec::new();
    for pair in value["headers"].as_array().ok_or_else(|| bad("headers"))? {
        let name = pair[0].as_str().ok_or_else(|| bad("header name"))?;
        let text = pair[1].as_str().ok_or_else(|| bad("header value"))?;
        headers.push((name.to_owned(), text.to_owned()));
    }
    Ok(headers)
}

fn spec_from(value: &Value) -> Parsed<TunnelSpec> {
    Ok(TunnelSpec {
        name: optional(value, "name"),
        exposure: match required(value, "exposure")?.as_str() {
            "public" => Exposure::Public,
            "private" => Exposure::Private,
            _ => return Err(bad("exposure")),
        },
        mode: match required(value, "mode")?.as_str() {
            "relay_terminated" => TrustMode::RelayTerminated,
            "e2ee" => TrustMode::E2ee,
            _ => return Err(bad("mode")),
        },
    })
}

fn attested_from(value: &Value) -> Parsed<AttestedMeta> {
    let client_ip = match value["client_ip"].as_str() {
        Some(text) => Some(ip_from(text)?),
        None => None,
    };
    let tls = &value["tls"];
    let tls = if tls.is_object() {
        let uris = tls["san_uris"].as_array().cloned().unwrap_or_default();
        Some(TlsMeta {
            sni: optional(tls, "sni"),
            client_cert_present: tls["client_cert_present"]
                .as_bool()
                .ok_or_else(|| bad("client_cert_present"))?,
            client_cert_chain_sha256: optional(tls, "client_cert_chain_sha256"),
            san_uris: uris
                .iter()
                .filter_map(|uri| uri.as_str().map(|text| text.to_owned()))
                .collect(),
        })
    } else {
        None
    };
    Ok(AttestedMeta { client_ip, tls })
}

fn text_of(map: serde_json::Map<String, Value>) -> Parsed<Vec<u8>> {
    serde_json::to_vec(&Value::Object(map))
}

impl Json<HandshakeRequest> for ByHand {
    fn write(&self, v: &HandshakeRequest) -> Parsed<Vec<u8>> {
        let mut map = serde_json::Map::new();
        map.insert("proto_version".to_owned(), string(&v.proto_version));
        map.insert("instance_uid".to_owned(), string(&v.instance_uid));
        map.insert("spec".to_owned(), spec_value(&v.spec));
        put_optional(&mut map, "bearer", &v.bearer);
        text_of(map)
    }

    fn read(&self, text: &[u8]) -> Parsed<HandshakeRequest> {
        let value: Value = serde_json::from_slice(text)?;
        Ok(HandshakeRequest {
            proto_version: required(&value, "proto_version")?,
            instance_uid: required(&value, "instance_uid")?,
            spec: spec_from(&value["spec"])?,
            bearer: optional(&value, "bearer"),
        })
    }
}

impl Json<HandshakeResponse> for ByHand {
    fn write(&self, v: &HandshakeResponse) -> Parsed<Vec<u8>> {
        let mut map = serde_json::Map::new();
        map.insert(
            "accepted_proto_version".to_owned(),
            string(&v.accepted_proto_version),
        );
        map.insert("tunnel_id".to_owned(), string(&v.tunnel_id));
        put_optional(&mut map, "public_url", &v.public_url);
        map.insert("heartbeat_secs".to_owned(), Value::from(v.heartbeat_secs));
        text_of(map)
    }

    fn read(&self, text: &[u8]) -> Parsed<HandshakeResponse> {
        let value: Value = serde_json::from_slice(text)?;
        Ok(HandshakeResponse {
            accepted_proto_version: required(&value, "accepted_proto_version")?,
            tunnel_id: required(&value, "tunnel_id")?,
            public_url: optional(&value, "public_url"),
            heartbeat_secs: value["heartbeat_secs"]
                .as_u64()
                .ok_or_else(|| bad("heartbeat_secs"))? as u32,
        })
    }
}

impl Json<RequestHead> for ByHand {
    fn write(&self, v: &RequestHead) -> Parsed<Vec<u8>> {
        let mut map = serde_json::Map::new();
        map.insert("method".to_owned(), string(&v.method));
        map.insert("path".to_owned(), string(&v.path));
        put_optional(&mut map, "query", &v.query);
        map.insert("headers".to_owned(), headers_value(&v.headers));
        map.insert("attested".to_owned(), attested_value(&v.attested));
        text_of(map)
    }

    fn read(&self, text: &[u8]) -> Parsed<RequestHead> {
        let value: Value = serde_json::from_slice(text)?;
        Ok(RequestHead {
            method: required(&value, "method")?,
            path: required(&value, "path")?,
            query: optional(&value, "query"),
            headers: headers_from(&value)?,
            attested: attested_from(&value["attested"])?,
        })
    }
}

impl Json<ResponseHead> for ByHand {
    fn write(&self, v: &ResponseHead) -> Parsed<Vec<u8>> {
        let mut map = serde_json::Map::new();
        map.insert("status".to_owned(), Value::from(v.status));
        map.insert("headers".to_owned(), headers_value(&v.headers));
        text_of(map)
    }

    fn read(&self, text: &[u8]) -> Parsed<ResponseHead> {
        let value: Value = serde_json::from_slice(text)?;
        Ok(ResponseHead {
            status: value["status"].as_u64().ok_or_else(|| bad("status"))? as u16,
            headers: headers_from(&value)?,
        })
    }
}

impl Json<TunnelError> for ByHand {
    fn write(&self, v: &TunnelError) -> Parsed<Vec<u8>> {
        let mut map = serde_json::Map::new();
        map.insert("code".to_owned(), string(&v.code));
        map.insert("message".to_owned(), string(&v.message));
        text_of(map)
    }

    fn read(&self, text: &[u8]) -> Parsed<TunnelError> {
        let value: Value = serde_json::from_slice(text)?;
        Ok(TunnelError::new(
            required(&value, "code")?,
            required(&value, "message")?,
        ))
    }
}

// The frame codec.

fn spec(exposure: Exposure, mode: TrustMode) -> TunnelSpec {
    TunnelSpec {
        name: Some("acme-crm".to_owned()),
        exposure,
        mode,
    }
}

/// Encode a frame, then decode it back out of a buffer and assert equality.
fn round_trip(frame: Frame) {
    let mut buf = BytesMut::new();
    frame.encode(&ByHand, &mut buf).expect("encode");
    let decoded = Frame::decode(&mut buf, &ByHand)
        .expect("decode ok")
        .expect("a frame");
    assert_eq!(frame, decoded);
    assert!(buf.is_empty(), "decode must consume exactly one frame");
}

#[test]
fn round_trip_handshake_request() {
    round_trip(Frame::HandshakeRequest(HandshakeRequest::new(
        "inst-123",
        spec(Exposure::Private, TrustMode::E2ee),
    )));
}

#[test]
fn round_trip_handshake_response_public_and_private() {
    round_trip(Frame::HandshakeResponse(HandshakeResponse {
        accepted_proto_version: TUNNEL_PROTO_VERSION.to_owned(),
        tunnel_id: "acme-crm-7f3a".to_owned(),
        public_url: Some("https://acme-crm-7f3a.tunnels.mcpg.cloud/mcp".to_owned()),
        heartbeat_secs: 30,
    }));
    // Private tunnels carry no public URL.
    round_trip(Frame::HandshakeResponse(HandshakeResponse {
        accepted_proto_version: TUNNEL_PROTO_VERSION.to_owned(),
        tunnel_id: "acme-crm-7f3a".to_owned(),
        public_url: None,
        heartbeat_secs: 30,
    }));
}

#[test]
fn round_trip_request_head_with_attested_origin() {
    round_trip(Frame::RequestHead(RequestHead {
        method: "POST".to_owned(),
        path: "/mcp".to_owned(),
        query: None,
        headers: vec![("content-type".to_owned(), "application/json".to_owned())],
        attested: AttestedMeta {
            client_ip: Some(ClientIp::V4([203, 0, 113, 7])),
            tls: Some(TlsMeta {
                sni: Some("acme-crm-7f3a.tunnels.mcpg.cloud".to_owned()),
                client_cert_present: true,
                client_cert_chain_sha256: Some("abcd".to_owned()),
                san_uris: vec!["spiffe://mcpg/instance/inst-123".to_owned()],
            }),
        },
    }));
}

#[test]
fn round_trip_request_head_from_an_ipv6_client() {
    round_trip(Frame::RequestHead(RequestHead {
        method: "GET".to_owned(),
        path: "/mcp".to_owned(),
        query: Some("cursor=2".to_owned()),
        headers: vec![],
        attested: AttestedMeta {
            client_ip: Some(ClientIp::V6([
                0x20, 0x01, 0x0d, 0xb8, 0, 0, 0, 0, 0, 0, 0, 0, 0, 0, 0, 1,
            ])),
            tls: Some(TlsMeta::default()),
        },
    }));
}

#[test]
fn round_trip_response_body_stream_and_error() {
    round_trip(Frame::ResponseHead(ResponseHead {
        status: 200,
        headers: vec![("content-type".to_owned(), "text/event-stream".to_owned())],
    }));
    round_trip(Frame::BodyChunk(Bytes::from_static(
        b"event: message\ndata: {}\n\n",
    )));
    round_trip(Frame::BodyEnd);
    round_trip(Frame::Error(TunnelError::new(
        "quota_exceeded",
        "tunnel limit reached",
    )));
}

#[test]
fn decode_is_incremental_and_streams_multiple_frames() {
    // Two frames encoded back-to-back decode one at a time; a partial
    // tail yields Ok(None) without consuming or erroring.
    let mut wire = BytesMut::new();
    Frame::BodyChunk(Bytes::from_static(b"one"))
        .encode(&ByHand, &mut wire)
        .unwrap();
    Frame::BodyChunk(Bytes::from_static(b"two"))
        .encode(&ByHand, &mut wire)
        .unwrap();

    // Feed the bytes one at a time; decode yields exactly two frames.
    let full = wire.split().freeze();
    let mut buf = BytesMut::new();
    let mut got = Vec::new();
    for byte in full.iter() {
        buf.put_u8(*byte);
        while let Some(f) = Frame::decode(&mut buf, &ByHand).unwrap() {
            got.push(f);
        }
    }
    assert_eq!(
        got,
        vec![
            Frame::BodyChunk(Bytes::from_static(b"one")),
            Frame::BodyChunk(Bytes::from_static(b"two")),
        ]
    );
}

#[test]
fn decode_partial_header_returns_none() {
    let mut buf = BytesMut::new();
    buf.extend_from_slice(&[0x03, 0x00]); // kind + 1 of 4 length bytes
    assert!(Frame::decode(&mut buf, &ByHand).unwrap().is_none());
    assert_eq!(buf.len(), 2, "an incomplete frame is left untouched");
}

#[test]
fn decode_rejects_unknown_kind() {
    let mut buf = BytesMut::new();
    buf.extend_from_slice(&[0xFF, 0x00, 0x00, 0x00, 0x00]);
    assert!(matches!(
        Frame::decode(&mut buf, &ByHand),
        Err(ProtoError::UnknownKind(0xFF))
    ));
}

#[test]
fn decode_rejects_oversized_length_prefix() {
    let mut buf = BytesMut::new();
    buf.put_u8(0x03);
    buf.put_u32(MAX_FRAME_LEN + 1);
    assert!(matches!(
        Frame::decode(&mut buf, &ByHand),
        Err(ProtoError::FrameTooLarge { .. })
    ));
}

#[test]
fn error_frame_has_its_exact_bytes() {
    let text = br#"{"code":"c","message":"m"}"#;
    let mut expected = vec![0x05, 0, 0, 0, 26];
    expected.extend_from_slice(text);
    let bytes = Frame::Error(TunnelError::new("c", "m"))
        .to_bytes(&ByHand)
        .unwrap();
    assert_eq!(&bytes[..], &expected[..]);
}

#[test]
fn structured_frames_of_every_kind_decode_in_order_among_bodies() {
    let frames = vec![
        Frame::HandshakeRequest(HandshakeRequest::new(
            "inst-1",
            spec(Exposure::Public, TrustMode::RelayTerminated),
        )),
        Frame::HandshakeResponse(HandshakeResponse {
            accepted_proto_version: "1.0".to_owned(),
            tunnel_id: "t".to_owned(),
            public_url: None,
            heartbeat_secs: 1,
        }),
        Frame::BodyChunk(Bytes::new()),
        Frame::RequestHead(RequestHead {
            method: "POST".to_owned(),
            path: "/".to_owned(),
            query: None,
            headers: vec![],
            attested: AttestedMeta::default(),
        }),
        Frame::BodyEnd,
        Frame::ResponseHead(ResponseHead {
            status: 404,
            headers: vec![],
        }),
        Frame::Error(TunnelError::new("a", "b")),
    ];
    let mut codec = FrameCodec;
    let mut buf = BytesMut::new();
    for frame in &frames {
        codec.encode(frame.clone(), &ByHand, &mut buf).unwrap();
    }
    buf.extend_from_slice(&[0x04, 0, 0]);
    for frame in frames {
        assert_eq!(codec.decode(&mut buf, &ByHand).unwrap(), Some(frame));
    }
    assert_eq!(codec.decode(&mut buf, &ByHand).unwrap(), None);
    assert_eq!(&buf[..], &[0x04, 0, 0]);
}

#[test]
fn payload_is_read_as_the_variant_that_its_header_names() {
    let text = br#"{"status":200,"headers":[]}"#;
    let mut head = BytesMut::new();
    head.extend_from_slice(&[0x02, 0, 0, 0, text.len() as u8]);
    head.extend_from_slice(text);
    assert_eq!(
        Frame::decode(&mut head, &ByHand).unwrap(),
        Some(Frame::ResponseHead(ResponseHead {
            status: 200,
            headers: vec![],
        }))
    );
    // The same text is no request, response, request head or error.
    for kind in [0x10u8, 0x11, 0x01, 0x05] {
        let mut buf = BytesMut::new();
        buf.extend_from_slice(&[kind, 0, 0, 0, text.len() as u8]);
        buf.extend_from_slice(text);
        assert!(matches!(
            Frame::decode(&mut buf, &ByHand),
            Err(ProtoError::Json(_))
        ));
        assert_eq!(buf.len(), 5 + text.len());
    }
}

#[test]
fn to_bytes_is_what_encode_appends_to_any_buffer() {
    let frame = Frame::Error(TunnelError::new("a", "b"));
    let fresh = frame.to_bytes(&ByHand).unwrap();
    let mut buf = BytesMut::new();
    buf.extend_from_slice(b"held");
    frame.encode(&ByHand, &mut buf).unwrap();
    assert_eq!(&buf[..4], b"held");
    assert_eq!(&buf[4..], &fresh[..]);
}

#[test]
fn encodings_of_different_frames_do_not_begin_each_other() {
    let frames = vec![
        Frame::Error(TunnelError::new("a", "b")),
        Frame::Error(TunnelError::new("a", "bc")),
        Frame::BodyChunk(Bytes::new()),
        Frame::BodyChunk(Bytes::from_static(b"x")),
        Frame::BodyChunk(Bytes::from_static(b"xy")),
        Frame::BodyEnd,
    ];
    for (i, one) in frames.iter().enumerate() {
        for (j, other) in frames.iter().enumerate() {
            let one = one.to_bytes(&ByHand).unwrap();
            let other = other.to_bytes(&ByHand).unwrap();
            assert_eq!(other.starts_with(&one), i == j);
        }
    }
}

#[test]
fn later_bytes_change_no_decision() {
    let decided: Vec<Vec<u8>> = vec![
        vec![0x03, 0, 0, 0, 1, 7],
        vec![0x03, 0xFF, 0, 0, 0],
        vec![0xEE, 0, 0, 0, 0],
        vec![0x05, 0, 0, 0, 1, b'{'],
    ];
    for bytes in decided {
        let mut short = BytesMut::from(&bytes[..]);
        let mut long = BytesMut::from(&bytes[..]);
        long.extend_from_slice(&[1, 2, 3]);
        let one = Frame::decode(&mut short, &ByHand);
        let other = Frame::decode(&mut long, &ByHand);
        assert_eq!(format!("{one:?}"), format!("{other:?}"));
        short.extend_from_slice(&[1, 2, 3]);
        assert_eq!(short, long);
    }
}

#[test]
fn frames_are_received_as_they_were_sent_however_they_are_cut() {
    let frames = vec![
        Frame::RequestHead(RequestHead {
            method: "POST".to_owned(),
            path: "/mcp".to_owned(),
            query: None,
            headers: vec![],
            attested: AttestedMeta::default(),
        }),
        Frame::BodyChunk(Bytes::from_static(b"ping")),
        Frame::BodyChunk(Bytes::new()),
        Frame::BodyEnd,
        Frame::Error(TunnelError::new("a", "b")),
    ];
    let mut sent = BytesMut::new();
    for frame in &frames {
        sent.extend_from_slice(&frame.to_bytes(&ByHand).unwrap());
    }
    for size in 1..=sent.len() {
        let mut buf = BytesMut::new();
        let mut received = Vec::new();
        for piece in sent.chunks(size) {
            buf.extend_from_slice(piece);
            while let Some(frame) = Frame::decode(&mut buf, &ByHand).unwrap() {
                received.push(frame);
                assert_eq!(received[..], frames[..received.len()]);
            }
        }
        assert_eq!(received, frames);
        assert!(buf.is_empty());
    }
}

#[test]
fn codec_and_frame_decode_alike_after_a_failure() {
    let mut codec = FrameCodec;
    let mut broken = BytesMut::from(&[0xEE, 0, 0, 0, 0][..]);
    assert!(codec.decode(&mut broken, &ByHand).is_err());
    let bytes = Frame::Error(TunnelError::new("a", "b"))
        .to_bytes(&ByHand)
        .unwrap();
    let mut one = BytesMut::from(&bytes[..]);
    let mut other = BytesMut::from(&bytes[..]);
    assert_eq!(
        codec.decode(&mut one, &ByHand).unwrap(),
        Frame::decode(&mut other, &ByHand).unwrap()
    );
    assert_eq!(one, other);
}

#[test]
fn malformed_json_is_an_error_and_consumes_nothing() {
    let mut buf = BytesMut::new();
    buf.extend_from_slice(&[0x05, 0, 0, 0, 2, b'{', b'x', 9]);
    let before = buf.clone();
    assert!(matches!(
        Frame::decode(&mut buf, &ByHand),
        Err(ProtoError::Json(_))
    ));
    assert_eq!(buf, before);
}

// A session over any transport, with the decisions taken by the library.

#[derive(Debug, Default, Clone, Copy)]
struct StreamCodec(FrameCodec);

impl Decoder for StreamCodec {
    type Item = Frame;
    type Error = ProtoError;

    fn decode(&mut self, src: &mut BytesMut) -> Result<Option<Frame>, ProtoError> {
        self.0.decode(src, &ByHand)
    }
}

impl Encoder<Frame> for StreamCodec {
    type Error = ProtoError;

    fn encode(&mut self, item: Frame, dst: &mut BytesMut) -> Result<(), ProtoError> {
        self.0.encode(item, &ByHand, dst)
    }
}

struct FrameStream {
    inner: Framed<Compat<yamux::Stream>, StreamCodec>,
}

impl FrameStream {
    fn new(stream: yamux::Stream) -> Self {
        FrameStream {
            inner: Framed::new(stream.compat(), StreamCodec::default()),
        }
    }

    async fn send(&mut self, frame: Frame) -> Result<(), ProtoError> {
        self.inner.send(frame).await
    }

    async fn recv(&mut self) -> Result<Option<Frame>, ProtoError> {
        self.inner.next().await.transpose()
    }

    async fn close(&mut self) -> Result<(), ProtoError> {
        self.inner.close().await
    }
}

type OpenReply = oneshot::Sender<Result<yamux::Stream, ProtoError>>;

struct Mux {
    open_tx: mpsc::UnboundedSender<OpenReply>,
    inbound_rx: mpsc::UnboundedReceiver<yamux::Stream>,
    _shutdown: oneshot::Sender<()>,
    closed_rx: watch::Receiver<()>,
}

impl Mux {
    fn spawn<T>(io: T, mode: yamux::Mode) -> Self
    where
        T: AsyncRead + AsyncWrite + Unpin + Send + 'static,
    {
        let conn = yamux::Connection::new(io.compat(), yamux::Config::default(), mode);
        let (open_tx, open_rx) = mpsc::unbounded_channel();
        let (inbound_tx, inbound_rx) = mpsc::unbounded_channel();
        let (shutdown_tx, shutdown_rx) = oneshot::channel();
        let (closed_tx, closed_rx) = watch::channel(());
        tokio::spawn(drive(conn, open_rx, inbound_tx, shutdown_rx, closed_tx));
        Mux {
            open_tx,
            inbound_rx,
            _shutdown: shutdown_tx,
            closed_rx,
        }
    }

    async fn open(&self) -> Result<FrameStream, ProtoError> {
        let (tx, rx) = oneshot::channel();
        let answer = match self.open_tx.send(tx) {
            Ok(()) => rx.await.ok(),
            Err(_) => None,
        };
        open_outcome(answer).map(FrameStream::new)
    }

    async fn accept(&mut self) -> Option<FrameStream> {
        self.inbound_rx.recv().await.map(FrameStream::new)
    }
}

fn conn_err(e: yamux::ConnectionError) -> ProtoError {
    ProtoError::Io(std::io::Error::other(e.to_string()))
}

fn progress<T>(poll: Poll<T>) -> Progress<T> {
    match poll {
        Poll::Ready(value) => Progress::Ready(value),
        Poll::Pending => Progress::Pending,
    }
}

async fn drive<T>(
    mut conn: yamux::Connection<Compat<T>>,
    mut open_rx: mpsc::UnboundedReceiver<OpenReply>,
    inbound_tx: mpsc::UnboundedSender<yamux::Stream>,
    mut shutdown_rx: oneshot::Receiver<()>,
    _closed_tx: watch::Sender<()>,
) where
    T: AsyncRead + AsyncWrite + Unpin + Send + 'static,
{
    let mut driver: Driver<OpenReply> = Driver::new();
    std::future::poll_fn(|cx| {
        let mut event = Event::Wake;
        loop {
            event = match driver.step(event) {
                Action::PollShutdown => {
                    let signalled = Pin::new(&mut shutdown_rx).poll(cx).map(|_| ());
                    Event::Shutdown(progress(signalled))
                }
                Action::PollClose => Event::Closed(progress(conn.poll_close(cx).map(|_| ()))),
                Action::PollRequest => Event::Request(progress(open_rx.poll_recv(cx))),
                Action::PollOutbound => {
                    Event::Outbound(progress(conn.poll_new_outbound(cx).map_err(conn_err)))
                }
                Action::PollInbound => {
                    Event::Inbound(progress(conn.poll_next_inbound(cx).map_err(conn_err)))
                }
                Action::Answer { to, with } => {
                    let _ = to.send(with);
                    Event::Wake
                }
                Action::Deliver(stream) => {
                    let _ = inbound_tx.send(stream);
                    Event::Wake
                }
                Action::Wait => return Poll::Pending,
                Action::Stop => return Poll::Ready(()),
            }
        }
    })
    .await
}

struct Session {
    mux: Mux,
    _control: FrameStream,
}

async fn connect<T>(
    io: T,
    req: HandshakeRequest,
) -> Result<(Session, HandshakeResponse), ProtoError>
where
    T: AsyncRead + AsyncWrite + Unpin + Send + 'static,
{
    let (mut handshake, first) = AgentHandshake::start(req);
    if let AgentAction::Fail(error) = first {
        return Err(error);
    }
    let mux = Mux::spawn(io, yamux::Mode::Client);
    let mut control = mux.open().await?;
    let mut event = AgentEvent::Opened(Ok(()));
    loop {
        let (next, action) = handshake.step(event);
        handshake = next;
        event = match action {
            AgentAction::Send(frame) => AgentEvent::Sent(control.send(frame).await),
            AgentAction::Receive => AgentEvent::Received(control.recv().await),
            AgentAction::Establish(response) => {
                let session = Session {
                    mux,
                    _control: control,
                };
                return Ok((session, response));
            }
            AgentAction::Fail(error) => return Err(error),
            AgentAction::Open => unreachable!(),
        };
    }
}

async fn accept<T, F>(io: T, on_handshake: F) -> Result<(Session, HandshakeRequest), ProtoError>
where
    T: AsyncRead + AsyncWrite + Unpin + Send + 'static,
    F: FnOnce(&HandshakeRequest) -> Result<HandshakeResponse, ProtoError>,
{
    let mut mux = Mux::spawn(io, yamux::Mode::Server);
    let (mut handshake, _) = RelayHandshake::start();
    let mut control = mux.accept().await;
    let mut event = RelayEvent::Accepted(control.is_some());
    let mut policy = Some(on_handshake);
    loop {
        let (next, action) = handshake.step(event);
        handshake = next;
        event = match action {
            RelayAction::Receive => {
                RelayEvent::Received(control.as_mut().expect("a control stream").recv().await)
            }
            RelayAction::Decide => {
                let decide = policy.take().expect("decided once");
                RelayEvent::Decided(decide(handshake.request().expect("a request")))
            }
            RelayAction::Send(frame) => {
                RelayEvent::Sent(control.as_mut().expect("a control stream").send(frame).await)
            }
            RelayAction::Establish(request) => {
                let session = Session {
                    mux,
                    _control: control.expect("a control stream"),
                };
                return Ok((session, request));
            }
            RelayAction::Fail(error) => return Err(error),
            RelayAction::Accept => unreachable!(),
        };
    }
}

fn run<F: Future>(test: F) -> F::Output {
    tokio::runtime::Builder::new_current_thread()
        .enable_time()
        .build()
        .unwrap()
        .block_on(test)
}

fn private_spec() -> TunnelSpec {
    TunnelSpec {
        name: Some("acme-crm".to_owned()),
        exposure: Exposure::Private,
        mode: TrustMode::RelayTerminated,
    }
}

fn ok_handshake(req: &HandshakeRequest) -> Result<HandshakeResponse, ProtoError> {
    req.spec.validate()?;
    Ok(HandshakeResponse {
        accepted_proto_version: req.proto_version.clone(),
        tunnel_id: "acme-crm-7f3a".to_owned(),
        // A private tunnel exposes no public URL.
        public_url: match req.spec.exposure {
            Exposure::Public => Some("https://acme-crm-7f3a.tunnels.mcpg.cloud/mcp".to_owned()),
            Exposure::Private => None,
        },
        heartbeat_secs: 30,
    })
}

/// Drain a request stream on the agent side (RequestHead + body to BodyEnd), then
/// answer with a 200 + a body + BodyEnd.
async fn agent_echo_once(agent: &mut Session) {
    let mut s = agent.mux.accept().await.expect("a request stream");
    let head = s.recv().await.unwrap().unwrap();
    assert!(matches!(head, Frame::RequestHead(_)));
    // Consume request body.
    loop {
        match s.recv().await.unwrap() {
            Some(Frame::BodyChunk(_)) => {}
            Some(Frame::BodyEnd) => break,
            other => panic!("unexpected request body frame: {other:?}"),
        }
    }
    s.send(Frame::ResponseHead(ResponseHead {
        status: 200,
        headers: vec![],
    }))
    .await
    .unwrap();
    s.send(Frame::BodyChunk(Bytes::from_static(b"pong")))
        .await
        .unwrap();
    s.send(Frame::BodyEnd).await.unwrap();
    s.close().await.unwrap();
}

#[test]
fn closed_resolves_only_after_the_agent_disconnects() {
    run(async {
        let (client_io, server_io) = tokio::io::duplex(64 * 1024);
        let relay_task = tokio::spawn(async move { accept(server_io, ok_handshake).await });
        let (agent, _resp) = connect(client_io, HandshakeRequest::new("inst-1", private_spec()))
            .await
            .unwrap();
        let (relay, _req) = relay_task.await.unwrap().unwrap();

        let mut closed = relay.mux.closed_rx.clone();
        // Still connected: the signal must not resolve.
        assert!(
            tokio::time::timeout(std::time::Duration::from_millis(50), closed.changed())
                .await
                .is_err(),
            "closed() resolved while the tunnel was still up"
        );

        // Dropping the agent tears its transport down; the relay driver ends and
        // its closed sender drops, so `changed()` resolves (Err = sender gone).
        drop(agent);
        let resolved = tokio::time::timeout(std::time::Duration::from_secs(2), closed.changed())
            .await
            .is_ok();
        assert!(
            resolved,
            "closed() must resolve after the agent disconnects"
        );
    })
}

#[test]
fn handshake_then_request_response_roundtrip() {
    run(async {
        let (client_io, server_io) = tokio::io::duplex(64 * 1024);

        let relay = tokio::spawn(async move {
            let (relay, req) = accept(server_io, ok_handshake).await.unwrap();
            assert_eq!(req.instance_uid, "inst-1");
            assert_eq!(req.spec.exposure, Exposure::Private);

            let mut s = relay.mux.open().await.unwrap();
            s.send(Frame::RequestHead(RequestHead {
                method: "POST".to_owned(),
                path: "/mcp".to_owned(),
                query: None,
                headers: vec![("content-type".to_owned(), "application/json".to_owned())],
                attested: AttestedMeta {
                    client_ip: Some(ClientIp::V4([203, 0, 113, 7])),
                    tls: None,
                },
            }))
            .await
            .unwrap();
            s.send(Frame::BodyChunk(Bytes::from_static(b"ping")))
                .await
                .unwrap();
            s.send(Frame::BodyEnd).await.unwrap();

            // Response head + body.
            let head = s.recv().await.unwrap().unwrap();
            assert!(matches!(head, Frame::ResponseHead(h) if h.status == 200));
            let mut body = Vec::new();
            loop {
                match s.recv().await.unwrap() {
                    Some(Frame::BodyChunk(b)) => body.extend_from_slice(&b),
                    Some(Frame::BodyEnd) => break,
                    None => break,
                    other => panic!("unexpected response frame: {other:?}"),
                }
            }
            assert_eq!(&body, b"pong");
        });

        let (mut agent, resp) = connect(client_io, HandshakeRequest::new("inst-1", private_spec()))
            .await
            .unwrap();
        // Private tunnel: no public URL surfaced.
        assert_eq!(resp.tunnel_id, "acme-crm-7f3a");
        assert_eq!(resp.public_url, None);

        agent_echo_once(&mut agent).await;
        relay.await.unwrap();
    })
}

#[test]
fn multiple_concurrent_request_streams() {
    run(async {
        let (client_io, server_io) = tokio::io::duplex(64 * 1024);

        let relay = tokio::spawn(async move {
            let (relay, _req) = accept(server_io, ok_handshake).await.unwrap();
            // Open three request streams and confirm each gets its own 200.
            let mut streams = Vec::new();
            for _ in 0..3 {
                let mut s = relay.mux.open().await.unwrap();
                s.send(Frame::RequestHead(RequestHead {
                    method: "POST".to_owned(),
                    path: "/mcp".to_owned(),
                    query: None,
                    headers: vec![],
                    attested: AttestedMeta::default(),
                }))
                .await
                .unwrap();
                s.send(Frame::BodyEnd).await.unwrap();
                streams.push(s);
            }
            for mut s in streams {
                let head = s.recv().await.unwrap().unwrap();
                assert!(matches!(head, Frame::ResponseHead(h) if h.status == 200));
            }
        });

        let (mut agent, _resp) =
            connect(client_io, HandshakeRequest::new("inst-1", private_spec()))
                .await
                .unwrap();
        for _ in 0..3 {
            agent_echo_once(&mut agent).await;
        }
        relay.await.unwrap();
    })
}

#[test]
fn relay_rejection_surfaces_to_agent() {
    run(async {
        let (client_io, server_io) = tokio::io::duplex(64 * 1024);

        let relay = tokio::spawn(async move {
            // Relay refuses every handshake with a quota error.
            let res = accept(server_io, |_req: &HandshakeRequest| {
                Err(ProtoError::Rejected("quota_exceeded".to_owned()))
            })
            .await;
            assert!(res.is_err());
        });

        let err = match connect(client_io, HandshakeRequest::new("inst-1", private_spec())).await {
            Ok(_) => panic!("handshake must be rejected"),
            Err(e) => e,
        };
        assert!(matches!(err, ProtoError::Rejected(_)), "got {err:?}");
        assert_eq!(
            err.to_string(),
            "tunnel handshake rejected: \
             handshake_rejected: tunnel handshake rejected: quota_exceeded"
        );
        relay.await.unwrap();
    })
}

#[test]
fn agent_takes_an_out_of_order_frame_for_a_violation() {
    run(async {
        let (client_io, server_io) = tokio::io::duplex(1024);
        let relay = tokio::spawn(async move {
            let mut mux = Mux::spawn(server_io, yamux::Mode::Server);
            let mut control = mux.accept().await.expect("a control stream");
            control.recv().await.unwrap();
            control.send(Frame::BodyEnd).await.unwrap();
            // Hold the session until the agent has hung up.
            let _ = control.recv().await;
        });
        let err = match connect(client_io, HandshakeRequest::new("inst-1", private_spec())).await {
            Ok(_) => panic!("a body end opens no tunnel"),
            Err(e) => e,
        };
        assert!(matches!(err, ProtoError::Protocol(_)), "got {err:?}");
        relay.await.unwrap();
    })
}

#[test]
fn agent_rejects_public_e2ee_before_dialing() {
    run(async {
        let (client_io, _server_io) = tokio::io::duplex(1024);
        let bad = TunnelSpec {
            name: None,
            exposure: Exposure::Public,
            mode: TrustMode::E2ee,
        };
        let err = match connect(client_io, HandshakeRequest::new("inst-1", bad)).await {
            Ok(_) => panic!("public+e2ee must be refused locally"),
            Err(e) => e,
        };
        assert!(matches!(err, ProtoError::InvalidSpec(_)));
    })
}
