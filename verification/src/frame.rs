//! The length-prefixed frame codec.
//!
//! Wire format of one frame: `[kind: u8][len: u32 big-endian][payload: len]`.
//! Structured frames carry JSON payloads; [`Frame::BodyChunk`] carries raw bytes so
//! request/response bodies (including SSE streams) pass through without a
//! serialization copy. The codec is transport- and mux-agnostic: it operates on a
//! [`BytesMut`] buffer, so the session layer can drive it over a yamux stream, a
//! WebSocket, or an in-memory pipe.
//!
//! The JSON text of a structured frame comes from outside: [`Frame::encode`] and
//! [`Frame::decode`] take a [`FrameJson`], and are verified for every one.

use crate::buffer::{be32, buffered, chunk, has_room, put_u32, put_u8};
use crate::error::ProtoError;
use crate::handshake::{
    HandshakeRequest, HandshakeRequestView, HandshakeResponse, HandshakeResponseView,
};
use crate::http::{RequestHead, RequestHeadView, ResponseHead, ResponseHeadView};
use crate::json::{as_payload, read_value, reads, write_value, writes, FrameJson, Json};
use bytes::{Buf, BufMut, Bytes, BytesMut};
use vstd::prelude::*;
use vstd::slice::slice_subrange;

verus! {

/// Hard cap on a single frame's payload. A remote peer must never be able to make
/// us allocate an unbounded buffer from one length prefix; bodies larger than this
/// stream as multiple [`Frame::BodyChunk`]s.
pub const MAX_FRAME_LEN: u32 = 16 * 1024 * 1024;

pub const KIND_HANDSHAKE_REQUEST: u8 = 0x10;

pub const KIND_HANDSHAKE_RESPONSE: u8 = 0x11;

pub const KIND_REQUEST_HEAD: u8 = 0x01;

pub const KIND_RESPONSE_HEAD: u8 = 0x02;

pub const KIND_BODY_CHUNK: u8 = 0x03;

pub const KIND_BODY_END: u8 = 0x04;

pub const KIND_ERROR: u8 = 0x05;

/// Kind byte and length.
pub const HEADER_LEN: usize = 1 + 4;

/// An in-band error surfaced to the peer as a frame (distinct from a local
/// [`ProtoError`]). Carries a stable machine `code` plus a human `message`, e.g. an
/// auth or quota refusal from the relay, or a mid-stream upstream failure from the
/// agent.
#[derive(Debug, Clone, PartialEq, Eq)]
pub struct TunnelError {
    pub code: String,
    pub message: String,
}

/// A [`TunnelError`] with its strings as sequences of characters.
pub struct TunnelErrorView {
    pub code: Seq<char>,
    pub message: Seq<char>,
}

impl View for TunnelError {
    type V = TunnelErrorView;

    open spec fn view(&self) -> TunnelErrorView {
        TunnelErrorView { code: self.code@, message: self.message@ }
    }
}

impl TunnelError {
    pub fn new<C: Into<String>, M: Into<String>>(code: C, message: M) -> (error: Self)
        ensures
            call_ensures(C::into, (code,), error.code),
            call_ensures(M::into, (message,), error.message),
    {
        TunnelError { code: code.into(), message: message.into() }
    }
}

/// One protocol frame.
#[derive(Debug, Clone, PartialEq, Eq)]
pub enum Frame {
    HandshakeRequest(HandshakeRequest),
    HandshakeResponse(HandshakeResponse),
    RequestHead(RequestHead),
    ResponseHead(ResponseHead),
    BodyChunk(Bytes),
    BodyEnd,
    Error(TunnelError),
}

/// A [`Frame`] with its strings and bytes as sequences.
pub enum FrameView {
    HandshakeRequest(HandshakeRequestView),
    HandshakeResponse(HandshakeResponseView),
    RequestHead(RequestHeadView),
    ResponseHead(ResponseHeadView),
    BodyChunk(Seq<u8>),
    BodyEnd,
    Error(TunnelErrorView),
}

impl View for Frame {
    type V = FrameView;

    open spec fn view(&self) -> FrameView {
        match *self {
            Frame::HandshakeRequest(request) => FrameView::HandshakeRequest(request@),
            Frame::HandshakeResponse(response) => FrameView::HandshakeResponse(response@),
            Frame::RequestHead(head) => FrameView::RequestHead(head@),
            Frame::ResponseHead(head) => FrameView::ResponseHead(head@),
            Frame::BodyChunk(bytes) => FrameView::BodyChunk(chunk(bytes)),
            Frame::BodyEnd => FrameView::BodyEnd,
            Frame::Error(error) => FrameView::Error(error@),
        }
    }
}

impl FrameView {
    /// The kind byte of a frame.
    pub open spec fn kind(self) -> u8 {
        match self {
            FrameView::HandshakeRequest(_) => KIND_HANDSHAKE_REQUEST,
            FrameView::HandshakeResponse(_) => KIND_HANDSHAKE_RESPONSE,
            FrameView::RequestHead(_) => KIND_REQUEST_HEAD,
            FrameView::ResponseHead(_) => KIND_RESPONSE_HEAD,
            FrameView::BodyChunk(_) => KIND_BODY_CHUNK,
            FrameView::BodyEnd => KIND_BODY_END,
            FrameView::Error(_) => KIND_ERROR,
        }
    }

    /// The length of this frame's payload, or for a structured frame the cap, which is
    /// all that is known of it before its JSON is written.
    pub open spec fn payload_bound(self) -> nat {
        match self {
            FrameView::BodyChunk(bytes) => bytes.len(),
            FrameView::BodyEnd => 0,
            _ => MAX_FRAME_LEN as nat,
        }
    }
}

/// Whether a buffer of `len` bytes can take a frame with this much payload, if such a
/// payload is framed at all.
pub open spec fn fits(len: nat, payload_len: nat) -> bool {
    payload_len <= MAX_FRAME_LEN ==> has_room(len, HEADER_LEN as nat + payload_len)
}

/// Whether frames of this kind carry JSON.
pub open spec fn is_structured(kind: u8) -> bool {
    ||| kind == KIND_HANDSHAKE_REQUEST
    ||| kind == KIND_HANDSHAKE_RESPONSE
    ||| kind == KIND_REQUEST_HEAD
    ||| kind == KIND_RESPONSE_HEAD
    ||| kind == KIND_ERROR
}

/// Whether a kind byte maps to a frame variant.
pub open spec fn is_known(kind: u8) -> bool {
    is_structured(kind) || kind == KIND_BODY_CHUNK || kind == KIND_BODY_END
}

/// A frame on the wire: kind byte, big-endian length, payload.
pub open spec fn wire(kind: u8, payload: Seq<u8>) -> Seq<u8> {
    seq![kind] + be32(payload.len() as u32) + payload
}

/// The payload length that a header declares.
pub open spec fn declared_len(bytes: Seq<u8>) -> int {
    bytes[1] * 0x100_0000 + bytes[2] * 0x1_0000 + bytes[3] * 0x100 + bytes[4]
}

/// What stands at the front of a sequence of bytes.
pub enum Front {
    /// Not yet a whole frame.
    Incomplete,
    /// A header that declares a payload longer than [`MAX_FRAME_LEN`].
    TooLarge(u32),
    /// A whole frame whose kind byte maps to no variant.
    Unknown(u8),
    /// A whole frame.
    Whole { kind: u8, payload: Seq<u8> },
}

/// Reads the front of `bytes`. The length is judged before the payload is there.
pub open spec fn front(bytes: Seq<u8>) -> Front {
    if bytes.len() < HEADER_LEN {
        Front::Incomplete
    } else if declared_len(bytes) > MAX_FRAME_LEN {
        Front::TooLarge(declared_len(bytes) as u32)
    } else if bytes.len() < HEADER_LEN + declared_len(bytes) {
        Front::Incomplete
    } else if !is_known(bytes[0]) {
        Front::Unknown(bytes[0])
    } else {
        Front::Whole {
            kind: bytes[0],
            payload: bytes.subrange(HEADER_LEN as int, HEADER_LEN + declared_len(bytes)),
        }
    }
}

/// Whether appending a frame of this kind and payload to a buffer that holds
/// `before` leaves `after` in it, with this result.
pub open spec fn appends(
    kind: u8,
    payload: Result<Seq<u8>, serde_json::Error>,
    before: Seq<u8>,
    after: Seq<u8>,
    result: Result<(), ProtoError>,
) -> bool {
    match payload {
        Err(source) => result == Err::<(), ProtoError>(ProtoError::Json(source)) && after == before,
        Ok(bytes) => if bytes.len() > MAX_FRAME_LEN {
            &&& result == Err::<(), ProtoError>(too_large(bytes.len()))
            &&& after == before
        } else {
            &&& result == Ok::<(), ProtoError>(())
            &&& after == before + wire(kind, bytes)
        },
    }
}

/// The error for a payload of `len` bytes. A length beyond `u32` is reported as the
/// largest that `u32` holds, so that what is reported always exceeds the cap.
pub open spec fn too_large(len: nat) -> ProtoError {
    ProtoError::FrameTooLarge {
        len: if len > u32::MAX {
            u32::MAX
        } else {
            len as u32
        },
        max: MAX_FRAME_LEN,
    }
}

/// Append a frame of this kind and payload to `dst`.
pub fn append_frame(kind: u8, payload: &[u8], dst: &mut BytesMut) -> (result: Result<
    (),
    ProtoError,
>)
    requires
        fits(buffered(*old(dst)).len(), payload@.len()),
    ensures
        appends(kind, Ok(payload@), buffered(*old(dst)), buffered(*final(dst)), result),
{
    let size: usize = payload.len();
    if size > MAX_FRAME_LEN as usize {
        let len: u32 = if size > u32::MAX as usize {
            u32::MAX
        } else {
            size as u32
        };
        return Err(ProtoError::FrameTooLarge { len, max: MAX_FRAME_LEN });
    }
    dst.reserve(HEADER_LEN + size);
    put_u8(dst, kind);
    put_u32(dst, size as u32);
    dst.put_slice(payload);
    assert(buffered(*dst) =~= buffered(*old(dst)) + wire(kind, payload@));
    Ok(())
}

/// Whether reading the payload of a frame of this kind as JSON can fail with `source`.
pub open spec fn read_fails<J: FrameJson>(
    json: J,
    kind: u8,
    payload: Seq<u8>,
    source: serde_json::Error,
) -> bool {
    if kind == KIND_HANDSHAKE_REQUEST {
        reads::<HandshakeRequest, J>(json, payload, Err(source))
    } else if kind == KIND_HANDSHAKE_RESPONSE {
        reads::<HandshakeResponse, J>(json, payload, Err(source))
    } else if kind == KIND_REQUEST_HEAD {
        reads::<RequestHead, J>(json, payload, Err(source))
    } else if kind == KIND_RESPONSE_HEAD {
        reads::<ResponseHead, J>(json, payload, Err(source))
    } else {
        kind == KIND_ERROR && reads::<TunnelError, J>(json, payload, Err(source))
    }
}

/// Whether decoding a buffer that holds `before` can leave `after` in it, with this
/// result. Bytes are consumed only when a frame is returned, and then exactly those
/// of this frame.
pub open spec fn decodes<J: FrameJson>(
    json: J,
    before: Seq<u8>,
    after: Seq<u8>,
    result: Result<Option<Frame>, ProtoError>,
) -> bool {
    match front(before) {
        Front::Incomplete => after == before && result == Ok::<Option<Frame>, ProtoError>(None),
        Front::TooLarge(len) => {
            &&& after == before
            &&& result == Err::<Option<Frame>, ProtoError>(
                ProtoError::FrameTooLarge { len, max: MAX_FRAME_LEN },
            )
        },
        Front::Unknown(kind) => {
            &&& after == before
            &&& result == Err::<Option<Frame>, ProtoError>(ProtoError::UnknownKind(kind))
        },
        Front::Whole { kind, payload } => match result {
            Ok(Some(frame)) => {
                &&& after == before.skip(HEADER_LEN + payload.len())
                &&& frame@.kind() == kind
                &&& frame.is_read(json, payload)
            },
            Err(ProtoError::Json(source)) => {
                &&& after == before
                &&& read_fails(json, kind, payload, source)
            },
            _ => false,
        },
    }
}

/// The payload length of the whole frame at the front of `src`, or `None` when it is
/// not whole yet.
pub fn peek(src: &[u8]) -> (result: Result<Option<usize>, ProtoError>)
    ensures
        match front(src@) {
            Front::Incomplete => result == Ok::<Option<usize>, ProtoError>(None),
            Front::TooLarge(len) => result == Err::<Option<usize>, ProtoError>(
                ProtoError::FrameTooLarge { len, max: MAX_FRAME_LEN },
            ),
            Front::Unknown(kind) => result == Err::<Option<usize>, ProtoError>(
                ProtoError::UnknownKind(kind),
            ),
            Front::Whole { payload, .. } => result matches Ok(Some(len)) && len == payload.len(),
        },
{
    if src.len() < HEADER_LEN {
        return Ok(None);
    }
    let len: u32 = (src[1] as u32) * 0x100_0000 + (src[2] as u32) * 0x1_0000 + (src[3] as u32)
        * 0x100 + (src[4] as u32);
    if len > MAX_FRAME_LEN {
        return Err(ProtoError::FrameTooLarge { len, max: MAX_FRAME_LEN });
    }
    let total: usize = HEADER_LEN + len as usize;
    if src.len() < total {
        return Ok(None);
    }
    match src[0] {
        KIND_HANDSHAKE_REQUEST
        | KIND_HANDSHAKE_RESPONSE
        | KIND_REQUEST_HEAD
        | KIND_RESPONSE_HEAD
        | KIND_BODY_CHUNK
        | KIND_BODY_END
        | KIND_ERROR => Ok(Some(len as usize)),
        other => Err(ProtoError::UnknownKind(other)),
    }
}

/// The payload that JSON makes of a value.
fn payload_of<T, J: Json<T>>(json: &J, value: &T) -> (result: Result<Bytes, ProtoError>)
    ensures
        match result {
            Ok(bytes) => writes(*json, *value, Ok(chunk(bytes))),
            Err(error) => error matches ProtoError::Json(source) && writes(
                *json,
                *value,
                Err(source),
            ),
        },
{
    let text = write_value(json, value);
    assert(writes(*json, *value, as_payload(text)));
    match text {
        Ok(text) => Ok(Bytes::from(text)),
        Err(source) => Err(ProtoError::from(source)),
    }
}

impl Frame {
    /// Whether `payload` can be the payload of this frame.
    pub open spec fn carries<J: FrameJson>(
        self,
        json: J,
        payload: Result<Seq<u8>, serde_json::Error>,
    ) -> bool {
        match self {
            Frame::HandshakeRequest(value) => writes(json, value, payload),
            Frame::HandshakeResponse(value) => writes(json, value, payload),
            Frame::RequestHead(value) => writes(json, value, payload),
            Frame::ResponseHead(value) => writes(json, value, payload),
            Frame::BodyChunk(bytes) => payload == Ok::<Seq<u8>, serde_json::Error>(chunk(bytes)),
            Frame::BodyEnd => payload == Ok::<Seq<u8>, serde_json::Error>(Seq::empty()),
            Frame::Error(value) => writes(json, value, payload),
        }
    }

    /// Whether a payload of this frame's kind can be read as this frame.
    pub open spec fn is_read<J: FrameJson>(self, json: J, payload: Seq<u8>) -> bool {
        match self {
            Frame::HandshakeRequest(value) => reads(json, payload, Ok(value)),
            Frame::HandshakeResponse(value) => reads(json, payload, Ok(value)),
            Frame::RequestHead(value) => reads(json, payload, Ok(value)),
            Frame::ResponseHead(value) => reads(json, payload, Ok(value)),
            Frame::BodyChunk(bytes) => chunk(bytes) == payload,
            Frame::BodyEnd => true,
            Frame::Error(value) => reads(json, payload, Ok(value)),
        }
    }

    /// Whether encoding this frame into a buffer that holds `before` can leave
    /// `after` in it, with this result.
    pub open spec fn encodes<J: FrameJson>(
        self,
        json: J,
        before: Seq<u8>,
        after: Seq<u8>,
        result: Result<(), ProtoError>,
    ) -> bool {
        exists|payload: Result<Seq<u8>, serde_json::Error>| #[trigger]
            self.carries(json, payload) && appends(self@.kind(), payload, before, after, result)
    }

    /// Whether encoding this frame to fresh bytes can give `result`.
    pub open spec fn encodes_to<J: FrameJson>(
        self,
        json: J,
        result: Result<Seq<u8>, ProtoError>,
    ) -> bool {
        match result {
            Ok(bytes) => self.encodes(json, Seq::empty(), bytes, Ok(())),
            Err(error) => self.encodes(json, Seq::empty(), Seq::empty(), Err(error)),
        }
    }

    /// The kind byte of this frame.
    pub fn kind(&self) -> (kind: u8)
        ensures
            kind == self@.kind(),
    {
        match self {
            Frame::HandshakeRequest(_) => KIND_HANDSHAKE_REQUEST,
            Frame::HandshakeResponse(_) => KIND_HANDSHAKE_RESPONSE,
            Frame::RequestHead(_) => KIND_REQUEST_HEAD,
            Frame::ResponseHead(_) => KIND_RESPONSE_HEAD,
            Frame::BodyChunk(_) => KIND_BODY_CHUNK,
            Frame::BodyEnd => KIND_BODY_END,
            Frame::Error(_) => KIND_ERROR,
        }
    }

    /// The payload of this frame.
    pub fn payload<J: FrameJson>(&self, json: &J) -> (result: Result<Bytes, ProtoError>)
        ensures
            match result {
                Ok(bytes) => self.carries(*json, Ok(chunk(bytes))),
                Err(error) => error matches ProtoError::Json(source) && self.carries(
                    *json,
                    Err(source),
                ),
            },
    {
        match self {
            Frame::HandshakeRequest(value) => payload_of(json, value),
            Frame::HandshakeResponse(value) => payload_of(json, value),
            Frame::RequestHead(value) => payload_of(json, value),
            Frame::ResponseHead(value) => payload_of(json, value),
            Frame::Error(value) => payload_of(json, value),
            Frame::BodyChunk(bytes) => Ok(bytes.clone()),
            Frame::BodyEnd => Ok(Bytes::new()),
        }
    }

    /// Append the encoded frame to `dst`.
    pub fn encode<J: FrameJson>(&self, json: &J, dst: &mut BytesMut) -> (result: Result<
        (),
        ProtoError,
    >)
        requires
            fits(buffered(*old(dst)).len(), self@.payload_bound()),
        ensures
            self.encodes(*json, buffered(*old(dst)), buffered(*final(dst)), result),
    {
        match self.payload(json) {
            Ok(payload) => append_frame(self.kind(), &payload, dst),
            Err(error) => Err(error),
        }
    }

    /// Convenience: encode a single frame to a fresh [`Bytes`].
    pub fn to_bytes<J: FrameJson>(&self, json: &J) -> (result: Result<Bytes, ProtoError>)
        ensures
            match result {
                Ok(bytes) => self.encodes_to(*json, Ok(chunk(bytes))),
                Err(error) => self.encodes_to(*json, Err(error)),
            },
    {
        let mut buffer = BytesMut::new();
        match self.encode(json, &mut buffer) {
            Ok(()) => Ok(buffer.freeze()),
            Err(error) => Err(error),
        }
    }

    /// Reads the payload of a structured frame of this kind.
    fn read_structured<J: FrameJson>(kind: u8, text: &[u8], json: &J) -> (result: Result<
        Frame,
        serde_json::Error,
    >)
        requires
            is_structured(kind),
        ensures
            match result {
                Ok(frame) => frame@.kind() == kind && frame.is_read(*json, text@),
                Err(source) => read_fails(*json, kind, text@, source),
            },
    {
        if kind == KIND_HANDSHAKE_REQUEST {
            match read_value(json, text) {
                Ok(value) => Ok(Frame::HandshakeRequest(value)),
                Err(source) => Err(source),
            }
        } else if kind == KIND_HANDSHAKE_RESPONSE {
            match read_value(json, text) {
                Ok(value) => Ok(Frame::HandshakeResponse(value)),
                Err(source) => Err(source),
            }
        } else if kind == KIND_REQUEST_HEAD {
            match read_value(json, text) {
                Ok(value) => Ok(Frame::RequestHead(value)),
                Err(source) => Err(source),
            }
        } else if kind == KIND_RESPONSE_HEAD {
            match read_value(json, text) {
                Ok(value) => Ok(Frame::ResponseHead(value)),
                Err(source) => Err(source),
            }
        } else {
            match read_value(json, text) {
                Ok(value) => Ok(Frame::Error(value)),
                Err(source) => Err(source),
            }
        }
    }

    /// Try to decode one frame from the front of `src`. Returns `Ok(None)` when `src`
    /// does not yet hold a complete frame (the caller should read more bytes and
    /// retry); consumes the frame's bytes from `src` only when a whole frame is
    /// returned.
    pub fn decode<J: FrameJson>(src: &mut BytesMut, json: &J) -> (result: Result<
        Option<Frame>,
        ProtoError,
    >)
        ensures
            decodes(*json, buffered(*old(src)), buffered(*final(src)), result),
            result matches Ok(Some(frame)) ==> frame@.kind() == buffered(*old(src))[0],
    {
        let ghost before = buffered(*src);
        let bytes: &[u8] = src;
        let len: usize = match peek(bytes) {
            Ok(Some(len)) => len,
            Ok(None) => return Ok(None),
            Err(error) => return Err(error),
        };
        let kind: u8 = bytes[0];
        if kind == KIND_BODY_CHUNK {
            src.advance(HEADER_LEN);
            let payload = src.split_to(len).freeze();
            assert(chunk(payload) =~= before.subrange(HEADER_LEN as int, HEADER_LEN + len));
            assert(buffered(*src) =~= before.skip(HEADER_LEN + len));
            return Ok(Some(Frame::BodyChunk(payload)));
        }
        if kind == KIND_BODY_END {
            src.advance(HEADER_LEN + len);
            return Ok(Some(Frame::BodyEnd));
        }
        let text: &[u8] = slice_subrange(bytes, HEADER_LEN, HEADER_LEN + len);
        match Self::read_structured(kind, text, json) {
            Ok(frame) => {
                src.advance(HEADER_LEN + len);
                Ok(Some(frame))
            },
            Err(source) => Err(ProtoError::from(source)),
        }
    }
}

} // verus!
