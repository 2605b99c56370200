//! What encoding is for: every frame whose payload keeps to the cap gets onto the wire.

use super::lemma_header;
use crate::buffer::{be32, buffered, chunk};
use crate::codec::FrameCodec;
use crate::error::ProtoError;
use crate::frame::{append_frame, appends, Frame};
use crate::json::{FrameJson, Json};
use bytes::{Bytes, BytesMut};
use vstd::prelude::*;

verus! {

/// Whether `bytes` are one frame: the kind byte, the payload's length as the number that
/// four bytes make with the most significant first, and the payload.
pub open spec fn is_one_frame(bytes: Seq<u8>, kind: u8, payload: Seq<u8>) -> bool {
    &&& bytes.len() == 5 + payload.len()
    &&& bytes[0] == kind
    &&& bytes[1] * 0x100_0000 + bytes[2] * 0x1_0000 + bytes[3] * 0x100 + bytes[4] == payload.len()
    &&& bytes.skip(5) == payload
}

/// Whether a payload of at most 16 MiB was put behind `before` as one frame, and a longer
/// one was refused by its length, or by the largest length that can be reported.
pub open spec fn framed_or_refused(
    kind: u8,
    payload: Seq<u8>,
    before: Seq<u8>,
    after: Seq<u8>,
    result: Result<(), ProtoError>,
) -> bool {
    if payload.len() <= 16 * 1024 * 1024 {
        &&& result is Ok
        &&& before.is_prefix_of(after)
        &&& is_one_frame(after.skip(before.len() as int), kind, payload)
    } else {
        &&& after == before
        &&& result matches Err(ProtoError::FrameTooLarge { len, max })
        &&& max == 16 * 1024 * 1024
        &&& len == payload.len() || (len == 0xffff_ffff && payload.len() > 0xffff_ffff)
    }
}

/// Whether what JSON wrote for `value` was framed under `kind`, or its failure returned.
pub open spec fn value_framed<T, J: Json<T>>(
    json: J,
    value: T,
    kind: u8,
    before: Seq<u8>,
    after: Seq<u8>,
    result: Result<(), ProtoError>,
) -> bool {
    exists|text: Result<Vec<u8>, serde_json::Error>| #[trigger]
        call_ensures(J::write, (&json, &value), text) && match text {
            Ok(text) => framed_or_refused(kind, text@, before, after, result),
            Err(source) => after == before && result == Err::<(), ProtoError>(
                ProtoError::Json(source),
            ),
        }
}

/// Whether a frame was put behind `before` under the kind byte of its variant.
pub open spec fn frame_framed<J: FrameJson>(
    json: J,
    frame: Frame,
    before: Seq<u8>,
    after: Seq<u8>,
    result: Result<(), ProtoError>,
) -> bool {
    match frame {
        Frame::RequestHead(value) => value_framed(json, value, 0x01, before, after, result),
        Frame::ResponseHead(value) => value_framed(json, value, 0x02, before, after, result),
        Frame::BodyChunk(bytes) => framed_or_refused(0x03, chunk(bytes), before, after, result),
        Frame::BodyEnd => framed_or_refused(0x04, Seq::empty(), before, after, result),
        Frame::Error(value) => value_framed(json, value, 0x05, before, after, result),
        Frame::HandshakeRequest(value) => value_framed(json, value, 0x10, before, after, result),
        Frame::HandshakeResponse(value) => value_framed(json, value, 0x11, before, after, result),
    }
}

proof fn lemma_framed(
    kind: u8,
    payload: Seq<u8>,
    before: Seq<u8>,
    after: Seq<u8>,
    result: Result<(), ProtoError>,
)
    requires
        appends(kind, Ok(payload), before, after, result),
    ensures
        framed_or_refused(kind, payload, before, after, result),
{
    if payload.len() <= 16 * 1024 * 1024 {
        let bytes = after.skip(before.len() as int);
        lemma_header(kind, payload.len() as u32, payload);
        assert(bytes =~= seq![kind] + be32(payload.len() as u32) + payload);
        assert(bytes.skip(5) =~= payload);
    }
}

proof fn lemma_frame_framed<J: FrameJson>(
    json: J,
    frame: Frame,
    before: Seq<u8>,
    after: Seq<u8>,
    result: Result<(), ProtoError>,
)
    requires
        frame.encodes(json, before, after, result),
    ensures
        frame_framed(json, frame, before, after, result),
{
    let payload = choose|payload: Result<Seq<u8>, serde_json::Error>| #[trigger]
        frame.carries(json, payload) && appends(
            frame@.kind(),
            payload,
            before,
            after,
            result,
        );
    if let Ok(bytes) = payload {
        lemma_framed(frame@.kind(), bytes, before, after, result);
    }
}

/// [`append_frame`] puts every payload of at most 16 MiB behind what the buffer holds, as
/// one frame of any kind, and refuses a longer one.
pub proof fn append_frame_frames_every_payload_up_to_the_cap(
    kind: u8,
    payload: &[u8],
    dst: &mut BytesMut,
    result: Result<(), ProtoError>,
)
    requires
        call_ensures(append_frame, (kind, payload, dst), result),
    ensures
        framed_or_refused(kind, payload@, buffered(*old(dst)), buffered(*final(dst)), result),
{
    lemma_framed(kind, payload@, buffered(*dst), buffered(*final(dst)), result);
}

/// [`Frame::encode`] succeeds on everything that it is meant to carry: a body, or what JSON
/// wrote, of at most 16 MiB stands as one frame behind what the buffer held. It fails only
/// with a failure of JSON, or on a longer payload, and then appends nothing.
pub proof fn encode_frames_every_payload_up_to_the_cap<J: FrameJson>(
    frame: Frame,
    json: J,
    dst: &mut BytesMut,
    result: Result<(), ProtoError>,
)
    requires
        call_ensures(Frame::encode::<J>, (&frame, &json, dst), result),
    ensures
        frame_framed(json, frame, buffered(*old(dst)), buffered(*final(dst)), result),
{
    lemma_frame_framed(json, frame, buffered(*dst), buffered(*final(dst)), result);
}

/// [`FrameCodec::encode`] does to a frame what [`Frame::encode`] is meant to do.
pub proof fn codec_frames_every_payload_up_to_the_cap<J: FrameJson>(
    codec: &mut FrameCodec,
    frame: Frame,
    json: J,
    dst: &mut BytesMut,
    result: Result<(), ProtoError>,
)
    requires
        call_ensures(FrameCodec::encode::<J>, (codec, frame, &json, dst), result),
    ensures
        frame_framed(json, frame, buffered(*old(dst)), buffered(*final(dst)), result),
{
    lemma_frame_framed(json, frame, buffered(*dst), buffered(*final(dst)), result);
}

/// [`Frame::to_bytes`] gives one frame for everything that it is meant to carry, and fails
/// only with a failure of JSON or on a payload of more than 16 MiB.
pub proof fn to_bytes_frames_every_payload_up_to_the_cap<J: FrameJson>(
    frame: Frame,
    json: J,
    result: Result<Bytes, ProtoError>,
)
    requires
        call_ensures(Frame::to_bytes::<J>, (&frame, &json), result),
    ensures
        match result {
            Ok(bytes) => frame_framed(json, frame, Seq::empty(), chunk(bytes), Ok(())),
            Err(error) => frame_framed(json, frame, Seq::empty(), Seq::empty(), Err(error)),
        },
        frame is BodyEnd ==> result is Ok,
        frame matches Frame::BodyChunk(bytes) ==> (result is Ok <==> chunk(bytes).len() <= 16 * 1024
            * 1024),
{
    match result {
        Ok(bytes) => lemma_frame_framed(json, frame, Seq::empty(), chunk(bytes), Ok(())),
        Err(error) => lemma_frame_framed(json, frame, Seq::empty(), Seq::empty(), Err(error)),
    }
}

/// A body always encodes, if it keeps to the cap: into any buffer, whatever JSON is.
pub proof fn bodies_always_encode<J: FrameJson>(
    frame: Frame,
    json: J,
    dst: &mut BytesMut,
    result: Result<(), ProtoError>,
)
    requires
        call_ensures(Frame::encode::<J>, (&frame, &json, dst), result),
        frame is BodyEnd || (frame matches Frame::BodyChunk(bytes) && chunk(bytes).len() <= 16
            * 1024 * 1024),
    ensures
        result is Ok,
{
    lemma_frame_framed(json, frame, buffered(*dst), buffered(*final(dst)), result);
}

/// Encoding may be asked for whenever the buffer is short of a quarter of the largest
/// allocation by as much as the frame takes: its header and its body, or for a structured
/// frame the header and the cap. A body beyond the cap may always be tried.
pub proof fn encode_can_be_called<J: FrameJson>(
    frame: Frame,
    json: J,
    dst: &mut BytesMut,
    codec: &mut FrameCodec,
)
    requires
        match frame {
            Frame::BodyChunk(bytes) => chunk(bytes).len() > 16 * 1024 * 1024 || 4 * (buffered(
                *old(dst),
            ).len() + 5 + chunk(bytes).len()) <= isize::MAX,
            Frame::BodyEnd => 4 * (buffered(*old(dst)).len() + 5) <= isize::MAX,
            _ => 4 * (buffered(*old(dst)).len() + 5 + 16 * 1024 * 1024) <= isize::MAX,
        },
    ensures
        call_requires(Frame::encode::<J>, (&frame, &json, dst)),
        call_requires(FrameCodec::encode::<J>, (codec, frame, &json, dst)),
{
}

/// A payload may be appended whenever the buffer is short of a quarter of the largest
/// allocation by as much as the frame takes, and one beyond the cap may always be tried.
pub proof fn append_frame_can_be_called(kind: u8, payload: &[u8], dst: &mut BytesMut)
    requires
        payload@.len() > 16 * 1024 * 1024 || 4 * (buffered(*old(dst)).len() + 5 + payload@.len())
            <= isize::MAX,
    ensures
        call_requires(append_frame, (kind, payload, dst)),
{
}

/// The kind byte, the payload and the fresh encoding of any frame may be asked for.
pub proof fn frames_can_always_be_asked<J: FrameJson>(frame: Frame, json: J)
    ensures
        call_requires(Frame::kind, (&frame,)),
        call_requires(Frame::payload::<J>, (&frame, &json)),
        call_requires(Frame::to_bytes::<J>, (&frame, &json)),
{
}

/// The kind byte of a frame is that of its variant, and of no other.
pub proof fn every_variant_has_its_kind_byte(frame: Frame, kind: u8)
    requires
        call_ensures(Frame::kind, (&frame,), kind),
    ensures
        frame is RequestHead <==> kind == 0x01,
        frame is ResponseHead <==> kind == 0x02,
        frame is BodyChunk <==> kind == 0x03,
        frame is BodyEnd <==> kind == 0x04,
        frame is Error <==> kind == 0x05,
        frame is HandshakeRequest <==> kind == 0x10,
        frame is HandshakeResponse <==> kind == 0x11,
{
}

/// Whether what JSON wrote for `value` is the payload, or its failure was returned.
pub open spec fn value_written<T, J: Json<T>>(
    json: J,
    value: T,
    result: Result<Bytes, ProtoError>,
) -> bool {
    exists|text: Result<Vec<u8>, serde_json::Error>| #[trigger]
        call_ensures(J::write, (&json, &value), text) && match text {
            Ok(text) => result matches Ok(bytes) && chunk(bytes) == text@,
            Err(source) => result == Err::<Bytes, ProtoError>(ProtoError::Json(source)),
        }
}

/// The payload of a body is its bytes, of whatever length, and that of any other frame is
/// what JSON writes for its value.
pub proof fn payload_is_the_body_or_what_json_wrote<J: FrameJson>(
    frame: Frame,
    json: J,
    result: Result<Bytes, ProtoError>,
)
    requires
        call_ensures(Frame::payload::<J>, (&frame, &json), result),
    ensures
        match frame {
            Frame::BodyChunk(body) => result matches Ok(bytes) && chunk(bytes) == chunk(body),
            Frame::BodyEnd => result matches Ok(bytes) && chunk(bytes).len() == 0,
            Frame::RequestHead(value) => value_written(json, value, result),
            Frame::ResponseHead(value) => value_written(json, value, result),
            Frame::Error(value) => value_written(json, value, result),
            Frame::HandshakeRequest(value) => value_written(json, value, result),
            Frame::HandshakeResponse(value) => value_written(json, value, result),
        },
{
}

} // verus!
