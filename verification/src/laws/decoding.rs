//! What decoding is for: every whole frame within the cap comes off the front.

use crate::buffer::{buffered, chunk};
use crate::codec::FrameCodec;
use crate::error::ProtoError;
use crate::frame::{decodes, peek, Frame};
use crate::json::{FrameJson, Json};
use bytes::BytesMut;
use vstd::prelude::*;

verus! {

/// The number that the four bytes behind the kind byte make, the most significant first.
pub open spec fn length_field(bytes: Seq<u8>) -> int {
    bytes[1] * 0x100_0000 + bytes[2] * 0x1_0000 + bytes[3] * 0x100 + bytes[4]
}

/// Whether a byte is the kind byte of some variant.
pub open spec fn names_a_variant(kind: u8) -> bool {
    0x01 <= kind <= 0x05 || kind == 0x10 || kind == 0x11
}

/// Whether JSON read the value from exactly these bytes.
pub open spec fn value_read<T, J: Json<T>>(
    json: J,
    payload: Seq<u8>,
    value: Result<T, serde_json::Error>,
) -> bool {
    exists|text: &[u8]| text@ == payload && #[trigger] call_ensures(J::read, (&json, text), value)
}

/// Whether a frame of this kind was made of exactly these bytes.
pub open spec fn frame_made_of<J: FrameJson>(
    json: J,
    kind: u8,
    payload: Seq<u8>,
    frame: Frame,
) -> bool {
    match frame {
        Frame::RequestHead(value) => kind == 0x01 && value_read(json, payload, Ok(value)),
        Frame::ResponseHead(value) => kind == 0x02 && value_read(json, payload, Ok(value)),
        Frame::BodyChunk(bytes) => kind == 0x03 && chunk(bytes) == payload,
        Frame::BodyEnd => kind == 0x04,
        Frame::Error(value) => kind == 0x05 && value_read(json, payload, Ok(value)),
        Frame::HandshakeRequest(value) => kind == 0x10 && value_read(json, payload, Ok(value)),
        Frame::HandshakeResponse(value) => kind == 0x11 && value_read(json, payload, Ok(value)),
    }
}

/// Whether JSON failed on exactly these bytes, as a value of this kind.
pub open spec fn json_failed_on<J: FrameJson>(
    json: J,
    kind: u8,
    payload: Seq<u8>,
    source: serde_json::Error,
) -> bool {
    ||| kind == 0x01 && value_read::<crate::http::RequestHead, J>(json, payload, Err(source))
    ||| kind == 0x02 && value_read::<crate::http::ResponseHead, J>(json, payload, Err(source))
    ||| kind == 0x05 && value_read::<crate::frame::TunnelError, J>(json, payload, Err(source))
    ||| kind == 0x10 && value_read::<crate::handshake::HandshakeRequest, J>(
        json,
        payload,
        Err(source),
    )
    ||| kind == 0x11 && value_read::<crate::handshake::HandshakeResponse, J>(
        json,
        payload,
        Err(source),
    )
}

/// Whether decoding took the frame at the front of `before`, or what stood there said why
/// it could not.
pub open spec fn front_taken<J: FrameJson>(
    json: J,
    before: Seq<u8>,
    after: Seq<u8>,
    result: Result<Option<Frame>, ProtoError>,
) -> bool {
    let whole = 5 + length_field(before);
    let payload = before.subrange(5, whole);
    match result {
        Ok(Some(frame)) => {
            &&& 5 <= whole <= before.len()
            &&& length_field(before) <= 16 * 1024 * 1024
            &&& frame_made_of(json, before[0], payload, frame)
            &&& after == before.skip(whole)
        },
        Ok(None) => {
            &&& before.len() < 5 || (length_field(before) <= 16 * 1024 * 1024 && before.len()
                < whole)
            &&& after == before
        },
        Err(ProtoError::FrameTooLarge { len, max }) => {
            &&& before.len() >= 5
            &&& length_field(before) > 16 * 1024 * 1024
            &&& len == length_field(before)
            &&& max == 16 * 1024 * 1024
            &&& after == before
        },
        Err(ProtoError::UnknownKind(kind)) => {
            &&& 5 <= whole <= before.len()
            &&& length_field(before) <= 16 * 1024 * 1024
            &&& kind == before[0]
            &&& !names_a_variant(kind)
            &&& after == before
        },
        Err(ProtoError::Json(source)) => {
            &&& 5 <= whole <= before.len()
            &&& length_field(before) <= 16 * 1024 * 1024
            &&& json_failed_on(json, before[0], payload, source)
            &&& after == before
        },
        _ => false,
    }
}

proof fn lemma_front_taken<J: FrameJson>(
    json: J,
    before: Seq<u8>,
    after: Seq<u8>,
    result: Result<Option<Frame>, ProtoError>,
)
    requires
        decodes(json, before, after, result),
    ensures
        front_taken(json, before, after, result),
{
}

/// [`Frame::decode`] takes off every whole frame of at most 16 MiB: under the variant that
/// its kind byte names, with exactly its payload, leaving exactly what follows. It waits
/// only for bytes that are missing, and fails only on a longer length, on a kind byte that
/// names no variant, or with a failure of JSON; then nothing is taken.
pub proof fn decode_takes_every_whole_frame<J: FrameJson>(
    src: &mut BytesMut,
    json: J,
    result: Result<Option<Frame>, ProtoError>,
)
    requires
        call_ensures(Frame::decode::<J>, (src, &json), result),
    ensures
        front_taken(json, buffered(*old(src)), buffered(*final(src)), result),
{
    lemma_front_taken(json, buffered(*src), buffered(*final(src)), result);
}

/// [`FrameCodec::decode`] does to a buffer what [`Frame::decode`] is meant to do.
pub proof fn codec_takes_every_whole_frame<J: FrameJson>(
    codec: &mut FrameCodec,
    src: &mut BytesMut,
    json: J,
    result: Result<Option<Frame>, ProtoError>,
)
    requires
        call_ensures(FrameCodec::decode::<J>, (codec, src, &json), result),
    ensures
        front_taken(json, buffered(*old(src)), buffered(*final(src)), result),
{
    lemma_front_taken(json, buffered(*src), buffered(*final(src)), result);
}

/// A whole body chunk or body end within the cap always comes off, whatever JSON is and
/// whatever follows it.
pub proof fn bodies_always_decode<J: FrameJson>(
    src: &mut BytesMut,
    json: J,
    result: Result<Option<Frame>, ProtoError>,
)
    requires
        call_ensures(Frame::decode::<J>, (src, &json), result),
        buffered(*old(src)).len() >= 5,
        length_field(buffered(*old(src))) <= 16 * 1024 * 1024,
        buffered(*old(src)).len() >= 5 + length_field(buffered(*old(src))),
        buffered(*old(src))[0] == 0x03 || buffered(*old(src))[0] == 0x04,
    ensures
        result matches Ok(Some(_)),
{
    lemma_front_taken(json, buffered(*src), buffered(*final(src)), result);
}

/// Decoding may be tried on any buffer, and a header read from any bytes.
pub proof fn decode_can_be_called<J: FrameJson>(
    codec: &mut FrameCodec,
    src: &mut BytesMut,
    json: J,
    bytes: &[u8],
)
    ensures
        call_requires(Frame::decode::<J>, (src, &json)),
        call_requires(FrameCodec::decode::<J>, (codec, src, &json)),
        call_requires(peek, (bytes,)),
{
}

/// [`peek`] tells the payload length of every whole frame of a known kind within the cap,
/// and otherwise what decoding would say.
pub proof fn peek_reads_the_header(src: &[u8], result: Result<Option<usize>, ProtoError>)
    requires
        call_ensures(peek, (src,), result),
    ensures
        match result {
            Ok(Some(len)) => {
                &&& src@.len() >= 5 + len
                &&& len == length_field(src@)
                &&& len <= 16 * 1024 * 1024
                &&& names_a_variant(src@[0])
            },
            Ok(None) => {
                ||| src@.len() < 5
                ||| length_field(src@) <= 16 * 1024 * 1024 && src@.len() < 5 + length_field(src@)
            },
            Err(ProtoError::FrameTooLarge { len, max }) => {
                &&& src@.len() >= 5
                &&& len == length_field(src@)
                &&& len > 16 * 1024 * 1024
                &&& max == 16 * 1024 * 1024
            },
            Err(ProtoError::UnknownKind(kind)) => {
                &&& src@.len() >= 5 + length_field(src@)
                &&& length_field(src@) <= 16 * 1024 * 1024
                &&& kind == src@[0]
                &&& !names_a_variant(kind)
            },
            _ => false,
        },
{
}

} // verus!
