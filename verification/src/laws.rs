//! What the protocol promises.
//!
//! The modules below say of each operation what it comes to, over what it is given and what
//! it gives back. What stands here relates several calls.

pub mod agreement;
pub mod decoding;
pub mod driving;
pub mod encoding;
pub mod handshakes;
pub mod wording;

use crate::buffer::be32;
use crate::driver::{Action, DriverView, Event, Phase, Progress};
use crate::error::{ProtoError, ProtoErrorView};
use crate::frame::{
    appends, declared_len, decodes, front, is_known, is_structured, read_fails, wire, Frame,
    FrameView, Front, HEADER_LEN, MAX_FRAME_LEN,
};
use crate::handshake::{compatible, major, HandshakeRequest, HandshakeResponse};
use crate::json::{
    distinct_texts_frames, lossless_frames, one_text_frames, one_value_frames, FrameJson,
};
use crate::session::{
    concludes, refuses, AgentAction, AgentEvent, AgentHandshake, RelayAction, RelayEvent,
    RelayHandshake, REJECTED_CODE,
};
use vstd::prelude::*;

verus! {

/// A length survives being written in four bytes and read back.
proof fn lemma_be32(n: u32)
    ensures
        be32(n).len() == 4,
        be32(n)[0] * 0x100_0000 + be32(n)[1] * 0x1_0000 + be32(n)[2] * 0x100 + be32(n)[3] == n,
{
    assert(n / 0x100_0000 < 0x100) by (nonlinear_arith);
    assert((n / 0x100_0000) * 0x100_0000 + (n / 0x1_0000 % 0x100) * 0x1_0000 + (n / 0x100 % 0x100)
        * 0x100 + n % 0x100 == n) by (nonlinear_arith);
}

/// A header declares the length that was written in it.
proof fn lemma_header(kind: u8, len: u32, rest: Seq<u8>)
    ensures
        ({
            let bytes = seq![kind] + be32(len) + rest;
            &&& bytes.len() == HEADER_LEN + rest.len()
            &&& bytes[0] == kind
            &&& declared_len(bytes) == len
        }),
{
    let bytes = seq![kind] + be32(len) + rest;
    lemma_be32(len);
    assert(bytes[1] == be32(len)[0]);
    assert(bytes[2] == be32(len)[1]);
    assert(bytes[3] == be32(len)[2]);
    assert(bytes[4] == be32(len)[3]);
}

/// What is written as a frame is read back as that frame, whatever follows it, and
/// what follows is left.
pub proof fn wire_is_read_back(kind: u8, payload: Seq<u8>, rest: Seq<u8>)
    requires
        is_known(kind),
        payload.len() <= MAX_FRAME_LEN,
    ensures
        front(wire(kind, payload) + rest) == (Front::Whole { kind, payload }),
        (wire(kind, payload) + rest).skip(HEADER_LEN + payload.len()) == rest,
{
    let bytes = wire(kind, payload) + rest;
    lemma_header(kind, payload.len() as u32, payload + rest);
    assert(bytes =~= seq![kind] + be32(payload.len() as u32) + (payload + rest));
    assert(bytes.subrange(HEADER_LEN as int, HEADER_LEN + payload.len()) =~= payload);
    assert(bytes.skip(HEADER_LEN + payload.len()) =~= rest);
}

/// A frame that has not arrived in full is never decoded, refused or consumed.
pub proof fn partial_frame_is_incomplete(kind: u8, payload: Seq<u8>, arrived: int)
    requires
        payload.len() <= MAX_FRAME_LEN,
        0 <= arrived < wire(kind, payload).len(),
    ensures
        front(wire(kind, payload).take(arrived)) == Front::Incomplete,
{
    let bytes = wire(kind, payload).take(arrived);
    if arrived >= HEADER_LEN {
        let part = payload.take(arrived - HEADER_LEN);
        lemma_header(kind, payload.len() as u32, part);
        assert(bytes =~= seq![kind] + be32(payload.len() as u32) + part);
    }
}

/// What a buffer's front is does not change as more bytes arrive behind it.
pub proof fn front_is_stable(bytes: Seq<u8>, more: Seq<u8>)
    requires
        front(bytes) !is Incomplete,
    ensures
        front(bytes + more) == front(bytes),
{
    if let Front::Whole { kind, payload } = front(bytes) {
        assert((bytes + more).subrange(HEADER_LEN as int, HEADER_LEN + payload.len()) =~= payload);
    }
}

/// A frame that is read is exactly what would be written for its kind and payload,
/// so no two byte strings are the same frame.
pub proof fn frame_read_is_its_wire(bytes: Seq<u8>)
    requires
        front(bytes) is Whole,
    ensures
        ({
            let kind = front(bytes)->kind;
            let payload = front(bytes)->payload;
            &&& payload.len() <= MAX_FRAME_LEN
            &&& bytes.take(HEADER_LEN + payload.len()) == wire(kind, payload)
        }),
{
    let payload = front(bytes)->payload;
    let len = declared_len(bytes) as u32;
    assert(payload.len() == len);
    lemma_be32(len);
    lemma_base_digits(
        bytes[1] as int,
        bytes[2] as int,
        bytes[3] as int,
        bytes[4] as int,
        be32(len)[0] as int,
        be32(len)[1] as int,
        be32(len)[2] as int,
        be32(len)[3] as int,
    );
    assert(bytes.take(HEADER_LEN + payload.len()) =~= wire(bytes[0], payload));
}

/// Four digits to the base 256 are determined by their value.
proof fn lemma_base_digits(
    a3: int,
    a2: int,
    a1: int,
    a0: int,
    b3: int,
    b2: int,
    b1: int,
    b0: int,
)
    requires
        0 <= a3 < 256 && 0 <= a2 < 256 && 0 <= a1 < 256 && 0 <= a0 < 256,
        0 <= b3 < 256 && 0 <= b2 < 256 && 0 <= b1 < 256 && 0 <= b0 < 256,
        a3 * 0x100_0000 + a2 * 0x1_0000 + a1 * 0x100 + a0 == b3 * 0x100_0000 + b2 * 0x1_0000 + b1
            * 0x100 + b0,
    ensures
        a3 == b3 && a2 == b2 && a1 == b1 && a0 == b0,
{
}

/// No frame is the beginning of another: what stands at the front of the wire tells
/// where it ends.
pub proof fn wire_is_unambiguous(
    kind: u8,
    payload: Seq<u8>,
    rest: Seq<u8>,
    other_kind: u8,
    other_payload: Seq<u8>,
    other_rest: Seq<u8>,
)
    requires
        is_known(kind),
        is_known(other_kind),
        payload.len() <= MAX_FRAME_LEN,
        other_payload.len() <= MAX_FRAME_LEN,
        wire(kind, payload) + rest == wire(other_kind, other_payload) + other_rest,
    ensures
        kind == other_kind,
        payload == other_payload,
        rest == other_rest,
{
    wire_is_read_back(kind, payload, rest);
    wire_is_read_back(other_kind, other_payload, other_rest);
}

/// A header that declares more than the cap is refused as soon as it is there,
/// whatever kind it names and whatever follows.
pub proof fn oversized_header_is_refused(kind: u8, len: u32, rest: Seq<u8>)
    requires
        len > MAX_FRAME_LEN,
    ensures
        front(seq![kind] + be32(len) + rest) == Front::TooLarge(len),
{
    lemma_header(kind, len, rest);
}

/// Decoding consumes the bytes of one frame, no more than the cap allows, when it
/// returns a frame, and no byte when it does not.
pub proof fn decode_consumes_one_frame_or_nothing<J: FrameJson>(
    json: J,
    before: Seq<u8>,
    after: Seq<u8>,
    result: Result<Option<Frame>, ProtoError>,
)
    requires
        decodes(json, before, after, result),
    ensures
        match result {
            Ok(Some(_)) => {
                &&& HEADER_LEN <= before.len() - after.len() <= HEADER_LEN + MAX_FRAME_LEN
                &&& after == before.skip(before.len() - after.len())
            },
            _ => after == before,
        },
{
}

/// Encoding leaves what the buffer held in place, and puts no payload beyond the cap
/// behind it.
pub proof fn encode_only_appends<J: FrameJson>(
    frame: Frame,
    json: J,
    before: Seq<u8>,
    after: Seq<u8>,
    result: Result<(), ProtoError>,
)
    requires
        frame.encodes(json, before, after, result),
    ensures
        before.is_prefix_of(after),
        after.len() <= before.len() + HEADER_LEN + MAX_FRAME_LEN,
        result is Err ==> after == before,
{
    let payload = choose|payload: Result<Seq<u8>, serde_json::Error>| #[trigger]
        frame.carries(json, payload) && appends(frame@.kind(), payload, before, after, result);
}

/// A frame that is refused for its size, on the way out or on the way in, is refused
/// with a length that exceeds the cap.
pub proof fn refused_length_exceeds_the_cap<J: FrameJson>(
    frame: Frame,
    json: J,
    before: Seq<u8>,
    after: Seq<u8>,
    len: u32,
    max: u32,
)
    requires
        ({
            ||| frame.encodes(json, before, after, Err(ProtoError::FrameTooLarge { len, max }))
            ||| decodes(json, before, after, Err(ProtoError::FrameTooLarge { len, max }))
        }),
    ensures
        max == MAX_FRAME_LEN,
        len > max,
{
}

/// A frame that was encoded is decoded as it was, whatever follows it in the buffer,
/// and what follows is left. A structured frame needs JSON that is read back as it
/// was written.
pub proof fn decode_undoes_encode<J: FrameJson>(
    frame: Frame,
    json: J,
    before: Seq<u8>,
    encoded: Seq<u8>,
    rest: Seq<u8>,
    after: Seq<u8>,
    result: Result<Option<Frame>, ProtoError>,
)
    requires
        is_structured(frame@.kind()) ==> lossless_frames(json),
        frame.encodes(json, before, encoded, Ok(())),
        decodes(json, encoded.skip(before.len() as int) + rest, after, result),
    ensures
        result matches Ok(Some(back)) && back@ == frame@,
        after == rest,
{
    let kind = frame@.kind();
    let payload = choose|payload: Result<Seq<u8>, serde_json::Error>| #[trigger]
        frame.carries(json, payload) && appends(kind, payload, before, encoded, Ok(()));
    let bytes = payload->Ok_0;
    assert(encoded.skip(before.len() as int) =~= wire(kind, bytes));
    wire_is_read_back(kind, bytes, rest);
    assert(frame.carries(json, Ok(bytes)));
    if let Ok(Some(back)) = result {
        kind_tells_the_variant(back@, frame@);
    }
}

/// What [`Frame::to_bytes`] gives is decoded as the frame that it was made of,
/// whatever follows it, and what follows is left. A structured frame needs JSON that is
/// read back as it was written.
pub proof fn decode_undoes_to_bytes<J: FrameJson>(
    frame: Frame,
    json: J,
    bytes: Seq<u8>,
    rest: Seq<u8>,
    after: Seq<u8>,
    result: Result<Option<Frame>, ProtoError>,
)
    requires
        is_structured(frame@.kind()) ==> lossless_frames(json),
        frame.encodes_to(json, Ok(bytes)),
        decodes(json, bytes + rest, after, result),
    ensures
        result matches Ok(Some(back)) && back@ == frame@,
        after == rest,
{
    assert(bytes.skip(0) =~= bytes);
    decode_undoes_encode(frame, json, Seq::empty(), bytes, rest, after, result);
}

/// What [`Frame::encode`] appends does not depend on what the buffer held: it is what
/// [`Frame::to_bytes`] gives, and one fails as the other does. A structured frame needs
/// JSON that is always written in the same way.
pub proof fn to_bytes_is_what_encode_appends<J: FrameJson>(
    frame: Frame,
    json: J,
    fresh: Result<Seq<u8>, ProtoError>,
    before: Seq<u8>,
    after: Seq<u8>,
    result: Result<(), ProtoError>,
)
    requires
        is_structured(frame@.kind()) ==> one_text_frames(json),
        frame.encodes_to(json, fresh),
        frame.encodes(json, before, after, result),
    ensures
        match fresh {
            Ok(bytes) => {
                &&& result is Ok
                &&& after == before + bytes
                &&& bytes.len() >= HEADER_LEN
            },
            Err(error) => result == Err::<(), ProtoError>(error),
        },
{
    let kind = frame@.kind();
    let payload = choose|payload: Result<Seq<u8>, serde_json::Error>| #[trigger]
        frame.carries(json, payload) && appends(kind, payload, before, after, result);
    let nothing = Seq::<u8>::empty();
    match fresh {
        Ok(bytes) => {
            let other = choose|other: Result<Seq<u8>, serde_json::Error>| #[trigger]
                frame.carries(json, other) && appends(kind, other, nothing, bytes, Ok(()));
            assert(payload == other);
            assert(nothing + wire(kind, other->Ok_0) =~= wire(kind, other->Ok_0));
        },
        Err(error) => {
            let other = choose|other: Result<Seq<u8>, serde_json::Error>| #[trigger]
                frame.carries(json, other) && appends(kind, other, nothing, nothing, Err(error));
            assert(payload == other);
        },
    }
}

/// The encodings of two different frames differ, and neither begins the other, so a
/// sequence of frames can be read in one way only. Two structured frames of one kind
/// need JSON in which different values have different texts.
pub proof fn different_frames_have_different_encodings<J: FrameJson>(
    one: Frame,
    other: Frame,
    json: J,
    bytes: Seq<u8>,
    other_bytes: Seq<u8>,
)
    requires
        is_structured(one@.kind()) && one@.kind() == other@.kind() ==> distinct_texts_frames(json),
        one@ != other@,
        one.encodes_to(json, Ok(bytes)),
        other.encodes_to(json, Ok(other_bytes)),
    ensures
        bytes != other_bytes,
        !bytes.is_prefix_of(other_bytes),
        !other_bytes.is_prefix_of(bytes),
{
    let nothing = Seq::<u8>::empty();
    let payload = choose|payload: Result<Seq<u8>, serde_json::Error>| #[trigger]
        one.carries(json, payload) && appends(one@.kind(), payload, nothing, bytes, Ok(()));
    let other_payload = choose|payload: Result<Seq<u8>, serde_json::Error>| #[trigger]
        other.carries(json, payload) && appends(
            other@.kind(),
            payload,
            nothing,
            other_bytes,
            Ok(()),
        );
    let p = payload->Ok_0;
    let q = other_payload->Ok_0;
    assert(bytes =~= wire(one@.kind(), p));
    assert(other_bytes =~= wire(other@.kind(), q));
    assert(one.carries(json, Ok(p)) && other.carries(json, Ok(q)));
    kind_tells_the_variant(one@, other@);
    if bytes.is_prefix_of(other_bytes) {
        let rest = other_bytes.skip(bytes.len() as int);
        assert(bytes + rest =~= other_bytes + nothing);
        wire_is_unambiguous(one@.kind(), p, rest, other@.kind(), q, nothing);
    }
    if other_bytes.is_prefix_of(bytes) {
        let rest = bytes.skip(other_bytes.len() as int);
        assert(other_bytes + rest =~= bytes + nothing);
        wire_is_unambiguous(other@.kind(), q, rest, one@.kind(), p, nothing);
    }
    assert(bytes == other_bytes ==> bytes.is_prefix_of(other_bytes));
}

/// Whether two decodings came to the same: frames with the same contents, or no frame,
/// or the same error.
pub open spec fn same_outcome(
    one: Result<Option<Frame>, ProtoError>,
    other: Result<Option<Frame>, ProtoError>,
) -> bool {
    match (one, other) {
        (Ok(Some(frame)), Ok(Some(back))) => frame@ == back@,
        (Ok(None), Ok(None)) => true,
        (Err(error), Err(again)) => error == again,
        _ => false,
    }
}

/// Later bytes do not change a decision that was made: once decoding has given a frame
/// or an error, it gives the same with more bytes behind, which it leaves in place.
/// Only `Ok(None)` may change. What depends on JSON needs JSON that is always read in
/// the same way.
pub proof fn later_bytes_change_no_decision<J: FrameJson>(
    json: J,
    bytes: Seq<u8>,
    left: Seq<u8>,
    result: Result<Option<Frame>, ProtoError>,
    more: Seq<u8>,
    left_later: Seq<u8>,
    later: Result<Option<Frame>, ProtoError>,
)
    requires
        front(bytes) is Whole && is_structured(bytes[0]) ==> one_value_frames(json),
        decodes(json, bytes, left, result),
        decodes(json, bytes + more, left_later, later),
        result != Ok::<Option<Frame>, ProtoError>(None),
    ensures
        same_outcome(result, later),
        left_later == left + more,
{
    front_is_stable(bytes, more);
    if let Front::Whole { kind, payload } = front(bytes) {
        let end = HEADER_LEN + payload.len();
        assert((bytes + more).skip(end) =~= bytes.skip(end) + more);
        lemma_one_reading(json, kind, payload, result, later);
    }
}

/// Decoding depends on nothing but the bytes in the buffer: [`FrameCodec::decode`] and
/// [`Frame::decode`], on buffers with equal contents and whatever was decoded before,
/// come to the same and leave the same. What depends on JSON needs JSON that is always
/// read in the same way.
///
/// [`FrameCodec::decode`]: crate::codec::FrameCodec::decode
pub proof fn decoding_depends_only_on_the_buffer<J: FrameJson>(
    json: J,
    bytes: Seq<u8>,
    left: Seq<u8>,
    result: Result<Option<Frame>, ProtoError>,
    left_again: Seq<u8>,
    again: Result<Option<Frame>, ProtoError>,
)
    requires
        front(bytes) is Whole && is_structured(bytes[0]) ==> one_value_frames(json),
        decodes(json, bytes, left, result),
        decodes(json, bytes, left_again, again),
    ensures
        same_outcome(result, again),
        left == left_again,
{
    if let Front::Whole { kind, payload } = front(bytes) {
        lemma_one_reading(json, kind, payload, result, again);
    }
}

/// Whether reading a whole frame of this kind and payload can come to `result`.
spec fn comes_to<J: FrameJson>(
    json: J,
    kind: u8,
    payload: Seq<u8>,
    result: Result<Option<Frame>, ProtoError>,
) -> bool {
    match result {
        Ok(Some(frame)) => frame@.kind() == kind && frame.is_read(json, payload),
        Err(ProtoError::Json(source)) => read_fails(json, kind, payload, source),
        _ => false,
    }
}

/// With JSON that is always read in the same way, a whole frame is too.
proof fn lemma_one_reading<J: FrameJson>(
    json: J,
    kind: u8,
    payload: Seq<u8>,
    one: Result<Option<Frame>, ProtoError>,
    other: Result<Option<Frame>, ProtoError>,
)
    requires
        is_structured(kind) ==> one_value_frames(json),
        comes_to(json, kind, payload, one),
        comes_to(json, kind, payload, other),
    ensures
        same_outcome(one, other),
        one is Ok <==> other is Ok,
{
    match (one, other) {
        (Ok(Some(frame)), Ok(Some(back))) => {
            kind_tells_the_variant(frame@, back@);
        },
        _ => {},
    }
}

/// Every frame has a known kind, and two frames of one kind are of one variant.
pub proof fn kind_tells_the_variant(one: FrameView, other: FrameView)
    ensures
        is_known(one.kind()),
        one.kind() == other.kind() ==> {
            ||| one is HandshakeRequest && other is HandshakeRequest
            ||| one is HandshakeResponse && other is HandshakeResponse
            ||| one is RequestHead && other is RequestHead
            ||| one is ResponseHead && other is ResponseHead
            ||| one is BodyChunk && other is BodyChunk
            ||| one is BodyEnd && other is BodyEnd
            ||| one is Error && other is Error
        },
{
}

/// A decoded frame is of the variant that the kind byte of its header names.
pub proof fn decoded_frame_has_the_kind_of_its_header<J: FrameJson>(
    json: J,
    before: Seq<u8>,
    after: Seq<u8>,
    frame: Frame,
)
    requires
        decodes(json, before, after, Ok(Some(frame))),
    ensures
        before[0] == frame@.kind(),
{
}

/// The kinds and payloads of the frames that decoding until no frame comes gives.
pub open spec fn frames_in(bytes: Seq<u8>) -> Seq<(u8, Seq<u8>)>
    decreases bytes.len(),
{
    match front(bytes) {
        Front::Whole { kind, payload } => seq![(kind, payload)] + frames_in(
            bytes.skip(HEADER_LEN + payload.len()),
        ),
        _ => Seq::empty(),
    }
}

/// What decoding until no frame comes leaves.
pub open spec fn left_in(bytes: Seq<u8>) -> Seq<u8>
    decreases bytes.len(),
{
    match front(bytes) {
        Front::Whole { payload, .. } => left_in(bytes.skip(HEADER_LEN + payload.len())),
        _ => bytes,
    }
}

/// Frames back to back on the wire.
pub open spec fn wires(frames: Seq<(u8, Seq<u8>)>) -> Seq<u8>
    decreases frames.len(),
{
    if frames.len() == 0 {
        Seq::empty()
    } else {
        wire(frames[0].0, frames[0].1) + wires(frames.skip(1))
    }
}

/// Frames that were written back to back are decoded one at a time, in order, and
/// what follows them is decoded as if they had not been there.
pub proof fn frames_arrive_in_order(frames: Seq<(u8, Seq<u8>)>, tail: Seq<u8>)
    requires
        forall|i: int|
            0 <= i < frames.len() ==> is_known((#[trigger] frames[i]).0) && frames[i].1.len()
                <= MAX_FRAME_LEN,
    ensures
        frames_in(wires(frames) + tail) == frames + frames_in(tail),
        left_in(wires(frames) + tail) == left_in(tail),
    decreases frames.len(),
{
    if frames.len() == 0 {
        assert(wires(frames) + tail =~= tail);
        assert(frames + frames_in(tail) =~= frames_in(tail));
    } else {
        let (kind, payload) = frames[0];
        let rest = wires(frames.skip(1)) + tail;
        assert(wires(frames) + tail =~= wire(kind, payload) + rest);
        wire_is_read_back(kind, payload, rest);
        frames_arrive_in_order(frames.skip(1), tail);
        assert(seq![frames[0]] + (frames.skip(1) + frames_in(tail)) =~= frames + frames_in(tail));
    }
}

/// It does not matter in which pieces the bytes of a stream arrive: decoding after
/// each piece gives the frames, and leaves the bytes, that decoding at the end does.
pub proof fn arrival_in_pieces_is_immaterial(first: Seq<u8>, second: Seq<u8>)
    ensures
        frames_in(first + second) == frames_in(first) + frames_in(left_in(first) + second),
        left_in(first + second) == left_in(left_in(first) + second),
    decreases first.len(),
{
    match front(first) {
        Front::Whole { kind, payload } => {
            let rest = first.skip(HEADER_LEN + payload.len());
            front_is_stable(first, second);
            assert((first + second).skip(HEADER_LEN + payload.len()) =~= rest + second);
            arrival_in_pieces_is_immaterial(rest, second);
            assert(seq![(kind, payload)] + (frames_in(rest) + frames_in(left_in(rest) + second))
                =~= frames_in(first) + frames_in(left_in(first) + second));
        },
        _ => {
            assert(Seq::<(u8, Seq<u8>)>::empty() + frames_in(first + second) =~= frames_in(
                first + second,
            ));
        },
    }
}

/// No byte is lost or made up: the frames that were decoded and the bytes that are
/// left are what arrived.
pub proof fn no_byte_is_lost(bytes: Seq<u8>)
    ensures
        bytes == wires(frames_in(bytes)) + left_in(bytes),
    decreases bytes.len(),
{
    match front(bytes) {
        Front::Whole { kind, payload } => {
            let rest = bytes.skip(HEADER_LEN + payload.len());
            frame_read_is_its_wire(bytes);
            no_byte_is_lost(rest);
            assert(frames_in(bytes).skip(1) =~= frames_in(rest));
            assert(bytes =~= wire(kind, payload) + rest);
            assert(bytes =~= wires(frames_in(bytes)) + left_in(bytes));
        },
        _ => {
            assert(bytes =~= wires(frames_in(bytes)) + left_in(bytes));
        },
    }
}

/// Each successful decode gives the first of the frames that the buffer holds and leaves
/// the others, and `Ok(None)` says that it holds none.
pub proof fn decode_takes_the_first_frame<J: FrameJson>(
    json: J,
    before: Seq<u8>,
    after: Seq<u8>,
    result: Result<Option<Frame>, ProtoError>,
)
    requires
        decodes(json, before, after, result),
    ensures
        result matches Ok(Some(frame)) ==> {
            &&& frames_in(before).len() > 0
            &&& frame@.kind() == frames_in(before)[0].0
            &&& frame.is_read(json, frames_in(before)[0].1)
            &&& frames_in(after) == frames_in(before).skip(1)
            &&& left_in(after) == left_in(before)
        },
        result matches Ok(None) ==> frames_in(before).len() == 0 && left_in(before) == before,
{
    if result matches Ok(Some(_)) {
        assert(frames_in(before).skip(1) =~= frames_in(after));
    }
}

/// Whether `encodings` are the encodings of `frames`, one each. Structured frames need
/// JSON that is read back as it was written.
pub open spec fn are_encodings<J: FrameJson>(
    json: J,
    frames: Seq<Frame>,
    encodings: Seq<Seq<u8>>,
) -> bool {
    &&& frames.len() == encodings.len()
    &&& forall|i: int|
        0 <= i < frames.len() ==> (#[trigger] frames[i]).encodes_to(json, Ok(encodings[i]))
    &&& forall|i: int|
        0 <= i < frames.len() && is_structured((#[trigger] frames[i])@.kind()) ==> lossless_frames(
            json,
        )
}

/// The encoding of a frame is the wire form of one of its payloads, and that payload,
/// under the frame's kind, is read as nothing but the frame.
proof fn lemma_encoding<J: FrameJson>(json: J, frame: Frame, bytes: Seq<u8>) -> (payload: Seq<u8>)
    requires
        frame.encodes_to(json, Ok(bytes)),
        is_structured(frame@.kind()) ==> lossless_frames(json),
    ensures
        payload.len() <= MAX_FRAME_LEN,
        bytes == wire(frame@.kind(), payload),
        forall|back: Frame|
            back@.kind() == frame@.kind() && #[trigger] back.is_read(json, payload) ==> back@
                == frame@,
{
    let kind = frame@.kind();
    let nothing = Seq::<u8>::empty();
    let carried = choose|carried: Result<Seq<u8>, serde_json::Error>| #[trigger]
        frame.carries(json, carried) && appends(kind, carried, nothing, bytes, Ok(()));
    let payload = carried->Ok_0;
    assert(nothing + wire(kind, payload) =~= wire(kind, payload));
    assert(frame.carries(json, Ok(payload)));
    assert forall|back: Frame|
        back@.kind() == frame@.kind() && #[trigger] back.is_read(json, payload) implies back@
        == frame@ by {
        kind_tells_the_variant(back@, frame@);
    }
    payload
}

/// Frames that were encoded back to back are found in order, as they were, before what is
/// found in what follows them.
pub proof fn encoded_frames_are_found_in_order<J: FrameJson>(
    json: J,
    frames: Seq<Frame>,
    encodings: Seq<Seq<u8>>,
    tail: Seq<u8>,
)
    requires
        are_encodings(json, frames, encodings),
    ensures
        ({
            let found = frames_in(encodings.flatten() + tail);
            &&& found.len() == frames.len() + frames_in(tail).len()
            &&& found.skip(frames.len() as int) == frames_in(tail)
            &&& forall|i: int, back: Frame|
                0 <= i < frames.len() && back@.kind() == found[i].0 && #[trigger] back.is_read(
                    json,
                    found[i].1,
                ) ==> back@ == frames[i]@
        }),
        left_in(encodings.flatten() + tail) == left_in(tail),
    decreases frames.len(),
{
    let found = frames_in(encodings.flatten() + tail);
    if frames.len() == 0 {
        assert(encodings.flatten() + tail =~= tail);
        assert(found.skip(0) =~= found);
    } else {
        let kind = frames[0]@.kind();
        let payload = lemma_encoding(json, frames[0], encodings[0]);
        let rest = encodings.drop_first().flatten() + tail;
        assert(encodings.flatten() + tail =~= wire(kind, payload) + rest);
        kind_tells_the_variant(frames[0]@, frames[0]@);
        wire_is_read_back(kind, payload, rest);
        lemma_later_encodings(json, frames, encodings);
        encoded_frames_are_found_in_order(json, frames.drop_first(), encodings.drop_first(), tail);
        let later = frames_in(rest);
        assert(found == seq![(kind, payload)] + later);
        assert(found.skip(frames.len() as int) =~= later.skip(frames.len() - 1));
        assert forall|i: int, back: Frame|
            0 <= i < frames.len() && back@.kind() == found[i].0 && #[trigger] back.is_read(
                json,
                found[i].1,
            ) implies back@ == frames[i]@ by {
            if i > 0 {
                assert(found[i] == later[i - 1]);
                assert(frames.drop_first()[i - 1] == frames[i]);
            }
        }
    }
}

/// Without the first frame and its encoding, the others are encoded still.
proof fn lemma_later_encodings<J: FrameJson>(
    json: J,
    frames: Seq<Frame>,
    encodings: Seq<Seq<u8>>,
)
    requires
        are_encodings(json, frames, encodings),
        frames.len() > 0,
    ensures
        are_encodings(json, frames.drop_first(), encodings.drop_first()),
{
    let later = frames.drop_first();
    assert forall|i: int| 0 <= i < later.len() implies (#[trigger] later[i]).encodes_to(
        json,
        Ok(encodings.drop_first()[i]),
    ) by {
        assert(later[i] == frames[i + 1]);
    }
    assert forall|i: int| 0 <= i < later.len() && is_structured((#[trigger] later[i])@.kind())
        implies lossless_frames(json) by {
        assert(later[i] == frames[i + 1]);
    }
}

/// What happens at the receiving end of a stream.
pub enum Moment {
    /// Bytes arrive behind those in the buffer.
    Arrive(Seq<u8>),
    /// The buffer is decoded, with this result, and left with these bytes.
    Decode { result: Result<Option<Frame>, ProtoError>, left: Seq<u8> },
}

/// Whether these moments can follow one another, from a buffer that holds `held`.
pub open spec fn can_happen<J: FrameJson>(json: J, held: Seq<u8>, moments: Seq<Moment>) -> bool
    decreases moments.len(),
{
    moments.len() > 0 ==> match moments[0] {
        Moment::Arrive(bytes) => can_happen(json, held + bytes, moments.skip(1)),
        Moment::Decode { result, left } => decodes(json, held, left, result) && can_happen(
            json,
            left,
            moments.skip(1),
        ),
    }
}

/// What the buffer holds after these moments.
pub open spec fn held_after(held: Seq<u8>, moments: Seq<Moment>) -> Seq<u8>
    decreases moments.len(),
{
    if moments.len() == 0 {
        held
    } else {
        match moments[0] {
            Moment::Arrive(bytes) => held_after(held + bytes, moments.skip(1)),
            Moment::Decode { left, .. } => held_after(left, moments.skip(1)),
        }
    }
}

/// The bytes that arrive in these moments, in order.
pub open spec fn arrived(moments: Seq<Moment>) -> Seq<u8>
    decreases moments.len(),
{
    if moments.len() == 0 {
        Seq::empty()
    } else {
        match moments[0] {
            Moment::Arrive(bytes) => bytes + arrived(moments.skip(1)),
            Moment::Decode { .. } => arrived(moments.skip(1)),
        }
    }
}

/// The frames that are decoded in these moments, in order.
pub open spec fn received(moments: Seq<Moment>) -> Seq<Frame>
    decreases moments.len(),
{
    if moments.len() == 0 {
        Seq::empty()
    } else {
        match moments[0] {
            Moment::Decode { result: Ok(Some(frame)), .. } => seq![frame] + received(
                moments.skip(1),
            ),
            _ => received(moments.skip(1)),
        }
    }
}

/// Whether no decoding in these moments failed.
pub open spec fn none_failed(moments: Seq<Moment>) -> bool {
    forall|i: int|
        0 <= i < moments.len() ==> ((#[trigger] moments[i]) matches Moment::Decode { result, .. }
            ==> result is Ok)
}

/// Frames are received as they were sent: in whatever pieces their bytes arrive, and
/// whenever the buffer is decoded in between, the frames that come out are the first of
/// those that were sent, in order and each once, and no decoding fails. When all bytes
/// have arrived and decoding gives no more frame, all frames have come out and no byte is
/// left. Structured frames need JSON that is read back as it was written.
pub proof fn frames_are_received_as_they_were_sent<J: FrameJson>(
    json: J,
    frames: Seq<Frame>,
    encodings: Seq<Seq<u8>>,
    moments: Seq<Moment>,
    under_way: Seq<u8>,
    result: Result<Option<Frame>, ProtoError>,
    left: Seq<u8>,
)
    requires
        are_encodings(json, frames, encodings),
        can_happen(json, Seq::empty(), moments),
        arrived(moments) + under_way == encodings.flatten(),
        decodes(json, held_after(Seq::empty(), moments), left, result),
    ensures
        received(moments).len() <= frames.len(),
        forall|i: int|
            0 <= i < received(moments).len() ==> (#[trigger] received(moments)[i])@ == frames[i]@,
        none_failed(moments),
        result is Ok,
        under_way.len() == 0 && result == Ok::<Option<Frame>, ProtoError>(None) ==> {
            &&& received(moments).len() == frames.len()
            &&& left.len() == 0
        },
{
    let nothing = Seq::<u8>::empty();
    assert(nothing + arrived(moments) + under_way =~= encodings.flatten());
    lemma_receiving(json, frames, encodings, nothing, moments, under_way);
    let n = received(moments).len() as int;
    let rest = encodings.skip(n);
    lemma_decoding_a_prefix(
        json,
        frames.skip(n),
        rest,
        held_after(nothing, moments),
        under_way,
        result,
        left,
    );
    if under_way.len() == 0 {
        assert(held_after(nothing, moments) + under_way =~= held_after(nothing, moments));
    }
}

/// Decoding the beginning of what was sent gives the first frame once it is whole.
proof fn lemma_decoding_a_prefix<J: FrameJson>(
    json: J,
    frames: Seq<Frame>,
    encodings: Seq<Seq<u8>>,
    held: Seq<u8>,
    coming: Seq<u8>,
    result: Result<Option<Frame>, ProtoError>,
    left: Seq<u8>,
)
    requires
        are_encodings(json, frames, encodings),
        held + coming == encodings.flatten(),
        decodes(json, held, left, result),
    ensures
        match result {
            Ok(Some(frame)) => {
                &&& frames.len() > 0
                &&& frame@ == frames[0]@
                &&& left + coming == encodings.drop_first().flatten()
            },
            Ok(None) => left == held && (frames.len() > 0 ==> coming.len() > 0),
            Err(_) => false,
        },
{
    if frames.len() == 0 {
        assert((held + coming).len() == 0);
    } else {
        let kind = frames[0]@.kind();
        let payload = lemma_encoding(json, frames[0], encodings[0]);
        let whole = wire(kind, payload);
        let later = encodings.drop_first().flatten();
        assert(held + coming == whole + later);
        if held.len() >= whole.len() {
            let rest = held.skip(whole.len() as int);
            assert(held =~= whole + rest) by {
                assert((held + coming).take(whole.len() as int) =~= whole);
                assert((held + coming).take(whole.len() as int) =~= held.take(whole.len() as int));
            }
            assert(rest + coming =~= later) by {
                assert((held + coming).skip(whole.len() as int) =~= rest + coming);
                assert((whole + later).skip(whole.len() as int) =~= later);
            }
            decode_undoes_to_bytes(frames[0], json, whole, rest, left, result);
        } else {
            assert(held =~= whole.take(held.len() as int)) by {
                assert((held + coming).take(held.len() as int) =~= held);
                assert((whole + later).take(held.len() as int) =~= whole.take(held.len() as int));
            }
            partial_frame_is_incomplete(kind, payload, held.len() as int);
            assert(coming.len() > 0) by {
                assert((held + coming).len() == held.len() + coming.len());
                assert((whole + later).len() == whole.len() + later.len());
            }
        }
    }
}

/// [`frames_are_received_as_they_were_sent`], from any buffer, with what the buffer and
/// the bytes under way still hold.
proof fn lemma_receiving<J: FrameJson>(
    json: J,
    frames: Seq<Frame>,
    encodings: Seq<Seq<u8>>,
    held: Seq<u8>,
    moments: Seq<Moment>,
    under_way: Seq<u8>,
)
    requires
        are_encodings(json, frames, encodings),
        can_happen(json, held, moments),
        held + arrived(moments) + under_way == encodings.flatten(),
    ensures
        received(moments).len() <= frames.len(),
        forall|i: int|
            0 <= i < received(moments).len() ==> (#[trigger] received(moments)[i])@ == frames[i]@,
        none_failed(moments),
        are_encodings(
            json,
            frames.skip(received(moments).len() as int),
            encodings.skip(received(moments).len() as int),
        ),
        held_after(held, moments) + under_way == encodings.skip(
            received(moments).len() as int,
        ).flatten(),
    decreases moments.len(),
{
    if moments.len() == 0 {
        assert(frames.skip(0) =~= frames);
        assert(encodings.skip(0) =~= encodings);
        assert(held + arrived(moments) + under_way =~= held + under_way);
    } else {
        let rest = moments.skip(1);
        match moments[0] {
            Moment::Arrive(bytes) => {
                assert(held + (bytes + arrived(rest)) + under_way =~= held + bytes + arrived(rest)
                    + under_way);
                lemma_receiving(json, frames, encodings, held + bytes, rest, under_way);
            },
            Moment::Decode { result, left } => {
                let coming = arrived(rest) + under_way;
                assert(held + arrived(rest) + under_way =~= held + coming);
                lemma_decoding_a_prefix(json, frames, encodings, held, coming, result, left);
                assert(left + arrived(rest) + under_way =~= left + coming);
                if let Ok(Some(frame)) = result {
                    lemma_later_encodings(json, frames, encodings);
                    lemma_receiving(
                        json,
                        frames.drop_first(),
                        encodings.drop_first(),
                        left,
                        rest,
                        under_way,
                    );
                    let n = received(rest).len() as int;
                    assert(frames.drop_first().skip(n) =~= frames.skip(n + 1));
                    assert(encodings.drop_first().skip(n) =~= encodings.skip(n + 1));
                    assert forall|i: int| 0 <= i < received(moments).len() implies (
                    #[trigger] received(moments)[i])@ == frames[i]@ by {
                        if i > 0 {
                            assert(received(moments)[i] == received(rest)[i - 1]);
                            assert(frames.drop_first()[i - 1] == frames[i]);
                        }
                    }
                } else {
                    lemma_receiving(json, frames, encodings, left, rest, under_way);
                }
            },
        }
        assert forall|i: int| 0 <= i < moments.len() implies ((
        #[trigger] moments[i]) matches Moment::Decode { result, .. } ==> result is Ok) by {
            if i > 0 {
                assert(moments[i] == rest[i - 1]);
            }
        }
    }
}

/// The major component of a version holds no `.`, begins the version, and is
/// followed by a `.` or by nothing.
pub proof fn major_ends_at_the_first_dot(version: Seq<char>)
    ensures
        major(version).is_prefix_of(version),
        forall|i: int| 0 <= i < major(version).len() ==> major(version)[i] != '.',
        major(version).len() == version.len() || version[major(version).len() as int] == '.',
    decreases version.len(),
{
    if version.len() > 0 && version[0] != '.' {
        let rest = version.skip(1);
        major_ends_at_the_first_dot(rest);
        assert forall|i: int| 0 <= i < major(version).len() implies major(version)[i] != '.'
            && major(version)[i] == version[i] by {
            if i > 0 {
                assert(major(version)[i] == major(rest)[i - 1]);
                assert(rest[i - 1] == version[i]);
            }
        }
        assert(version.take(major(version).len() as int) =~= major(version));
        if major(rest).len() < rest.len() {
            assert(version[major(version).len() as int] == rest[major(rest).len() as int]);
        }
    }
}

/// A component without a `.`, whatever follows the first `.`, is the major one.
pub proof fn major_ignores_what_follows(component: Seq<char>, minor: Seq<char>)
    requires
        !component.contains('.'),
    ensures
        major(component) == component,
        major(component + seq!['.'] + minor) == component,
    decreases component.len(),
{
    let version = component + seq!['.'] + minor;
    if component.len() > 0 {
        assert(component.contains(component[0]));
        let rest = component.skip(1);
        assert forall|i: int| 0 <= i < rest.len() implies rest[i] != '.' by {
            assert(component.contains(component[i + 1]));
        }
        major_ignores_what_follows(rest, minor);
        assert(version.skip(1) =~= rest + seq!['.'] + minor);
        assert(seq![component[0]] + rest =~= component);
    } else {
        assert(component =~= Seq::empty());
    }
}

/// Whether two ends agree does not depend on their minors: with one major, however
/// long, they always do.
pub proof fn minors_do_not_matter(component: Seq<char>, minor: Seq<char>, other_minor: Seq<char>)
    requires
        component.len() > 0,
        !component.contains('.'),
    ensures
        compatible(component + seq!['.'] + minor, component + seq!['.'] + other_minor),
        compatible(component, component + seq!['.'] + minor),
        compatible(component + seq!['.'] + minor, component),
{
    major_ignores_what_follows(component, minor);
    major_ignores_what_follows(component, other_minor);
}

/// Two ends of different majors never agree.
pub proof fn majors_must_match(
    component: Seq<char>,
    minor: Seq<char>,
    other: Seq<char>,
    other_minor: Seq<char>,
)
    requires
        !component.contains('.'),
        !other.contains('.'),
        component != other,
    ensures
        !compatible(component + seq!['.'] + minor, other + seq!['.'] + other_minor),
{
    major_ignores_what_follows(component, minor);
    major_ignores_what_follows(other, other_minor);
}

/// It does not matter which end is the agent for whether a version can be agreed on,
/// and agreement passes on from one pair to the next.
pub proof fn agreement_is_symmetric_and_transitive(a: Seq<char>, b: Seq<char>, c: Seq<char>)
    ensures
        compatible(a, b) == compatible(b, a),
        compatible(a, b) && compatible(b, c) ==> compatible(a, c),
{
}

/// A spec that is not valid never leaves the machine: the handshake fails at once,
/// and goes no further.
pub proof fn invalid_spec_is_refused_before_dialing(
    request: HandshakeRequest,
    handshake: AgentHandshake,
    action: AgentAction,
)
    requires
        !request.spec.is_valid(),
        handshake.starts(request, action),
    ensures
        action matches AgentAction::Fail(error) && error@ is InvalidSpec,
        forall|event: AgentEvent| !handshake.awaits(event),
{
}

/// The agent opens no tunnel but one that the relay's first frame accepts, and what
/// it reports is what that frame says.
pub proof fn agent_establishes_only_what_the_relay_accepted(
    request: HandshakeRequest,
    started: AgentHandshake,
    first: AgentAction,
    opened: AgentEvent,
    sending: AgentHandshake,
    second: AgentAction,
    sent: AgentEvent,
    receiving: AgentHandshake,
    third: AgentAction,
    received: AgentEvent,
    done: AgentHandshake,
    response: HandshakeResponse,
)
    requires
        started.starts(request, first),
        started.steps(opened, sending, second),
        sending.steps(sent, receiving, third),
        receiving.steps(received, done, AgentAction::Establish(response)),
    ensures
        request.spec.is_valid(),
        second == AgentAction::Send(Frame::HandshakeRequest(request)),
        received == AgentEvent::Received(Ok(Some(Frame::HandshakeResponse(response)))),
{
}

/// A first frame that is out of order is a violation of the protocol, on either end, and
/// opens no tunnel; only a stream that ended is a closed session.
pub proof fn out_of_order_frame_violates_the_protocol(
    frame: Frame,
    agent_done: AgentHandshake,
    agent_end: AgentAction,
    relay_done: RelayHandshake,
    relay_end: RelayAction,
)
    requires
        AgentHandshake::Receiving.steps(
            AgentEvent::Received(Ok(Some(frame))),
            agent_done,
            agent_end,
        ),
        RelayHandshake::Receiving.steps(
            RelayEvent::Received(Ok(Some(frame))),
            relay_done,
            relay_end,
        ),
    ensures
        !(frame is HandshakeResponse || frame is Error) ==> (agent_end matches AgentAction::Fail(
            error,
        ) && error@ is Protocol),
        !(frame is HandshakeRequest) ==> (relay_end matches RelayAction::Fail(error)
            && error@ is Protocol),
{
}

/// The relay opens no tunnel but one that was requested, that its policy accepted,
/// and whose response was sent.
pub proof fn relay_establishes_only_what_its_policy_accepted(
    accepted: RelayEvent,
    receiving: RelayHandshake,
    first: RelayAction,
    received: RelayEvent,
    deciding: RelayHandshake,
    second: RelayAction,
    decided: RelayEvent,
    confirming: RelayHandshake,
    third: RelayAction,
    sent: RelayEvent,
    done: RelayHandshake,
    request: HandshakeRequest,
)
    requires
        RelayHandshake::Accepting.steps(accepted, receiving, first),
        receiving.steps(received, deciding, second),
        deciding.steps(decided, confirming, third),
        confirming.steps(sent, done, RelayAction::Establish(request)),
    ensures
        received == RelayEvent::Received(Ok(Some(Frame::HandshakeRequest(request)))),
        decided matches RelayEvent::Decided(Ok(response)) && third == RelayAction::Send(
            Frame::HandshakeResponse(response),
        ),
        sent matches RelayEvent::Sent(Ok(_)),
{
}

/// A relay whose policy accepts only valid specs opens no tunnel for an invalid one.
pub proof fn policy_that_validates_opens_only_valid_tunnels(
    request: HandshakeRequest,
    decision: Result<HandshakeResponse, ProtoError>,
    decided: RelayHandshake,
    answer: RelayAction,
    outcome: Result<(), ProtoError>,
    done: RelayHandshake,
    established: HandshakeRequest,
)
    requires
        decision is Ok ==> request.spec.is_valid(),
        RelayHandshake::Deciding(request).steps(RelayEvent::Decided(decision), decided, answer),
        decided.steps(RelayEvent::Sent(outcome), done, RelayAction::Establish(established)),
    ensures
        established == request,
        established.spec.is_valid(),
{
}

/// A refused handshake is answered in-band before the relay fails with the refusal,
/// whether or not the answer could be sent.
pub proof fn refused_handshake_is_answered(
    request: HandshakeRequest,
    error: ProtoError,
    rejecting: RelayHandshake,
    answer: RelayAction,
    outcome: Result<(), ProtoError>,
    done: RelayHandshake,
    end: RelayAction,
)
    requires
        RelayHandshake::Deciding(request).steps(RelayEvent::Decided(Err(error)), rejecting, answer),
        rejecting.steps(RelayEvent::Sent(outcome), done, end),
    ensures
        answer matches RelayAction::Send(frame) && refuses(frame, error),
        end == RelayAction::Fail(error),
        done == RelayHandshake::Done,
{
}

/// The agent learns why the relay refused it: what it fails with is the code of a
/// refusal and how the relay's error reads.
pub proof fn agent_learns_why_it_was_refused(
    error: ProtoError,
    sent: Frame,
    received: Frame,
    result: Result<HandshakeResponse, ProtoError>,
)
    requires
        refuses(sent, error),
        received@ == sent@,
        concludes(Some(received), result),
    ensures
        ({
            &&& result matches Err(failure)
            &&& failure@ matches ProtoErrorView::Rejected(reason)
            &&& exists|text: Seq<char>| #[trigger]
                error.reads_as(text) && reason == REJECTED_CODE@ + ": "@ + text
        }),
{
    let text = (sent@->Error_0).message;
    assert(error.reads_as(text));
}

/// When the relay accepts and the frames arrive as they were sent, both ends open
/// the tunnel: the relay knows the agent's request, and the agent the relay's
/// response.
pub proof fn accepted_handshake_opens_both_ends(
    request: HandshakeRequest,
    hello: Frame,
    hello_received: Frame,
    deciding: RelayHandshake,
    decide: RelayAction,
    response: HandshakeResponse,
    confirming: RelayHandshake,
    welcome: Frame,
    welcome_received: Frame,
    relay_done: RelayHandshake,
    relay_end: RelayAction,
    agent_done: AgentHandshake,
    agent_end: AgentAction,
)
    requires
        AgentHandshake::Opening(request).steps(
            AgentEvent::Opened(Ok(())),
            AgentHandshake::Sending,
            AgentAction::Send(hello),
        ),
        hello_received@ == hello@,
        RelayHandshake::Receiving.steps(
            RelayEvent::Received(Ok(Some(hello_received))),
            deciding,
            decide,
        ),
        deciding.steps(
            RelayEvent::Decided(Ok(response)),
            confirming,
            RelayAction::Send(welcome),
        ),
        confirming.steps(RelayEvent::Sent(Ok(())), relay_done, relay_end),
        welcome_received@ == welcome@,
        AgentHandshake::Receiving.steps(
            AgentEvent::Received(Ok(Some(welcome_received))),
            agent_done,
            agent_end,
        ),
    ensures
        relay_end matches RelayAction::Establish(requested) && requested@ == request@,
        agent_end matches AgentAction::Establish(granted) && granted@ == response@,
{
}

/// The open that an event requests, if any.
pub open spec fn requested<R, S>(event: Event<R, S>) -> Seq<R> {
    match event {
        Event::Request(Progress::Ready(Some(reply))) => seq![reply],
        _ => Seq::empty(),
    }
}

/// The open that an action answers, if any.
pub open spec fn answered<R, S>(action: Action<R, S>) -> Seq<R> {
    match action {
        Action::Answer { to, .. } => seq![to],
        _ => Seq::empty(),
    }
}

/// Whether a driver can hear these events one after the other, from this state.
pub open spec fn can_hear<R, S>(driver: DriverView<R>, events: Seq<Event<R, S>>) -> bool
    decreases events.len(),
{
    events.len() > 0 ==> driver.awaits(events[0]) && can_hear(
        driver.next(events[0]).0,
        events.skip(1),
    )
}

/// The state of a driver after these events.
pub open spec fn after<R, S>(driver: DriverView<R>, events: Seq<Event<R, S>>) -> DriverView<R>
    decreases events.len(),
{
    if events.len() == 0 {
        driver
    } else {
        after(driver.next(events[0]).0, events.skip(1))
    }
}

/// The opens that these events request, in order.
pub open spec fn all_requested<R, S>(events: Seq<Event<R, S>>) -> Seq<R>
    decreases events.len(),
{
    if events.len() == 0 {
        Seq::empty()
    } else {
        requested(events[0]) + all_requested(events.skip(1))
    }
}

/// The opens that a driver answers as it hears these events, in order.
pub open spec fn all_answered<R, S>(driver: DriverView<R>, events: Seq<Event<R, S>>) -> Seq<R>
    decreases events.len(),
{
    if events.len() == 0 {
        Seq::empty()
    } else {
        answered(driver.next(events[0]).1) + all_answered(
            driver.next(events[0]).0,
            events.skip(1),
        )
    }
}

/// Opens are answered in the order in which they were requested, each at most once,
/// and none is forgotten: what was pending and what was requested since is what was
/// answered and what is pending now.
pub proof fn opens_are_answered_in_order<R, S>(driver: DriverView<R>, events: Seq<Event<R, S>>)
    requires
        driver.wf(),
        can_hear(driver, events),
    ensures
        after(driver, events).wf(),
        driver.pending + all_requested(events) == all_answered(driver, events) + after(
            driver,
            events,
        ).pending,
    decreases events.len(),
{
    if events.len() > 0 {
        let event = events[0];
        let rest = events.skip(1);
        let next = driver.next(event).0;
        let action = driver.next(event).1;
        one_open_is_answered_at_a_time(driver, event);
        opens_are_answered_in_order(next, rest);
        assert(driver.pending + (requested(event) + all_requested(rest)) =~= (driver.pending
            + requested(event)) + all_requested(rest));
        assert((answered(action) + next.pending) + all_requested(rest) =~= answered(action) + (
        next.pending + all_requested(rest)));
        assert(answered(action) + (all_answered(next, rest) + after(next, rest).pending) =~= (
        answered(action) + all_answered(next, rest)) + after(next, rest).pending);
    } else {
        assert(driver.pending + Seq::<R>::empty() =~= Seq::<R>::empty() + driver.pending);
    }
}

/// One step keeps the order of opens: a request goes to the end of the queue, and an
/// answer goes to its front.
pub proof fn one_open_is_answered_at_a_time<R, S>(driver: DriverView<R>, event: Event<R, S>)
    requires
        driver.wf(),
        driver.awaits(event),
    ensures
        driver.next(event).0.wf(),
        driver.pending + requested(event) == answered(driver.next(event).1) + driver.next(
            event,
        ).0.pending,
{
    let next = driver.next(event).0;
    let action = driver.next(event).1;
    assert(driver.pending + requested(event) =~= answered(action) + next.pending);
}

/// Whether an event tells the driver to shut down.
pub open spec fn tells_to_shut_down<R, S>(event: Event<R, S>) -> bool {
    event matches Event::Shutdown(Progress::Ready(_))
}

/// The outcome of opening a stream that an event brings, if any.
pub open spec fn outcome<R, S>(event: Event<R, S>) -> Seq<Result<S, ProtoError>> {
    match event {
        Event::Outbound(Progress::Ready(outcome)) => seq![outcome],
        _ => Seq::empty(),
    }
}

/// The outcomes of opening a stream that these events bring, in order.
pub open spec fn all_outcomes<R, S>(events: Seq<Event<R, S>>) -> Seq<Result<S, ProtoError>>
    decreases events.len(),
{
    if events.len() == 0 {
        Seq::empty()
    } else {
        outcome(events[0]) + all_outcomes(events.skip(1))
    }
}

/// What an action answers an open with, if anything.
pub open spec fn answer<R, S>(action: Action<R, S>) -> Seq<Result<S, ProtoError>> {
    match action {
        Action::Answer { with, .. } => seq![with],
        _ => Seq::empty(),
    }
}

/// What a driver answers opens with as it hears these events, in order.
pub open spec fn all_answers<R, S>(driver: DriverView<R>, events: Seq<Event<R, S>>) -> Seq<
    Result<S, ProtoError>,
>
    decreases events.len(),
{
    if events.len() == 0 {
        Seq::empty()
    } else {
        answer(driver.next(events[0]).1) + all_answers(driver.next(events[0]).0, events.skip(1))
    }
}

/// Until it is told to shut down, a driver answers opens with the outcomes that the
/// connection gives, first come first served: the outcome that comes as number `i` goes
/// to the open that was requested as number `i`, and no outcome comes without an open
/// that waits for it.
pub proof fn outcomes_go_to_the_opens_in_order<R, S>(events: Seq<Event<R, S>>)
    requires
        can_hear(DriverView::<R>::initial(), events),
        forall|i: int| 0 <= i < events.len() ==> !tells_to_shut_down(#[trigger] events[i]),
    ensures
        ({
            let driver = DriverView::<R>::initial();
            let opens = all_requested(events);
            let outcomes = all_outcomes(events);
            &&& outcomes.len() <= opens.len()
            &&& all_answered(driver, events) == opens.take(outcomes.len() as int)
            &&& all_answers(driver, events) == outcomes
            &&& after(driver, events).pending == opens.skip(outcomes.len() as int)
        }),
{
    let driver = DriverView::<R>::initial();
    let opens = all_requested(events);
    let answered = all_answered(driver, events);
    let pending = after(driver, events).pending;
    opens_are_answered_in_order(driver, events);
    lemma_answers_are_outcomes(driver, events);
    assert(Seq::<R>::empty() + opens =~= opens);
    assert(opens == answered + pending);
    assert(opens.take(answered.len() as int) =~= answered);
    assert(opens.skip(answered.len() as int) =~= pending);
}

/// As long as a driver is not shut down, its answers are the outcomes, one each.
proof fn lemma_answers_are_outcomes<R, S>(driver: DriverView<R>, events: Seq<Event<R, S>>)
    requires
        driver.wf(),
        !driver.shutting_down,
        can_hear(driver, events),
        forall|i: int| 0 <= i < events.len() ==> !tells_to_shut_down(#[trigger] events[i]),
    ensures
        all_answers(driver, events) == all_outcomes(events),
        all_answered(driver, events).len() == all_outcomes(events).len(),
    decreases events.len(),
{
    if events.len() > 0 {
        let rest = events.skip(1);
        let next = driver.next(events[0]).0;
        one_open_is_answered_at_a_time(driver, events[0]);
        assert forall|i: int| 0 <= i < rest.len() implies !tells_to_shut_down(
            #[trigger] rest[i],
        ) by {
            assert(rest[i] == events[i + 1]);
        }
        assert(!tells_to_shut_down(events[0]));
        lemma_answers_are_outcomes(next, rest);
    }
}

/// A stream is asked of the connection only while an open waits for one, and an open that
/// fails does not end the driver.
pub proof fn streams_are_asked_for_only_when_wanted<R, S>(
    driver: DriverView<R>,
    event: Event<R, S>,
    source: ProtoError,
)
    requires
        driver.wf(),
        driver.awaits(event),
    ensures
        driver.next(event).1 == Action::<R, S>::PollOutbound ==> driver.next(event).0.pending.len()
            > 0,
        event == Event::<R, S>::Outbound(Progress::Ready(Err(source))) ==> {
            &&& driver.next(event).1 is Answer
            &&& driver.next(event).0.awaits(Event::<R, S>::Wake)
        },
{
}

/// A stream that is opened or refused by the connection goes to the oldest pending
/// open, as the connection gave it.
pub proof fn oldest_open_gets_the_stream<R, S>(
    driver: DriverView<R>,
    outcome: Result<S, ProtoError>,
)
    requires
        driver.wf(),
        driver.phase == Phase::Outbound,
    ensures
        driver.pending.len() > 0,
        driver.next(Event::Outbound(Progress::Ready(outcome))).1 == (Action::Answer {
            to: driver.pending[0],
            with: outcome,
        }),
{
}

/// Once it was told to shut down, the driver only refuses what is pending, closes the
/// connection, waits for that and stops; it never turns back.
pub proof fn shutdown_only_refuses_and_closes<R, S>(driver: DriverView<R>, event: Event<R, S>)
    requires
        driver.wf(),
        driver.awaits(event),
        driver.shutting_down || tells_to_shut_down(event),
    ensures
        driver.next(event).0.shutting_down,
        match driver.next(event).1 {
            Action::Answer { with, .. } => with == Err::<S, ProtoError>(ProtoError::SessionClosed),
            Action::PollClose => driver.next(event).0.pending.len() == 0,
            Action::Wait | Action::Stop => true,
            _ => false,
        },
{
}

/// A driver that was told to shut down refuses every pending open, oldest first, and
/// gets to closing the connection: it takes one wake per open, and one more.
pub proof fn shutdown_gets_to_the_close<R, S>(driver: DriverView<R>)
    requires
        driver.shutting_down,
        driver.phase == Phase::Idle,
    ensures
        ({
            let wakes = Seq::new(driver.pending.len(), |i: int| Event::<R, S>::Wake);
            &&& can_hear(driver, wakes)
            &&& all_answered(driver, wakes) == driver.pending
            &&& after(driver, wakes).next(Event::<R, S>::Wake).1 == Action::<R, S>::PollClose
        }),
    decreases driver.pending.len(),
{
    let wakes = Seq::new(driver.pending.len(), |i: int| Event::<R, S>::Wake);
    if driver.pending.len() > 0 {
        let next = driver.next(Event::<R, S>::Wake).0;
        shutdown_gets_to_the_close::<R, S>(next);
        assert(wakes.skip(1) =~= Seq::new(next.pending.len(), |i: int| Event::<R, S>::Wake));
        assert(seq![driver.pending[0]] + driver.pending.skip(1) =~= driver.pending);
    } else {
        assert(all_answered(driver, wakes) =~= driver.pending);
    }
}

/// What the driver has learnt stays learnt: neither a shutdown nor the end of requests
/// is taken back.
pub proof fn signals_are_not_taken_back<R, S>(driver: DriverView<R>, event: Event<R, S>)
    requires
        driver.wf(),
        driver.awaits(event),
    ensures
        driver.shutting_down ==> driver.next(event).0.shutting_down,
        driver.open_closed ==> driver.next(event).0.open_closed,
{
}

/// The driver waits only when it has just polled the connection and nothing was ready,
/// so the connection always makes progress.
pub proof fn driver_waits_only_on_the_connection<R, S>(driver: DriverView<R>, event: Event<R, S>)
    requires
        driver.wf(),
        driver.awaits(event),
        driver.next(event).1 == Action::<R, S>::Wait,
    ensures
        event == Event::<R, S>::Inbound(Progress::Pending) || event == Event::<R, S>::Closed(
            Progress::Pending,
        ),
{
}

/// The driver stops only when the connection has closed or ended, and then hears
/// nothing more.
pub proof fn driver_stops_only_with_the_connection<R, S>(driver: DriverView<R>, event: Event<R, S>)
    requires
        driver.wf(),
        driver.awaits(event),
        driver.next(event).1 == Action::<R, S>::Stop,
    ensures
        match event {
            Event::Closed(Progress::Ready(_)) => true,
            Event::Inbound(Progress::Ready(None)) => true,
            Event::Inbound(Progress::Ready(Some(Err(_)))) => true,
            _ => false,
        },
        forall|later: Event<R, S>| !driver.next(event).0.awaits(later),
{
}

} // verus!
