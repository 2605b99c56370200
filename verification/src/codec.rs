//! The frame codec as an object, so that a stream adapter can own one.

use crate::buffer::buffered;
use crate::error::ProtoError;
use crate::frame::{decodes, fits, Frame};
use crate::json::FrameJson;
use bytes::BytesMut;
use vstd::prelude::*;

verus! {

/// Delegates to [`Frame::decode`] / [`Frame::encode`]. Stateless.
#[derive(Debug, Default, Clone, Copy)]
pub struct FrameCodec;

impl FrameCodec {
    /// See [`Frame::decode`].
    pub fn decode<J: FrameJson>(&mut self, src: &mut BytesMut, json: &J) -> (result: Result<
        Option<Frame>,
        ProtoError,
    >)
        ensures
            *final(self) == *old(self),
            decodes(*json, buffered(*old(src)), buffered(*final(src)), result),
    {
        Frame::decode(src, json)
    }

    /// See [`Frame::encode`].
    pub fn encode<J: FrameJson>(
        &mut self,
        item: Frame,
        json: &J,
        dst: &mut BytesMut,
    ) -> (result: Result<(), ProtoError>)
        requires
            fits(buffered(*old(dst)).len(), item@.payload_bound()),
        ensures
            *final(self) == *old(self),
            item.encodes(*json, buffered(*old(dst)), buffered(*final(dst)), result),
    {
        item.encode(json, dst)
    }
}

} // verus!
