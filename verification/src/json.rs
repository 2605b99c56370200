//! JSON, which comes from outside.
//!
//! The codec is verified for every implementation of [`Json`]: the trait promises
//! nothing. What a law needs of an implementation is a condition of that law.

use crate::frame::TunnelError;
use crate::handshake::{HandshakeRequest, HandshakeResponse};
use crate::http::{RequestHead, ResponseHead};
use vstd::prelude::*;

verus! {

/// A writer and reader of values of one type as JSON.
pub trait Json<T> {
    /// The JSON text of a value.
    fn write(&self, value: &T) -> (text: Result<Vec<u8>, serde_json::Error>);

    /// The value that a JSON text holds.
    fn read(&self, text: &[u8]) -> (value: Result<T, serde_json::Error>);
}

/// JSON for every type that a structured frame carries.
pub trait FrameJson: Json<HandshakeRequest> + Json<HandshakeResponse> + Json<RequestHead> + Json<
    ResponseHead,
> + Json<TunnelError> {

}

/// The payload that a written JSON text makes.
pub open spec fn as_payload(text: Result<Vec<u8>, serde_json::Error>) -> Result<
    Seq<u8>,
    serde_json::Error,
> {
    match text {
        Ok(text) => Ok(text@),
        Err(source) => Err(source),
    }
}

/// Whether writing `value` can give `payload`.
pub open spec fn writes<T, J: Json<T>>(
    json: J,
    value: T,
    payload: Result<Seq<u8>, serde_json::Error>,
) -> bool {
    exists|text: Result<Vec<u8>, serde_json::Error>| #[trigger]
        call_ensures(J::write, (&json, &value), text) && payload == as_payload(text)
}

/// Whether reading `payload` can give `value`.
pub open spec fn reads<T, J: Json<T>>(
    json: J,
    payload: Seq<u8>,
    value: Result<T, serde_json::Error>,
) -> bool {
    exists|text: &[u8]| text@ == payload && #[trigger] call_ensures(J::read, (&json, text), value)
}

/// Writes `value` as a payload.
pub(crate) fn write_value<T, J: Json<T>>(json: &J, value: &T) -> (text: Result<Vec<u8>, serde_json::Error>)
    ensures
        writes(*json, *value, as_payload(text)),
{
    json.write(value)
}

/// Reads a value from a payload.
pub(crate) fn read_value<T, J: Json<T>>(json: &J, text: &[u8]) -> (value: Result<T, serde_json::Error>)
    ensures
        reads(*json, text@, value),
{
    json.read(text)
}

/// Whether a value that was written is read back as it was.
pub open spec fn lossless<T: View, J: Json<T>>(json: J) -> bool {
    forall|value: T, payload: Seq<u8>, back: Result<T, serde_json::Error>|
        #[trigger] writes(json, value, Ok(payload)) && #[trigger] reads(json, payload, back) ==> (
        back matches Ok(read) && read@ == value@)
}

/// Whether writing a value always gives the same text, or the same error.
pub open spec fn one_text<T, J: Json<T>>(json: J) -> bool {
    forall|
        value: T,
        one: Result<Seq<u8>, serde_json::Error>,
        other: Result<Seq<u8>, serde_json::Error>,
    |
        #[trigger] writes(json, value, one) && #[trigger] writes(json, value, other) ==> one
            == other
}

/// Whether reading a text always gives the same value, or the same error.
pub open spec fn one_value<T: View, J: Json<T>>(json: J) -> bool {
    &&& forall|payload: Seq<u8>, one: T, other: T|
        #[trigger] reads(json, payload, Ok(one)) && #[trigger] reads(json, payload, Ok(other))
            ==> one@ == other@
    &&& forall|payload: Seq<u8>, one: serde_json::Error, other: serde_json::Error|
        #[trigger] reads::<T, J>(json, payload, Err(one)) && #[trigger] reads::<T, J>(
            json,
            payload,
            Err(other),
        ) ==> one == other
    &&& forall|payload: Seq<u8>, value: T, source: serde_json::Error|
        !(#[trigger] reads(json, payload, Ok(value)) && #[trigger] reads::<T, J>(
            json,
            payload,
            Err(source),
        ))
}

/// Whether different values have different texts.
pub open spec fn distinct_texts<T: View, J: Json<T>>(json: J) -> bool {
    forall|one: T, other: T, payload: Seq<u8>|
        #[trigger] writes(json, one, Ok(payload)) && #[trigger] writes(json, other, Ok(payload))
            ==> one@ == other@
}

/// [`lossless`] for every type that a frame carries.
pub open spec fn lossless_frames<J: FrameJson>(json: J) -> bool {
    &&& lossless::<HandshakeRequest, J>(json)
    &&& lossless::<HandshakeResponse, J>(json)
    &&& lossless::<RequestHead, J>(json)
    &&& lossless::<ResponseHead, J>(json)
    &&& lossless::<TunnelError, J>(json)
}

/// [`one_text`] for every type that a frame carries.
pub open spec fn one_text_frames<J: FrameJson>(json: J) -> bool {
    &&& one_text::<HandshakeRequest, J>(json)
    &&& one_text::<HandshakeResponse, J>(json)
    &&& one_text::<RequestHead, J>(json)
    &&& one_text::<ResponseHead, J>(json)
    &&& one_text::<TunnelError, J>(json)
}

/// [`one_value`] for every type that a frame carries.
pub open spec fn one_value_frames<J: FrameJson>(json: J) -> bool {
    &&& one_value::<HandshakeRequest, J>(json)
    &&& one_value::<HandshakeResponse, J>(json)
    &&& one_value::<RequestHead, J>(json)
    &&& one_value::<ResponseHead, J>(json)
    &&& one_value::<TunnelError, J>(json)
}

/// [`distinct_texts`] for every type that a frame carries.
pub open spec fn distinct_texts_frames<J: FrameJson>(json: J) -> bool {
    &&& distinct_texts::<HandshakeRequest, J>(json)
    &&& distinct_texts::<HandshakeResponse, J>(json)
    &&& distinct_texts::<RequestHead, J>(json)
    &&& distinct_texts::<ResponseHead, J>(json)
    &&& distinct_texts::<TunnelError, J>(json)
}

} // verus!
