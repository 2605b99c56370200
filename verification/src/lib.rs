//! Wire protocol for the MCPG reverse tunnel.
//!
//! The tunnel carries **HTTP request/response semantics over a multiplexed byte
//! session**: a self-hosted gateway dials out to a relay, the relay forwards each
//! inbound MCP request as framed bytes down one mux stream, and the gateway answers
//! on the same stream.
//!
//! - [`handshake`]: the shape of a tunnel ([`TunnelSpec`]), the messages that
//!   establish one, and version [`negotiate`]iation.
//! - [`http`]: the heads of requests and responses, and the origin that the relay
//!   attests.
//! - [`frame`] and [`codec`]: the length-prefixed [`Frame`] codec over a byte buffer.
//! - [`json`]: what the codec asks for to write and read structured payloads.
//! - [`session`]: the handshake on either end, as a machine from event to action.
//! - [`driver`]: the decisions of the task that owns a mux connection, likewise.
//! - [`error`]: what goes wrong locally, and how it reads.
//! - [`buffer`] and [`convert`]: what is assumed of the byte buffers of the `bytes`
//!   crate, and of conversions into `String`.
//! - [`laws`]: what each operation comes to, and what holds across calls, such as that
//!   decoding undoes encoding.
//!
//! Transports, the mux and JSON stay outside: the machines are told what came of
//! an action, and the codec is handed a [`FrameJson`].

pub mod buffer;
pub mod codec;
pub mod convert;
pub mod driver;
pub mod error;
pub mod frame;
pub mod handshake;
pub mod http;
pub mod json;
pub mod laws;
pub mod session;

pub use codec::FrameCodec;
pub use error::ProtoError;
pub use frame::{Frame, TunnelError, MAX_FRAME_LEN};
pub use handshake::{
    negotiate, Exposure, HandshakeRequest, HandshakeResponse, TrustMode, TunnelSpec,
    TUNNEL_PROTO_VERSION,
};
pub use http::{AttestedMeta, ClientIp, RequestHead, ResponseHead, TlsMeta};
pub use json::{FrameJson, Json};
