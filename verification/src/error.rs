//! The errors that the protocol layer raises locally.

use vstd::prelude::*;

verus! {

/// The error of `serde_json`.
#[verifier::external_type_specification]
#[verifier::external_body]
pub struct ExJsonError(serde_json::Error);

/// The I/O error of the standard library.
#[verifier::external_type_specification]
#[verifier::external_body]
pub struct ExIoError(std::io::Error);

/// A local protocol error raised while encoding or decoding frames, or while
/// validating a handshake. Distinct from [`crate::frame::TunnelError`], which is
/// an *in-band* error carried to the peer as a frame.
#[derive(Debug)]
pub enum ProtoError {
    /// A frame's declared payload length exceeds the codec's hard cap. A remote
    /// peer must never be able to make us allocate an unbounded buffer from a
    /// single length prefix.
    FrameTooLarge { len: u32, max: u32 },
    /// The leading kind byte does not map to a known frame variant.
    UnknownKind(u8),
    /// A structured (JSON-carrying) frame failed to (de)serialize.
    Json(serde_json::Error),
    /// The two endpoints could not agree on a protocol version.
    VersionMismatch { agent: String, relay: String },
    /// A [`crate::handshake::TunnelSpec`] violated an invariant (e.g. `e2ee`
    /// trust requested on a `public` tunnel).
    InvalidSpec(String),
    /// Underlying transport / stream I/O failed.
    Io(std::io::Error),
    /// The mux session was closed while an operation was in flight (the peer
    /// hung up, or the local session handle was dropped).
    SessionClosed,
    /// The relay refused the handshake (bad spec, quota, entitlement, or auth).
    /// Carries the relay's in-band error code and message.
    Rejected(String),
    /// A peer violated the frame protocol: an out-of-order or malformed frame.
    Protocol(String),
}

/// A [`ProtoError`] with its strings as sequences of characters.
pub enum ProtoErrorView {
    FrameTooLarge { len: u32, max: u32 },
    UnknownKind(u8),
    Json(serde_json::Error),
    VersionMismatch { agent: Seq<char>, relay: Seq<char> },
    InvalidSpec(Seq<char>),
    Io(std::io::Error),
    SessionClosed,
    Rejected(Seq<char>),
    Protocol(Seq<char>),
}

impl View for ProtoError {
    type V = ProtoErrorView;

    open spec fn view(&self) -> ProtoErrorView {
        match *self {
            ProtoError::FrameTooLarge { len, max } => ProtoErrorView::FrameTooLarge { len, max },
            ProtoError::UnknownKind(kind) => ProtoErrorView::UnknownKind(kind),
            ProtoError::Json(source) => ProtoErrorView::Json(source),
            ProtoError::VersionMismatch { agent, relay } => ProtoErrorView::VersionMismatch {
                agent: agent@,
                relay: relay@,
            },
            ProtoError::InvalidSpec(reason) => ProtoErrorView::InvalidSpec(reason@),
            ProtoError::Io(source) => ProtoErrorView::Io(source),
            ProtoError::SessionClosed => ProtoErrorView::SessionClosed,
            ProtoError::Rejected(reason) => ProtoErrorView::Rejected(reason@),
            ProtoError::Protocol(reason) => ProtoErrorView::Protocol(reason@),
        }
    }
}

impl From<serde_json::Error> for ProtoError {
    fn from(source: serde_json::Error) -> (error: Self) {
        ProtoError::Json(source)
    }
}

impl vstd::std_specs::convert::FromSpecImpl<serde_json::Error> for ProtoError {
    open spec fn obeys_from_spec() -> bool {
        true
    }

    open spec fn from_spec(source: serde_json::Error) -> Self {
        ProtoError::Json(source)
    }
}

impl From<std::io::Error> for ProtoError {
    fn from(source: std::io::Error) -> (error: Self) {
        ProtoError::Io(source)
    }
}

impl vstd::std_specs::convert::FromSpecImpl<std::io::Error> for ProtoError {
    open spec fn obeys_from_spec() -> bool {
        true
    }

    open spec fn from_spec(source: std::io::Error) -> Self {
        ProtoError::Io(source)
    }
}

/// The digit of value `d`, in lower case, for `d` below 16.
pub open spec fn digit(d: nat) -> char {
    "0123456789abcdef"@[d as int]
}

/// `n` in decimal, without leading zeros.
pub open spec fn decimal(n: nat) -> Seq<char>
    decreases n,
{
    if n < 10 {
        seq![digit(n)]
    } else {
        decimal(n / 10).push(digit(n % 10))
    }
}

/// A byte as two hexadecimal digits.
pub open spec fn hex_byte(byte: u8) -> Seq<char> {
    seq![digit((byte / 16) as nat), digit((byte % 16) as nat)]
}

/// Whether `text` is `prefix` followed by what a JSON error displays as.
pub open spec fn shows_json_error(prefix: Seq<char>, source: serde_json::Error, text: Seq<char>) -> bool {
    exists|shown: String| #[trigger]
        vstd::string::to_string_from_display_ensures(&source, shown) && text == prefix + shown@
}

/// Whether `text` is `prefix` followed by what an I/O error displays as.
pub open spec fn shows_io_error(prefix: Seq<char>, source: std::io::Error, text: Seq<char>) -> bool {
    exists|shown: String| #[trigger]
        vstd::string::to_string_from_display_ensures(&source, shown) && text == prefix + shown@
}

impl ProtoError {
    /// Whether `text` is how this error reads. An error that wraps another ends
    /// in what the wrapped one displays as.
    pub open spec fn reads_as(self, text: Seq<char>) -> bool {
        match self@ {
            ProtoErrorView::FrameTooLarge { len, max } => text == "frame payload too large: "@
                + decimal(len as nat) + " bytes (max "@ + decimal(max as nat) + ")"@,
            ProtoErrorView::UnknownKind(kind) => text == "unknown frame kind byte: 0x"@ + hex_byte(
                kind,
            ),
            ProtoErrorView::Json(source) => shows_json_error(
                "frame payload (de)serialization failed: "@,
                source,
                text,
            ),
            ProtoErrorView::VersionMismatch { agent, relay } => text
                == "tunnel protocol version mismatch: agent "@ + agent + ", relay "@ + relay,
            ProtoErrorView::InvalidSpec(reason) => text == "invalid tunnel spec: "@ + reason,
            ProtoErrorView::Io(source) => shows_io_error("i/o error: "@, source, text),
            ProtoErrorView::SessionClosed => text == "tunnel session closed"@,
            ProtoErrorView::Rejected(reason) => text == "tunnel handshake rejected: "@ + reason,
            ProtoErrorView::Protocol(reason) => text == "tunnel protocol violation: "@ + reason,
        }
    }

    /// The error as a sentence.
    pub fn to_string(&self) -> (text: String)
        ensures
            self.reads_as(text@),
    {
        match self {
            ProtoError::FrameTooLarge { len, max } => {
                let mut text = "frame payload too large: ".to_owned();
                append_decimal(&mut text, *len);
                text.append(" bytes (max ");
                append_decimal(&mut text, *max);
                text.append(")");
                text
            },
            ProtoError::UnknownKind(kind) => {
                let mut text = "unknown frame kind byte: 0x".to_owned();
                text.append(digit_str(*kind / 16));
                text.append(digit_str(*kind % 16));
                assert(text@ =~= "unknown frame kind byte: 0x"@ + hex_byte(*kind));
                text
            },
            ProtoError::Json(source) => {
                let shown = source.to_string();
                let text = "frame payload (de)serialization failed: ".to_owned().concat(
                    shown.as_str(),
                );
                assert(shows_json_error(
                    "frame payload (de)serialization failed: "@,
                    *source,
                    text@,
                ));
                text
            },
            ProtoError::VersionMismatch { agent, relay } => {
                let mut text = "tunnel protocol version mismatch: agent ".to_owned();
                text.append(agent.as_str());
                text.append(", relay ");
                text.append(relay.as_str());
                text
            },
            ProtoError::InvalidSpec(reason) => {
                "invalid tunnel spec: ".to_owned().concat(reason.as_str())
            },
            ProtoError::Io(source) => {
                let shown = source.to_string();
                let text = "i/o error: ".to_owned().concat(shown.as_str());
                assert(shows_io_error("i/o error: "@, *source, text@));
                text
            },
            ProtoError::SessionClosed => "tunnel session closed".to_owned(),
            ProtoError::Rejected(reason) => {
                "tunnel handshake rejected: ".to_owned().concat(reason.as_str())
            },
            ProtoError::Protocol(reason) => {
                "tunnel protocol violation: ".to_owned().concat(reason.as_str())
            },
        }
    }
}

/// The digit of value `d` as a string.
fn digit_str(d: u8) -> (s: &'static str)
    requires
        d < 16,
    ensures
        s@ == seq![digit(d as nat)],
{
    proof {
        reveal_strlit("0123456789abcdef");
    }
    "0123456789abcdef".substring_char(d as usize, d as usize + 1)
}

/// Appends `n` in decimal.
fn append_decimal(text: &mut String, n: u32)
    ensures
        final(text)@ == old(text)@ + decimal(n as nat),
    decreases n,
{
    if n >= 10 {
        append_decimal(text, n / 10);
    }
    text.append(digit_str((n % 10) as u8));
    assert(text@ =~= old(text)@ + decimal(n as nat));
}

} // verus!
