//! How errors read.

use crate::error::{decimal, digit, ProtoError};
use vstd::prelude::*;

verus! {

/// The number that decimal digits make.
pub open spec fn number(digits: Seq<char>) -> int
    decreases digits.len(),
{
    if digits.len() == 0 {
        0
    } else {
        10 * number(digits.drop_last()) + (digits.last() as int - '0' as int)
    }
}

/// Whether `text` is `n` in decimal: digits that make `n`, at least one, the first not a zero
/// unless it is the only one.
pub open spec fn is_in_decimal(text: Seq<char>, n: int) -> bool {
    &&& text.len() > 0
    &&& forall|i: int| 0 <= i < text.len() ==> '0' <= #[trigger] text[i] <= '9'
    &&& text.len() > 1 ==> text[0] != '0'
    &&& number(text) == n
}

/// Whether `c` is the lower-case hexadecimal digit of value `d`.
pub open spec fn is_hex_digit(c: char, d: int) -> bool {
    ||| 0 <= d < 10 && c as int == '0' as int + d
    ||| 10 <= d < 16 && c as int == 'a' as int + d - 10
}

/// Whether `text` is what an error of either kind displays as, behind a prefix.
pub open spec fn is_shown_behind<E: core::fmt::Display>(
    text: Seq<char>,
    prefix: Seq<char>,
    source: E,
) -> bool {
    exists|shown: String| #[trigger]
        vstd::string::to_string_from_display_ensures::<E>(&source, shown) && text == prefix
            + shown@
}

/// Whether `text` is `size` in decimal and `cap` in decimal, in the sentence on sizes.
pub open spec fn tells_sizes(text: Seq<char>, len: u32, max: u32) -> bool {
    exists|size: Seq<char>, cap: Seq<char>|
        #![trigger is_in_decimal(size, len as int), is_in_decimal(cap, max as int)]
        is_in_decimal(size, len as int) && is_in_decimal(cap, max as int) && text
            == "frame payload too large: "@ + size + " bytes (max "@ + cap + ")"@
}

/// Whether `text` is the sentence for `error`.
pub open spec fn is_sentence_for(text: Seq<char>, error: ProtoError) -> bool {
    match error {
        ProtoError::FrameTooLarge { len, max } => tells_sizes(text, len, max),
        ProtoError::UnknownKind(kind) => {
            let prefix = "unknown frame kind byte: 0x"@;
            &&& text.len() == prefix.len() + 2
            &&& prefix.is_prefix_of(text)
            &&& is_hex_digit(text[prefix.len() as int], kind as int / 16)
            &&& is_hex_digit(text[prefix.len() as int + 1], kind as int % 16)
        },
        ProtoError::Json(source) => is_shown_behind(
            text,
            "frame payload (de)serialization failed: "@,
            source,
        ),
        ProtoError::VersionMismatch { agent, relay } => text
            == "tunnel protocol version mismatch: agent "@ + agent@ + ", relay "@ + relay@,
        ProtoError::InvalidSpec(reason) => text == "invalid tunnel spec: "@ + reason@,
        ProtoError::Io(source) => is_shown_behind(text, "i/o error: "@, source),
        ProtoError::SessionClosed => text == "tunnel session closed"@,
        ProtoError::Rejected(reason) => text == "tunnel handshake rejected: "@ + reason@,
        ProtoError::Protocol(reason) => text == "tunnel protocol violation: "@ + reason@,
    }
}

/// A number is written in decimal.
proof fn lemma_decimal(n: nat)
    ensures
        is_in_decimal(decimal(n), n as int),
        n > 0 ==> decimal(n)[0] != '0',
    decreases n,
{
    reveal_strlit("0123456789abcdef");
    if n < 10 {
        let text = decimal(n);
        assert(text.drop_last() =~= Seq::empty());
        assert(text.last() == digit(n));
        assert(number(Seq::<char>::empty()) == 0);
        assert(number(text) == n);
    } else {
        let rest = decimal(n / 10);
        lemma_decimal(n / 10);
        let text = decimal(n);
        assert(text.drop_last() =~= rest);
        assert(text.last() == digit(n % 10));
        assert forall|i: int| 0 <= i < text.len() implies '0' <= #[trigger] text[i] <= '9' by {
            if i < rest.len() {
                assert(text[i] == rest[i]);
            }
        }
        assert(text[0] == rest[0]);
        assert(number(text) == 10 * number(rest) + n % 10);
    }
}

/// How an error reads is the sentence for it.
pub(crate) proof fn lemma_sentence(error: ProtoError, text: Seq<char>)
    requires
        error.reads_as(text),
    ensures
        is_sentence_for(text, error),
{
    match error {
        ProtoError::FrameTooLarge { len, max } => {
            lemma_decimal(len as nat);
            lemma_decimal(max as nat);
            assert(is_in_decimal(decimal(len as nat), len as int));
            assert(is_in_decimal(decimal(max as nat), max as int));
        },
        ProtoError::UnknownKind(kind) => {
            reveal_strlit("0123456789abcdef");
            let prefix = "unknown frame kind byte: 0x"@;
            assert(text[prefix.len() as int] == digit((kind / 16) as nat));
            assert(text[prefix.len() as int + 1] == digit((kind % 16) as nat));
            assert(text.take(prefix.len() as int) =~= prefix);
        },
        ProtoError::Json(source) => {
            assert(crate::error::shows_json_error(
                "frame payload (de)serialization failed: "@,
                source,
                text,
            ));
            assert(is_shown_behind(text, "frame payload (de)serialization failed: "@, source));
        },
        ProtoError::Io(source) => {
            assert(crate::error::shows_io_error("i/o error: "@, source, text));
            assert(is_shown_behind(text, "i/o error: "@, source));
        },
        _ => {},
    }
}

/// Every error is told in full: sizes in decimal, a kind byte as two hexadecimal digits, a
/// wrapped error as it displays, and every reason and version word for word.
pub proof fn every_error_is_told_in_full(error: ProtoError, text: String)
    requires
        call_ensures(ProtoError::to_string, (&error,), text),
    ensures
        is_sentence_for(text@, error),
{
    lemma_sentence(error, text@);
}

/// Any error may be asked how it reads.
pub proof fn errors_can_always_be_told(error: ProtoError)
    ensures
        call_requires(ProtoError::to_string, (&error,)),
{
}

/// A JSON error and an I/O error are kept as they are when they become protocol errors.
pub proof fn wrapped_errors_are_kept(
    json: serde_json::Error,
    io: std::io::Error,
    from_json: ProtoError,
    from_io: ProtoError,
)
    requires
        call_ensures(<ProtoError as From<serde_json::Error>>::from, (json,), from_json),
        call_ensures(<ProtoError as From<std::io::Error>>::from, (io,), from_io),
    ensures
        from_json == ProtoError::Json(json),
        from_io == ProtoError::Io(io),
{
}

} // verus!
