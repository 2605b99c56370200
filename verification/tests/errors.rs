//! How errors read.

use mcpg_tunnel_proto::ProtoError;

#[test]
fn sizes_read_in_decimal() {
    let error = ProtoError::FrameTooLarge {
        len: 16_777_217,
        max: 16_777_216,
    };
    assert_eq!(
        error.to_string(),
        "frame payload too large: 16777217 bytes (max 16777216)"
    );
    let error = ProtoError::FrameTooLarge {
        len: u32::MAX,
        max: 0,
    };
    assert_eq!(
        error.to_string(),
        "frame payload too large: 4294967295 bytes (max 0)"
    );
}

#[test]
fn kind_byte_reads_as_two_hex_digits() {
    for kind in 0..=255u8 {
        assert_eq!(
            ProtoError::UnknownKind(kind).to_string(),
            format!("unknown frame kind byte: 0x{kind:02x}")
        );
    }
}

#[test]
fn wrapped_errors_read_after_their_prefix() {
    let source = serde_json::from_slice::<serde_json::Value>(b"{").unwrap_err();
    let shown = source.to_string();
    let error = ProtoError::from(source);
    assert!(matches!(error, ProtoError::Json(_)));
    assert_eq!(
        error.to_string(),
        format!("frame payload (de)serialization failed: {shown}")
    );

    let error = ProtoError::from(std::io::Error::other("pipe broke"));
    assert!(matches!(error, ProtoError::Io(_)));
    assert_eq!(error.to_string(), "i/o error: pipe broke");
}

#[test]
fn reasons_read_after_their_prefix() {
    let error = ProtoError::VersionMismatch {
        agent: "1.0".to_owned(),
        relay: "2.0".to_owned(),
    };
    assert_eq!(
        error.to_string(),
        "tunnel protocol version mismatch: agent 1.0, relay 2.0"
    );
    assert_eq!(
        ProtoError::InvalidSpec("why".to_owned()).to_string(),
        "invalid tunnel spec: why"
    );
    assert_eq!(
        ProtoError::SessionClosed.to_string(),
        "tunnel session closed"
    );
    assert_eq!(
        ProtoError::Rejected("why".to_owned()).to_string(),
        "tunnel handshake rejected: why"
    );
    assert_eq!(
        ProtoError::Protocol("why".to_owned()).to_string(),
        "tunnel protocol violation: why"
    );
}
