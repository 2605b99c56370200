# mcpg-tunnel-proto

Wire protocol for the MCPG reverse tunnel, verified with Verus: frames, the session
handshake, and the decisions of the mux driver.

- `src/` is the verified library. `laws.rs` holds the properties that span several
  calls: decoding undoes encoding, frames arrive in order however their bytes are cut,
  no byte is lost, a refused handshake is answered before it fails, opens are answered
  oldest first, a shutdown refuses what is pending and then closes.
- `app/` is the library at work: JSON by serde for each type that a frame carries, a
  `tokio_util` codec, and the session layer over yamux. Which type a frame carries, and
  what is done when, the library decides.
- `tests/` runs the library on concrete values, and over a real yamux connection.

What is assumed rather than proved stands in `src/buffer.rs` (the `bytes` crate) and
`src/convert.rs` (conversions into `String`); `src/error.rs` declares two error types.

## Wire format

One frame is `[kind: u8][len: u32 big-endian][payload: len]`, with `len` at most 16 MiB.
A longer length is refused as soon as the header is there. Bytes leave the buffer only
together with the frame that they make up.
