//! What the frame codec relies on from the `bytes` crate.
//!
//! [`BytesMut`] and [`Bytes`] are opaque to the verifier. Each has one name for
//! what it holds, [`buffered`] and [`chunk`], and every method that the codec
//! calls is described over these names. None of the descriptions here is proved:
//! they state what the source of `bytes` shows.

use bytes::{Buf, BufMut, Bytes, BytesMut};
use vstd::prelude::*;

verus! {

/// The growable byte buffer of the `bytes` crate.
#[verifier::external_type_specification]
#[verifier::external_body]
pub struct ExBytesMut(bytes::BytesMut);

/// The cheaply cloned byte string of the `bytes` crate.
#[verifier::external_type_specification]
#[verifier::external_body]
pub struct ExBytes(bytes::Bytes);

/// The bytes that a buffer holds, in order.
pub uninterp spec fn buffered(buffer: BytesMut) -> Seq<u8>;

/// The bytes that a byte string holds, in order.
pub uninterp spec fn chunk(bytes: Bytes) -> Seq<u8>;

/// The four bytes of `n`, most significant first.
pub open spec fn be32(n: u32) -> Seq<u8> {
    seq![
        (n / 0x100_0000) as u8,
        (n / 0x1_0000 % 0x100) as u8,
        (n / 0x100 % 0x100) as u8,
        (n % 0x100) as u8,
    ]
}

/// Whether a buffer of `len` bytes can take `more` bytes on every machine.
///
/// No allocation exceeds `isize::MAX` bytes. The storage behind a buffer can be
/// twice as long as what it holds, since bytes that were consumed may still
/// stand before it, and growing doubles the storage; hence the factor.
pub open spec fn has_room(len: nat, more: nat) -> bool {
    4 * (len + more) <= isize::MAX
}

/// `BytesMut::new` makes a buffer that holds nothing.
pub assume_specification[ BytesMut::new ]() -> (buffer: BytesMut)
    ensures
        buffered(buffer) == Seq::<u8>::empty(),
;

/// `BytesMut::reserve` makes room for `additional` bytes and keeps the contents.
pub assume_specification[ BytesMut::reserve ](buffer: &mut BytesMut, additional: usize)
    requires
        has_room(buffered(*old(buffer)).len(), additional as nat),
    ensures
        buffered(*final(buffer)) == buffered(*old(buffer)),
;

/// `BytesMut::freeze` turns a buffer into a byte string with the same contents.
pub assume_specification[ BytesMut::freeze ](buffer: BytesMut) -> (bytes: Bytes)
    ensures
        chunk(bytes) == buffered(buffer),
;

/// `BytesMut::split_to` takes the first `at` bytes out of a buffer and leaves the
/// rest in it.
pub assume_specification[ BytesMut::split_to ](buffer: &mut BytesMut, at: usize) -> (head: BytesMut)
    requires
        at <= buffered(*old(buffer)).len(),
    ensures
        buffered(head) == buffered(*old(buffer)).take(at as int),
        buffered(*final(buffer)) == buffered(*old(buffer)).skip(at as int),
;

/// `Deref` of `BytesMut` gives the contents of a buffer as a slice.
pub assume_specification[ <BytesMut as core::ops::Deref>::deref ](buffer: &BytesMut) -> (bytes: &[u8])
    ensures
        bytes@ == buffered(*buffer),
;

/// `Buf::advance` drops the first `cnt` bytes of a buffer.
pub assume_specification[ <BytesMut as Buf>::advance ](buffer: &mut BytesMut, cnt: usize)
    requires
        cnt <= buffered(*old(buffer)).len(),
    ensures
        buffered(*final(buffer)) == buffered(*old(buffer)).skip(cnt as int),
;

/// `BufMut::put_slice` appends `src` to a buffer.
pub assume_specification[ <BytesMut as BufMut>::put_slice ](buffer: &mut BytesMut, src: &[u8])
    requires
        has_room(buffered(*old(buffer)).len(), src@.len()),
    ensures
        buffered(*final(buffer)) == buffered(*old(buffer)) + src@,
;

/// `BufMut::put_u8` appends one byte to a buffer.
#[verifier::external_body]
pub(crate) fn put_u8(buffer: &mut BytesMut, n: u8)
    requires
        has_room(buffered(*old(buffer)).len(), 1),
    ensures
        buffered(*final(buffer)) == buffered(*old(buffer)).push(n),
{
    buffer.put_u8(n);
}

/// `BufMut::put_u32` appends the four bytes of `n`, most significant first, to a
/// buffer.
#[verifier::external_body]
pub(crate) fn put_u32(buffer: &mut BytesMut, n: u32)
    requires
        has_room(buffered(*old(buffer)).len(), 4),
    ensures
        buffered(*final(buffer)) == buffered(*old(buffer)) + be32(n),
{
    buffer.put_u32(n);
}

/// `Bytes::new` makes a byte string that holds nothing.
pub assume_specification[ Bytes::new ]() -> (bytes: Bytes)
    ensures
        chunk(bytes) == Seq::<u8>::empty(),
;

/// `Clone` of `Bytes` gives a byte string with the same contents.
pub assume_specification[ <Bytes as Clone>::clone ](bytes: &Bytes) -> (copy: Bytes)
    ensures
        chunk(copy) == chunk(*bytes),
;

/// `Deref` of `Bytes` gives the contents of a byte string as a slice.
pub assume_specification[ <Bytes as core::ops::Deref>::deref ](bytes: &Bytes) -> (slice: &[u8])
    ensures
        slice@ == chunk(*bytes),
;

/// `From<Vec<u8>>` for `Bytes` keeps the bytes of the vector.
pub assume_specification[ <Bytes as From<Vec<u8>>>::from ](vec: Vec<u8>) -> (bytes: Bytes)
    ensures
        chunk(bytes) == vec@,
;

} // verus!
