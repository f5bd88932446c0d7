//! The byte buffers of the `bytes` crate, as far as the codec reads and
//! fills them.

use bytes::{Buf, Bytes, BytesMut};
use vstd::prelude::*;

verus! {

#[verifier::external_type_specification]
#[verifier::external_body]
pub struct ExBytesMut(bytes::BytesMut);

#[verifier::external_type_specification]
#[verifier::external_body]
pub struct ExBytes(bytes::Bytes);

/// The bytes that a growable buffer holds, first to last.
pub uninterp spec fn buffer_bytes(buf: BytesMut) -> Seq<u8>;

/// The bytes that a frozen buffer holds, first to last.
pub uninterp spec fn frozen_bytes(buf: Bytes) -> Seq<u8>;

/// Borrows the contents of a `BytesMut` through its `Deref` to a byte slice:
/// the slice holds the buffer's bytes in order.
#[verifier::external_body]
pub(crate) fn as_slice(buf: &BytesMut) -> (s: &[u8])
    ensures
        s@ == buffer_bytes(*buf),
{
    &buf[..]
}

/// Calls `Buf::advance` on a `BytesMut`, which drops the first `n` bytes and
/// keeps the rest. It panics when `n` exceeds what the buffer holds, so that
/// is required not to happen.
#[verifier::external_body]
pub(crate) fn advance(buf: &mut BytesMut, n: usize)
    requires
        n <= buffer_bytes(*old(buf)).len(),
    ensures
        buffer_bytes(*final(buf)) == buffer_bytes(*old(buf)).skip(n as int),
{
    buf.advance(n)
}

/// Calls `BytesMut::extend_from_slice`, which appends the slice's bytes at
/// the end of the buffer.
#[verifier::external_body]
pub(crate) fn extend_from_slice(buf: &mut BytesMut, data: &[u8])
    ensures
        buffer_bytes(*final(buf)) == buffer_bytes(*old(buf)) + data@,
{
    buf.extend_from_slice(data)
}

/// Calls `Bytes::from` on a byte vector: the frozen buffer holds the
/// vector's bytes in order.
#[verifier::external_body]
pub(crate) fn freeze(data: Vec<u8>) -> (buf: Bytes)
    ensures
        frozen_bytes(buf) == data@,
{
    Bytes::from(data)
}

} // verus!
