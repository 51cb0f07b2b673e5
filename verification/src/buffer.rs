//! The reusable byte buffer of a pump, kept in a `bytes::BytesMut`.
//!
//! Nothing inside a `BytesMut` is visible to the verifier. What the buffer
//! holds is therefore given a name, `buffer_bytes`, and each call into the
//! `bytes` crate stands in a small function whose contract says, over that
//! name, what the call does. These contracts are believed, not proved.

use bytes::BytesMut;
use vstd::prelude::*;

verus! {

#[verifier::external_type_specification]
#[verifier::external_body]
pub struct ExBytesMut(bytes::BytesMut);

/// The bytes that a buffer holds, first to last.
pub uninterp spec fn buffer_bytes(buffer: BytesMut) -> Seq<u8>;

/// `BytesMut::with_capacity`: a fresh buffer holds no bytes, whatever room
/// was asked for. The allocation behind it is that of a `Vec`, which
/// refuses more than `isize::MAX` bytes.
#[verifier::external_body]
pub(crate) fn buffer_with_capacity(capacity: usize) -> (buffer: BytesMut)
    requires
        capacity <= isize::MAX,
    ensures
        buffer_bytes(buffer) == Seq::<u8>::empty(),
{
    BytesMut::with_capacity(capacity)
}

/// `BytesMut::len`: the number of bytes held.
#[verifier::external_body]
pub(crate) fn buffer_len(buffer: &BytesMut) -> (len: usize)
    ensures
        len == buffer_bytes(*buffer).len(),
{
    buffer.len()
}

/// `BytesMut::extend_from_slice`: the bytes of `data` are appended, in
/// order, behind what the buffer held. Growing past `isize::MAX` bytes
/// would panic and is left out.
#[verifier::external_body]
pub(crate) fn buffer_extend(buffer: &mut BytesMut, data: &[u8])
    requires
        buffer_bytes(*old(buffer)).len() + data@.len() <= isize::MAX,
    ensures
        buffer_bytes(*final(buffer)) == buffer_bytes(*old(buffer)) + data@,
{
    buffer.extend_from_slice(data)
}

/// `BytesMut::clear`: afterwards the buffer holds no bytes.
#[verifier::external_body]
pub(crate) fn buffer_clear(buffer: &mut BytesMut)
    ensures
        buffer_bytes(*final(buffer)) == Seq::<u8>::empty(),
{
    buffer.clear()
}

/// `AsRef::as_ref` of `BytesMut`: the held bytes as one slice.
#[verifier::external_body]
pub(crate) fn buffer_as_slice(buffer: &BytesMut) -> (bytes: &[u8])
    ensures
        bytes@ == buffer_bytes(*buffer),
{
    buffer.as_ref()
}

} // verus!
