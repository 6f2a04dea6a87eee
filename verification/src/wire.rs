//! Byte buffers of the `bytes` crate, as the serializers see them.
//!
//! `Bytes` and `BytesMut` are opaque to the verifier. What they hold is named
//! by [`bytes_contents`] and [`buf_contents`]; the functions below are the only
//! places where the crate is called, and their contracts are taken on trust
//! from its source.

use bytes::{Buf, BufMut, Bytes, BytesMut};
use vstd::prelude::*;

verus! {

/// `bytes::Bytes`, an immutable buffer with a read cursor. Nothing inside
/// it is visible to the verifier.
#[verifier::external_type_specification]
#[verifier::external_body]
pub struct ExBytes(bytes::Bytes);

/// `bytes::BytesMut`, a buffer that grows as bytes are put into it. Nothing
/// inside it is visible to the verifier.
#[verifier::external_type_specification]
#[verifier::external_body]
pub struct ExBytesMut(bytes::BytesMut);

/// The bytes that an immutable buffer holds, from its cursor to its end.
pub uninterp spec fn bytes_contents(b: Bytes) -> Seq<u8>;

/// The bytes that a growable buffer holds.
pub uninterp spec fn buf_contents(b: BytesMut) -> Seq<u8>;

/// The two bytes of a 16-bit value, most significant first.
pub open spec fn be16(n: u16) -> Seq<u8> {
    seq![(n / 256) as u8, (n % 256) as u8]
}

/// The 16-bit value whose big-endian bytes are `hi`, `lo`.
pub open spec fn be16_value(hi: u8, lo: u8) -> u16 {
    (hi * 256 + lo) as u16
}

/// `BytesMut::with_capacity`: the new buffer holds no bytes, whatever room
/// was asked for. The call panics on a capacity that no allocation can have,
/// which the precondition rules out.
#[verifier::external_body]
pub(crate) fn buf_with_capacity(capacity: usize) -> (buf: BytesMut)
    requires
        capacity <= isize::MAX,
    ensures
        buf_contents(buf) == Seq::<u8>::empty(),
{
    BytesMut::with_capacity(capacity)
}

/// `BufMut::put_u8` on a `BytesMut`: appends the byte. The buffer grows as
/// needed; here and in the two functions that follow, the precondition keeps
/// the new length within what an allocation can hold.
#[verifier::external_body]
pub(crate) fn buf_put_u8(buf: &mut BytesMut, n: u8)
    requires
        buf_contents(*old(buf)).len() + 1 <= isize::MAX,
    ensures
        buf_contents(*final(buf)) == buf_contents(*old(buf)).push(n),
{
    buf.put_u8(n)
}

/// `BufMut::put_u16` on a `BytesMut`: appends the value's two bytes in
/// big-endian order.
#[verifier::external_body]
pub(crate) fn buf_put_u16(buf: &mut BytesMut, n: u16)
    requires
        buf_contents(*old(buf)).len() + 2 <= isize::MAX,
    ensures
        buf_contents(*final(buf)) == buf_contents(*old(buf)) + be16(n),
{
    buf.put_u16(n)
}

/// `BufMut::put_slice` on a `BytesMut`: appends the slice, byte for byte.
#[verifier::external_body]
pub(crate) fn buf_put_slice(buf: &mut BytesMut, src: &[u8])
    requires
        buf_contents(*old(buf)).len() + src@.len() <= isize::MAX,
    ensures
        buf_contents(*final(buf)) == buf_contents(*old(buf)) + src@,
{
    buf.put_slice(src)
}

/// `BytesMut::freeze`: the immutable buffer holds what the growable one held.
#[verifier::external_body]
pub(crate) fn buf_freeze(buf: BytesMut) -> (bytes: Bytes)
    ensures
        bytes_contents(bytes) == buf_contents(buf),
{
    buf.freeze()
}

/// `Bytes::clone`: the copy holds the same bytes.
#[verifier::external_body]
pub(crate) fn bytes_clone(bytes: &Bytes) -> (copy: Bytes)
    ensures
        bytes_contents(copy) == bytes_contents(*bytes),
{
    bytes.clone()
}

/// `Buf::remaining` on a `Bytes`: the number of bytes from the cursor to the
/// end.
#[verifier::external_body]
pub(crate) fn bytes_remaining(bytes: &Bytes) -> (n: usize)
    ensures
        n == bytes_contents(*bytes).len(),
{
    bytes.remaining()
}

/// `Buf::get_u16` on a `Bytes`: reads the first two bytes as a big-endian
/// value and moves the cursor past them. The call panics on fewer than two
/// bytes, which the precondition rules out.
#[verifier::external_body]
pub(crate) fn bytes_get_u16(bytes: &mut Bytes) -> (n: u16)
    requires
        bytes_contents(*old(bytes)).len() >= 2,
    ensures
        n == be16_value(bytes_contents(*old(bytes))[0], bytes_contents(*old(bytes))[1]),
        bytes_contents(*final(bytes)) == bytes_contents(*old(bytes)).skip(2),
{
    bytes.get_u16()
}

/// `AsRef<[u8]>` of a `Bytes`: the slice of the bytes it holds.
#[verifier::external_body]
pub(crate) fn bytes_as_slice(bytes: &Bytes) -> (slice: &[u8])
    ensures
        slice@ == bytes_contents(*bytes),
{
    bytes.as_ref()
}

} // verus!
