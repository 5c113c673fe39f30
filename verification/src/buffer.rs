//! The parser's byte queue: a `bytes::BytesMut`, seen through the bytes it
//! holds.

use crate::wire::{be16, be32, be32_signed};
use bytes::{Buf, BytesMut};
use vstd::prelude::*;

verus! {

/// `bytes::BytesMut`, taken as it is: nothing of its inside is known but
/// what the functions below say of the bytes it holds.
#[verifier::external_type_specification]
#[verifier::external_body]
pub struct ExBytesMut(bytes::BytesMut);

/// The bytes that a buffer holds, the oldest first.
pub uninterp spec fn buf_view(buf: BytesMut) -> Seq<u8>;

/// `BytesMut::with_capacity`: a buffer that holds no bytes yet.
#[verifier::external_body]
pub(crate) fn buf_with_capacity(capacity: usize) -> (buf: BytesMut)
    requires
        capacity <= isize::MAX,
    ensures
        buf_view(buf) == Seq::<u8>::empty(),
{
    BytesMut::with_capacity(capacity)
}

/// `AsRef<[u8]>` of a `BytesMut`: the bytes it holds, as a slice.
#[verifier::external_body]
pub(crate) fn buf_slice(buf: &BytesMut) -> (bytes: &[u8])
    ensures
        bytes@ == buf_view(*buf),
{
    buf.as_ref()
}

/// `BytesMut::extend_from_slice`: the bytes of `chunk` are added at the
/// tail. The new length must be one that can be allocated.
#[verifier::external_body]
pub(crate) fn buf_extend(buf: &mut BytesMut, chunk: &[u8])
    requires
        buf_view(*old(buf)).len() + chunk@.len() <= isize::MAX,
    ensures
        buf_view(*final(buf)) == buf_view(*old(buf)) + chunk@,
{
    buf.extend_from_slice(chunk)
}

/// `Buf::advance` on a `BytesMut`: the first `count` bytes are dropped.
#[verifier::external_body]
pub(crate) fn buf_advance(buf: &mut BytesMut, count: usize)
    requires
        count <= buf_view(*old(buf)).len(),
    ensures
        buf_view(*final(buf)) == buf_view(*old(buf)).skip(count as int),
{
    buf.advance(count)
}

/// `Buf::get_u8` on a `BytesMut`: takes the first byte off the head.
#[verifier::external_body]
pub(crate) fn buf_get_u8(buf: &mut BytesMut) -> (value: u8)
    requires
        buf_view(*old(buf)).len() >= 1,
    ensures
        value == buf_view(*old(buf))[0],
        buf_view(*final(buf)) == buf_view(*old(buf)).skip(1),
{
    buf.get_u8()
}

/// `Buf::get_u16` on a `BytesMut`: takes two bytes off the head and reads
/// them as a big-endian number.
#[verifier::external_body]
pub(crate) fn buf_get_u16(buf: &mut BytesMut) -> (value: u16)
    requires
        buf_view(*old(buf)).len() >= 2,
    ensures
        value == be16(buf_view(*old(buf))[0], buf_view(*old(buf))[1]),
        buf_view(*final(buf)) == buf_view(*old(buf)).skip(2),
{
    buf.get_u16()
}

/// `Buf::get_u32` on a `BytesMut`: takes four bytes off the head and reads
/// them as a big-endian number.
#[verifier::external_body]
pub(crate) fn buf_get_u32(buf: &mut BytesMut) -> (value: u32)
    requires
        buf_view(*old(buf)).len() >= 4,
    ensures
        value == be32(
            buf_view(*old(buf))[0],
            buf_view(*old(buf))[1],
            buf_view(*old(buf))[2],
            buf_view(*old(buf))[3],
        ),
        buf_view(*final(buf)) == buf_view(*old(buf)).skip(4),
{
    buf.get_u32()
}

/// `Buf::get_i32` on a `BytesMut`: takes four bytes off the head and reads
/// them as a big-endian two's-complement number.
#[verifier::external_body]
pub(crate) fn buf_get_i32(buf: &mut BytesMut) -> (value: i32)
    requires
        buf_view(*old(buf)).len() >= 4,
    ensures
        value == be32_signed(
            buf_view(*old(buf))[0],
            buf_view(*old(buf))[1],
            buf_view(*old(buf))[2],
            buf_view(*old(buf))[3],
        ),
        buf_view(*final(buf)) == buf_view(*old(buf)).skip(4),
{
    buf.get_i32()
}

} // verus!
