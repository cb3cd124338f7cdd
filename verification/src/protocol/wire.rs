//! Byte buffers: the `Bytes` that a message is read from and the `BytesMut` that it is
//! written to.

use bytes::{Buf, BufMut, Bytes, BytesMut};
use vstd::prelude::*;

verus! {

/// The shared byte buffer of the `bytes` crate.
#[verifier::external_type_specification]
#[verifier::external_body]
pub struct ExBytes(bytes::Bytes);

/// The growing byte buffer of the `bytes` crate.
#[verifier::external_type_specification]
#[verifier::external_body]
pub struct ExBytesMut(bytes::BytesMut);

/// The bytes that are left in a buffer.
pub uninterp spec fn bytes_seq(buf: Bytes) -> Seq<u8>;

/// The bytes that were written to a buffer.
pub uninterp spec fn buffer_seq(buf: BytesMut) -> Seq<u8>;

/// `x` as two bytes, the low one first.
pub open spec fn u16_le(x: u16) -> Seq<u8> {
    seq![(x % 256) as u8, (x / 256) as u8]
}

/// `x` as four bytes, the low one first.
pub open spec fn u32_le(x: u32) -> Seq<u8> {
    seq![
        (x % 256) as u8,
        (x / 256 % 256) as u8,
        (x / 65536 % 256) as u8,
        (x / 16777216) as u8,
    ]
}

/// The number that two bytes give, the low one first.
pub open spec fn u16_of(s: Seq<u8>) -> u16 {
    (s[0] + 256 * s[1]) as u16
}

/// The number that four bytes give, the low one first.
pub open spec fn u32_of(s: Seq<u8>) -> u32 {
    (s[0] + 256 * s[1] + 65536 * s[2] + 16777216 * s[3]) as u32
}

/// Reading back two bytes gives the number that was written.
pub proof fn lemma_u16_round_trip(x: u16, rest: Seq<u8>)
    ensures
        u16_of(u16_le(x) + rest) == x,
        u16_le(x).len() == 2,
{
}

/// Reading back four bytes gives the number that was written.
pub proof fn lemma_u32_round_trip(x: u32, rest: Seq<u8>)
    ensures
        u32_of(u32_le(x) + rest) == x,
        u32_le(x).len() == 4,
{
}

/// Calls `Buf::remaining` of `Bytes`, which counts the bytes that are left.
#[verifier::external_body]
pub(crate) fn remaining(buf: &Bytes) -> (r: usize)
    ensures
        r == bytes_seq(*buf).len(),
{
    buf.remaining()
}

/// Calls `Buf::get_u8`, which takes the next byte.
#[verifier::external_body]
pub(crate) fn get_u8(buf: &mut Bytes) -> (r: u8)
    requires
        bytes_seq(*old(buf)).len() >= 1,
    ensures
        r == bytes_seq(*old(buf))[0],
        bytes_seq(*final(buf)) == bytes_seq(*old(buf)).skip(1),
{
    buf.get_u8()
}

/// Calls `Buf::get_u16_le`, which takes a number of two bytes, the low one first.
#[verifier::external_body]
pub(crate) fn get_u16_le(buf: &mut Bytes) -> (r: u16)
    requires
        bytes_seq(*old(buf)).len() >= 2,
    ensures
        r == u16_of(bytes_seq(*old(buf))),
        bytes_seq(*final(buf)) == bytes_seq(*old(buf)).skip(2),
{
    buf.get_u16_le()
}

/// Calls `Buf::get_u32_le`, which takes a number of four bytes, the low one first.
#[verifier::external_body]
pub(crate) fn get_u32_le(buf: &mut Bytes) -> (r: u32)
    requires
        bytes_seq(*old(buf)).len() >= 4,
    ensures
        r == u32_of(bytes_seq(*old(buf))),
        bytes_seq(*final(buf)) == bytes_seq(*old(buf)).skip(4),
{
    buf.get_u32_le()
}

/// Calls `Buf::copy_to_slice` on an array, which fills it with the next bytes.
#[verifier::external_body]
pub(crate) fn get_array<const N: usize>(buf: &mut Bytes) -> (r: [u8; N])
    requires
        bytes_seq(*old(buf)).len() >= N,
    ensures
        r@ == bytes_seq(*old(buf)).take(N as int),
        bytes_seq(*final(buf)) == bytes_seq(*old(buf)).skip(N as int),
{
    let mut r = [0u8; N];
    buf.copy_to_slice(&mut r);
    r
}

/// Calls `Buf::copy_to_bytes` of `Bytes`, which splits the next bytes off.
#[verifier::external_body]
pub(crate) fn get_bytes(buf: &mut Bytes, len: usize) -> (r: Bytes)
    requires
        bytes_seq(*old(buf)).len() >= len,
    ensures
        bytes_seq(r) == bytes_seq(*old(buf)).take(len as int),
        bytes_seq(*final(buf)) == bytes_seq(*old(buf)).skip(len as int),
{
    buf.copy_to_bytes(len)
}

/// Calls `Bytes::as_ref`, which gives the bytes as a slice.
#[verifier::external_body]
pub(crate) fn as_slice(buf: &Bytes) -> (r: &[u8])
    ensures
        r@ == bytes_seq(*buf),
{
    buf.as_ref()
}

/// Calls `Bytes::clone`, which gives another handle on the same bytes.
#[verifier::external_body]
pub(crate) fn bytes_clone(buf: &Bytes) -> (r: Bytes)
    ensures
        bytes_seq(r) == bytes_seq(*buf),
{
    buf.clone()
}

/// Calls `BytesMut::len`, which counts the bytes that were written.
#[verifier::external_body]
pub(crate) fn written(buf: &BytesMut) -> (r: usize)
    ensures
        r == buffer_seq(*buf).len(),
{
    buf.len()
}

/// How many more bytes a buffer can take.
pub(crate) fn room(buf: &BytesMut) -> (r: usize)
    ensures
        r == (if buffer_seq(*buf).len() <= isize::MAX {
            isize::MAX - buffer_seq(*buf).len()
        } else {
            0
        }),
{
    let limit: usize = isize::MAX as usize;
    limit.saturating_sub(written(buf))
}

/// Calls `BufMut::put_u8`, which appends a byte. A buffer holds at most `isize::MAX` bytes.
#[verifier::external_body]
pub(crate) fn put_u8(buf: &mut BytesMut, x: u8)
    requires
        buffer_seq(*old(buf)).len() + 1 <= isize::MAX,
    ensures
        buffer_seq(*final(buf)) == buffer_seq(*old(buf)) + seq![x],
{
    buf.put_u8(x)
}

/// Calls `BufMut::put_u16_le`, which appends two bytes, the low one first.
#[verifier::external_body]
pub(crate) fn put_u16_le(buf: &mut BytesMut, x: u16)
    requires
        buffer_seq(*old(buf)).len() + 2 <= isize::MAX,
    ensures
        buffer_seq(*final(buf)) == buffer_seq(*old(buf)) + u16_le(x),
{
    buf.put_u16_le(x)
}

/// Calls `BufMut::put_u32_le`, which appends four bytes, the low one first.
#[verifier::external_body]
pub(crate) fn put_u32_le(buf: &mut BytesMut, x: u32)
    requires
        buffer_seq(*old(buf)).len() + 4 <= isize::MAX,
    ensures
        buffer_seq(*final(buf)) == buffer_seq(*old(buf)) + u32_le(x),
{
    buf.put_u32_le(x)
}

/// Calls `BufMut::put_slice`, which appends the bytes of a slice.
#[verifier::external_body]
pub(crate) fn put_slice(buf: &mut BytesMut, x: &[u8])
    requires
        buffer_seq(*old(buf)).len() + x@.len() <= isize::MAX,
    ensures
        buffer_seq(*final(buf)) == buffer_seq(*old(buf)) + x@,
{
    buf.put_slice(x)
}

} // verus!
