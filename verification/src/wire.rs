//! Byte buffers of the `bytes` crate and read cursors of std, seen as byte sequences, and the
//! big endian integers that the protocols are made of.

use bytes::{Buf, BufMut, Bytes, BytesMut, TryGetError};
use std::io::Cursor;
use vstd::prelude::*;

verus! {

/// `bytes::BytesMut`, a growing byte buffer.
#[verifier::external_type_specification]
#[verifier::external_body]
pub struct ExBytesMut(bytes::BytesMut);

/// `bytes::Bytes`, a shared immutable byte buffer.
#[verifier::external_type_specification]
#[verifier::external_body]
pub struct ExBytes(bytes::Bytes);

/// `bytes::TryGetError`, the error of a read past the end.
#[verifier::external_type_specification]
#[verifier::external_body]
pub struct ExTryGetError(bytes::TryGetError);

/// `std::io::Cursor`, a read position in a byte slice.
#[verifier::external_type_specification]
#[verifier::external_body]
#[verifier::reject_recursive_types(T)]
pub struct ExCursor<T>(std::io::Cursor<T>);

/// The bytes that a `BytesMut` holds.
pub uninterp spec fn buffer_bytes(buf: BytesMut) -> Seq<u8>;

/// The bytes that a `Bytes` holds.
pub uninterp spec fn shared_bytes(data: Bytes) -> Seq<u8>;

/// The bytes of a cursor from its position on.
pub uninterp spec fn cursor_rest(cursor: Cursor<&[u8]>) -> Seq<u8>;

/// `BytesMut::new`: an empty buffer.
#[verifier::external_body]
pub(crate) fn new_buffer() -> (buf: BytesMut)
    ensures
        buffer_bytes(buf) == Seq::<u8>::empty(),
{
    BytesMut::new()
}

/// `BufMut::put_u8` on a `BytesMut`: appends one byte.
#[verifier::external_body]
pub(crate) fn put_u8(buf: &mut BytesMut, value: u8)
    ensures
        buffer_bytes(*final(buf)) == buffer_bytes(*old(buf)).push(value),
{
    buf.put_u8(value)
}

/// `BufMut::put_u16` on a `BytesMut`: appends a big endian 16 bit integer.
#[verifier::external_body]
pub(crate) fn put_u16(buf: &mut BytesMut, value: u16)
    ensures
        buffer_bytes(*final(buf)) == buffer_bytes(*old(buf)) + be16_bytes(value),
{
    buf.put_u16(value)
}

/// `BufMut::put_u32` on a `BytesMut`: appends a big endian 32 bit integer.
#[verifier::external_body]
pub(crate) fn put_u32(buf: &mut BytesMut, value: u32)
    ensures
        buffer_bytes(*final(buf)) == buffer_bytes(*old(buf)) + be32_bytes(value),
{
    buf.put_u32(value)
}

/// `BufMut::put_slice` on a `BytesMut`: appends the bytes of a slice.
#[verifier::external_body]
pub(crate) fn put_slice(buf: &mut BytesMut, data: &[u8])
    ensures
        buffer_bytes(*final(buf)) == buffer_bytes(*old(buf)) + data@,
{
    buf.put_slice(data)
}

/// `BufMut::put_bytes` on a `BytesMut`: appends one byte `count` times. A buffer holds at most
/// `isize::MAX` bytes; beyond that the call panics.
#[verifier::external_body]
pub(crate) fn put_bytes(buf: &mut BytesMut, value: u8, count: usize)
    requires
        buffer_bytes(*old(buf)).len() + count <= isize::MAX,
    ensures
        buffer_bytes(*final(buf)) == buffer_bytes(*old(buf)) + Seq::new(
            count as nat,
            |i: int| value,
        ),
{
    buf.put_bytes(value, count)
}

/// `BytesMut::len`: the number of bytes in the buffer.
#[verifier::external_body]
pub(crate) fn buffer_len(buf: &BytesMut) -> (len: usize)
    ensures
        len == buffer_bytes(*buf).len(),
{
    buf.len()
}

/// `Deref` of a `BytesMut`: its bytes as a slice.
#[verifier::external_body]
pub(crate) fn buffer_slice(buf: &BytesMut) -> (data: &[u8])
    ensures
        data@ == buffer_bytes(*buf),
{
    &buf[..]
}

/// `BytesMut::freeze`: the same bytes, shared and immutable.
#[verifier::external_body]
pub(crate) fn freeze(buf: BytesMut) -> (data: Bytes)
    ensures
        shared_bytes(data) == buffer_bytes(buf),
{
    buf.freeze()
}

/// `Bytes::from` on a `Vec<u8>`: the bytes of the vector.
#[verifier::external_body]
pub(crate) fn share_vec(data: Vec<u8>) -> (shared: Bytes)
    ensures
        shared_bytes(shared) == data@,
{
    Bytes::from(data)
}

/// `Deref` of a `Bytes`: its bytes as a slice.
#[verifier::external_body]
pub(crate) fn shared_slice(data: &Bytes) -> (slice: &[u8])
    ensures
        slice@ == shared_bytes(*data),
{
    &data[..]
}

/// `Clone` of a `Bytes`: the same bytes.
pub assume_specification[ <Bytes as Clone>::clone ](data: &Bytes) -> (copy: Bytes)
    ensures
        shared_bytes(copy) == shared_bytes(*data),
;

/// `Cursor::new` on a byte slice: the whole slice is still to be read.
#[verifier::external_body]
pub(crate) fn new_cursor<'a>(data: &'a [u8]) -> (cursor: Cursor<&'a [u8]>)
    ensures
        cursor_rest(cursor) == data@,
{
    Cursor::new(data)
}

/// `Buf::remaining` on a cursor: how many bytes are still to be read.
#[verifier::external_body]
pub(crate) fn remaining(cursor: &Cursor<&[u8]>) -> (count: usize)
    ensures
        count == cursor_rest(*cursor).len(),
{
    cursor.remaining()
}

/// `Buf::get_u8` on a cursor: reads one byte. Without a byte to read the call panics.
#[verifier::external_body]
pub(crate) fn get_u8(cursor: &mut Cursor<&[u8]>) -> (value: u8)
    requires
        cursor_rest(*old(cursor)).len() >= 1,
    ensures
        value == cursor_rest(*old(cursor))[0],
        cursor_rest(*final(cursor)) == cursor_rest(*old(cursor)).skip(1),
{
    cursor.get_u8()
}

/// `Buf::get_u16` on a cursor: reads a big endian 16 bit integer. With fewer than two bytes to
/// read the call panics.
#[verifier::external_body]
pub(crate) fn get_u16(cursor: &mut Cursor<&[u8]>) -> (value: u16)
    requires
        cursor_rest(*old(cursor)).len() >= 2,
    ensures
        value == be16(cursor_rest(*old(cursor))),
        cursor_rest(*final(cursor)) == cursor_rest(*old(cursor)).skip(2),
{
    cursor.get_u16()
}

/// `Buf::try_get_u8` on a cursor: reads one byte if there is one, and else leaves the cursor
/// where it is.
#[verifier::external_body]
pub(crate) fn try_get_u8(cursor: &mut Cursor<&[u8]>) -> (res: Result<u8, TryGetError>)
    ensures
        res is Ok <==> cursor_rest(*old(cursor)).len() >= 1,
        res matches Ok(value) ==> value == cursor_rest(*old(cursor))[0] && cursor_rest(
            *final(cursor),
        ) == cursor_rest(*old(cursor)).skip(1),
        res is Err ==> cursor_rest(*final(cursor)) == cursor_rest(*old(cursor)),
{
    cursor.try_get_u8()
}

/// `Buf::try_get_u32` on a cursor: reads a big endian 32 bit integer if there are four bytes,
/// and else leaves the cursor where it is.
#[verifier::external_body]
pub(crate) fn try_get_u32(cursor: &mut Cursor<&[u8]>) -> (res: Result<u32, TryGetError>)
    ensures
        res is Ok <==> cursor_rest(*old(cursor)).len() >= 4,
        res matches Ok(value) ==> value == be32(cursor_rest(*old(cursor))) && cursor_rest(
            *final(cursor),
        ) == cursor_rest(*old(cursor)).skip(4),
        res is Err ==> cursor_rest(*final(cursor)) == cursor_rest(*old(cursor)),
{
    cursor.try_get_u32()
}

/// `Buf::copy_to_slice` on a cursor: fills `target` with the next bytes. With fewer bytes to
/// read than `target` is long the call panics.
#[verifier::external_body]
pub(crate) fn copy_to_slice(cursor: &mut Cursor<&[u8]>, target: &mut Vec<u8>)
    requires
        cursor_rest(*old(cursor)).len() >= old(target)@.len(),
    ensures
        final(target)@ == cursor_rest(*old(cursor)).take(old(target)@.len() as int),
        cursor_rest(*final(cursor)) == cursor_rest(*old(cursor)).skip(old(target)@.len() as int),
{
    cursor.copy_to_slice(target)
}

/// The big endian value of the first two bytes.
pub open spec fn be16(s: Seq<u8>) -> u16 {
    (s[0] * 0x100 + s[1]) as u16
}

/// The big endian value of the first four bytes.
pub open spec fn be32(s: Seq<u8>) -> u32 {
    (s[0] * 0x100_0000 + s[1] * 0x1_0000 + s[2] * 0x100 + s[3]) as u32
}

/// A 16 bit integer as two bytes, the high one first.
pub open spec fn be16_bytes(value: u16) -> Seq<u8> {
    seq![(value / 0x100) as u8, (value % 0x100) as u8]
}

/// A 32 bit integer as four bytes, the high one first.
pub open spec fn be32_bytes(value: u32) -> Seq<u8> {
    seq![
        (value / 0x100_0000) as u8,
        (value / 0x1_0000 % 0x100) as u8,
        (value / 0x100 % 0x100) as u8,
        (value % 0x100) as u8,
    ]
}

/// Writing a 16 bit integer and reading it back gives the integer, whatever follows it.
pub proof fn law_be16_roundtrip(value: u16, tail: Seq<u8>)
    ensures
        be16(be16_bytes(value) + tail) == value,
        (be16_bytes(value) + tail).skip(2) == tail,
{
    assert((be16_bytes(value) + tail).skip(2) =~= tail);
}

/// Writing a 32 bit integer and reading it back gives the integer, whatever follows it.
pub proof fn law_be32_roundtrip(value: u32, tail: Seq<u8>)
    ensures
        be32(be32_bytes(value) + tail) == value,
        (be32_bytes(value) + tail).skip(4) == tail,
{
    assert((be32_bytes(value) + tail).skip(4) =~= tail);
}

/// Reading four bytes as an integer and writing it back gives the four bytes.
pub proof fn law_be32_bytes_roundtrip(s: Seq<u8>)
    requires
        s.len() >= 4,
    ensures
        be32_bytes(be32(s)) == s.take(4),
{
    let (a, b, c, d) = (s[0] as int, s[1] as int, s[2] as int, s[3] as int);
    let n = a * 0x100_0000 + b * 0x1_0000 + c * 0x100 + d;
    assert(n / 0x100 == a * 0x1_0000 + b * 0x100 + c && n % 0x100 == d);
    let m = a * 0x1_0000 + b * 0x100 + c;
    assert(m / 0x100 == a * 0x100 + b && m % 0x100 == c);
    let l = a * 0x100 + b;
    assert(l / 0x100 == a && l % 0x100 == b);
    assert(n / 0x1_0000 == l && n / 0x100_0000 == a);
    assert(be32_bytes(be32(s)) =~= s.take(4));
}

/// The big endian 32 bit integer that starts at `at`.
pub fn read_be32(data: &[u8], at: usize) -> (value: u32)
    requires
        at + 4 <= data@.len(),
    ensures
        value == be32(data@.skip(at as int)),
{
    data[at] as u32 * 0x100_0000 + data[at + 1] as u32 * 0x1_0000 + data[at + 2] as u32 * 0x100
        + data[at + 3] as u32
}

/// The four bytes of a 32 bit integer, the high one first, at the end of `data`.
pub fn push_be32(data: &mut Vec<u8>, value: u32)
    ensures
        final(data)@ == old(data)@ + be32_bytes(value),
{
    data.push((value / 0x100_0000) as u8);
    data.push((value / 0x1_0000 % 0x100) as u8);
    data.push((value / 0x100 % 0x100) as u8);
    data.push((value % 0x100) as u8);
}

/// The high byte comes first, in what is written and in what is read.
pub proof fn law_high_byte_first(short: u16, long: u32, s: Seq<u8>)
    ensures
        be16_bytes(short).len() == 2,
        be16_bytes(short)[0] * 256 + be16_bytes(short)[1] == short,
        be32_bytes(long).len() == 4,
        be32_bytes(long)[0] * 16777216 + be32_bytes(long)[1] * 65536 + be32_bytes(long)[2] * 256
            + be32_bytes(long)[3] == long,
        be16(s) == s[0] * 256 + s[1],
        be32(s) == s[0] * 16777216 + s[1] * 65536 + s[2] * 256 + s[3],
{
}

} // verus!
