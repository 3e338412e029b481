//! Byte buffers: the growable buffer that messages are written into, and readers over a
//! received one. The work is done by the `bytes` and `byteorder` crates; this module says
//! what is relied on of them.

use byteorder::{NetworkEndian, ReadBytesExt};
use bytes::{BufMut, BytesMut};
use vstd::pervasive::unreached;
use vstd::prelude::*;

use crate::protocol::octets::{be16, be32, be_i32, i32_at, u16_at, u32_at};

verus! {

/// The longest buffer that is ever written. It leaves an allocator room to double the buffer
/// on a 32-bit machine too.
pub const MAX_BUFFER_LEN: usize = 0x3fff_ffff;

/// `bytes::BytesMut`, the buffer that messages are written into.
#[verifier::external_type_specification]
#[verifier::external_body]
pub struct ExBytesMut(BytesMut);

/// `std::io::Error`, which `byteorder` returns where a reader runs out of bytes.
#[verifier::external_type_specification]
#[verifier::external_body]
pub struct ExIoError(std::io::Error);

/// The bytes that a buffer holds.
pub uninterp spec fn contents(buf: BytesMut) -> Seq<u8>;

/// Calls `BytesMut::new`, which gives an empty buffer.
#[verifier::external_body]
pub(crate) fn new_buffer() -> (buf: BytesMut)
    ensures
        contents(buf) == Seq::<u8>::empty(),
{
    BytesMut::new()
}

/// Calls `BytesMut::with_capacity`, which gives an empty buffer with room for `capacity` bytes.
#[verifier::external_body]
pub(crate) fn new_buffer_for(capacity: usize) -> (buf: BytesMut)
    requires
        capacity <= MAX_BUFFER_LEN,
    ensures
        contents(buf) == Seq::<u8>::empty(),
{
    BytesMut::with_capacity(capacity)
}

/// Calls `BufMut::put_u8`, which appends the byte.
#[verifier::external_body]
pub(crate) fn put_u8(buf: &mut BytesMut, n: u8)
    requires
        contents(*old(buf)).len() + 1 <= MAX_BUFFER_LEN,
    ensures
        contents(*final(buf)) == contents(*old(buf)).push(n),
{
    buf.put_u8(n)
}

/// Calls `BufMut::put_u16`, which appends the integer in big-endian order.
#[verifier::external_body]
pub(crate) fn put_u16(buf: &mut BytesMut, n: u16)
    requires
        contents(*old(buf)).len() + 2 <= MAX_BUFFER_LEN,
    ensures
        contents(*final(buf)) == contents(*old(buf)) + be16(n),
{
    buf.put_u16(n)
}

/// Calls `BufMut::put_u32`, which appends the integer in big-endian order.
#[verifier::external_body]
pub(crate) fn put_u32(buf: &mut BytesMut, n: u32)
    requires
        contents(*old(buf)).len() + 4 <= MAX_BUFFER_LEN,
    ensures
        contents(*final(buf)) == contents(*old(buf)) + be32(n),
{
    buf.put_u32(n)
}

/// Calls `BufMut::put_i32`, which appends the two's-complement pattern of the integer in
/// big-endian order.
#[verifier::external_body]
pub(crate) fn put_i32(buf: &mut BytesMut, n: i32)
    requires
        contents(*old(buf)).len() + 4 <= MAX_BUFFER_LEN,
    ensures
        contents(*final(buf)) == contents(*old(buf)) + be_i32(n),
{
    buf.put_i32(n)
}

/// Calls `BufMut::put_slice`, which appends the bytes.
#[verifier::external_body]
pub(crate) fn put_slice(buf: &mut BytesMut, src: &[u8])
    requires
        contents(*old(buf)).len() + src@.len() <= MAX_BUFFER_LEN,
    ensures
        contents(*final(buf)) == contents(*old(buf)) + src@,
{
    buf.put_slice(src)
}

/// Calls `ReadBytesExt::read_u16` on a slice, in network order: where two bytes are left it
/// gives the integer that they spell and moves past them, and it fails otherwise.
#[verifier::external_body]
pub(crate) fn read_u16(reader: &mut &[u8]) -> (n: Result<u16, std::io::Error>)
    ensures
        old(reader)@.len() >= 2 ==> {
            &&& n == Ok::<u16, std::io::Error>(u16_at(old(reader)@, 0))
            &&& final(reader)@ == old(reader)@.skip(2)
        },
        old(reader)@.len() < 2 ==> n is Err,
{
    reader.read_u16::<NetworkEndian>()
}

/// Calls `ReadBytesExt::read_u32` on a slice, in network order: where four bytes are left it
/// gives the integer that they spell and moves past them, and it fails otherwise.
#[verifier::external_body]
pub(crate) fn read_u32(reader: &mut &[u8]) -> (n: Result<u32, std::io::Error>)
    ensures
        old(reader)@.len() >= 4 ==> {
            &&& n == Ok::<u32, std::io::Error>(u32_at(old(reader)@, 0))
            &&& final(reader)@ == old(reader)@.skip(4)
        },
        old(reader)@.len() < 4 ==> n is Err,
{
    reader.read_u32::<NetworkEndian>()
}

/// Calls `ReadBytesExt::read_i32` on a slice, in network order: where four bytes are left it
/// gives the signed integer that they spell and moves past them, and it fails otherwise.
#[verifier::external_body]
pub(crate) fn read_i32(reader: &mut &[u8]) -> (n: Result<i32, std::io::Error>)
    ensures
        old(reader)@.len() >= 4 ==> {
            &&& n == Ok::<i32, std::io::Error>(i32_at(old(reader)@, 0))
            &&& final(reader)@ == old(reader)@.skip(4)
        },
        old(reader)@.len() < 4 ==> n is Err,
{
    reader.read_i32::<NetworkEndian>()
}

/// Takes a 16-bit integer off a reader that holds one.
pub(crate) fn take_u16(reader: &mut &[u8]) -> (n: u16)
    requires
        old(reader)@.len() >= 2,
    ensures
        n == u16_at(old(reader)@, 0),
        final(reader)@ == old(reader)@.skip(2),
{
    match read_u16(reader) {
        Ok(n) => n,
        Err(_) => unreached(),
    }
}

/// Takes a 32-bit integer off a reader that holds one.
pub(crate) fn take_u32(reader: &mut &[u8]) -> (n: u32)
    requires
        old(reader)@.len() >= 4,
    ensures
        n == u32_at(old(reader)@, 0),
        final(reader)@ == old(reader)@.skip(4),
{
    match read_u32(reader) {
        Ok(n) => n,
        Err(_) => unreached(),
    }
}

/// Takes a signed 32-bit integer off a reader that holds one.
pub(crate) fn take_i32(reader: &mut &[u8]) -> (n: i32)
    requires
        old(reader)@.len() >= 4,
    ensures
        n == i32_at(old(reader)@, 0),
        final(reader)@ == old(reader)@.skip(4),
{
    match read_i32(reader) {
        Ok(n) => n,
        Err(_) => unreached(),
    }
}

/// Copies `src` over the whole of `dst`.
pub(crate) fn copy_bytes<const N: usize>(dst: &mut [u8; N], src: &[u8])
    requires
        src@.len() == N,
    ensures
        final(dst)@ == src@,
{
    let mut i: usize = 0;
    while i < N
        invariant
            i <= N,
            src@.len() == N,
            forall|j: int| 0 <= j < i ==> dst@[j] == src@[j],
        decreases N - i,
    {
        dst[i] = src[i];
        i = i + 1;
    }
    assert(dst@ =~= src@);
}

} // verus!
