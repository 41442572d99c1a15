//! The byte buffer that the codecs read from and write to: `bytes::BytesMut`,
//! seen through the sequence of bytes it holds.

use bytes::{Buf, BufMut, BytesMut};
use vstd::prelude::*;

verus! {

#[verifier::external_type_specification]
#[verifier::external_body]
pub struct ExBytesMut(BytesMut);

/// The bytes that a `BytesMut` holds, from its read position to its end.
pub uninterp spec fn buffer_bytes(b: BytesMut) -> Seq<u8>;

/// `BytesMut::new`: an empty buffer.
#[verifier::external_body]
pub(crate) fn buf_new() -> (b: BytesMut)
    ensures
        buffer_bytes(b) == Seq::<u8>::empty(),
{
    BytesMut::new()
}

/// `BytesMut::len`: the number of bytes the buffer holds.
#[verifier::external_body]
pub(crate) fn buf_len(b: &BytesMut) -> (n: usize)
    ensures
        n == buffer_bytes(*b).len(),
{
    b.len()
}

/// `Buf::get_u8` on `BytesMut`: takes the first byte off the front.
/// The crate panics on an empty buffer, which `requires` leaves out.
#[verifier::external_body]
pub(crate) fn buf_get_u8(b: &mut BytesMut) -> (r: u8)
    requires
        buffer_bytes(*old(b)).len() >= 1,
    ensures
        r == buffer_bytes(*old(b))[0],
        buffer_bytes(*final(b)) == buffer_bytes(*old(b)).skip(1),
{
    b.get_u8()
}

/// `BufMut::put_u8` on `BytesMut`: appends one byte.
#[verifier::external_body]
pub(crate) fn buf_put_u8(b: &mut BytesMut, v: u8)
    ensures
        buffer_bytes(*final(b)) == buffer_bytes(*old(b)).push(v),
{
    b.put_u8(v)
}

/// `BytesMut::with_capacity`: an empty buffer with room reserved.
#[verifier::external_body]
pub(crate) fn buf_with_capacity(n: usize) -> (b: BytesMut)
    ensures
        buffer_bytes(b) == Seq::<u8>::empty(),
{
    BytesMut::with_capacity(n)
}

/// `BufMut::put_slice` on `BytesMut`: appends the bytes of `s`.
#[verifier::external_body]
pub(crate) fn buf_put_slice(b: &mut BytesMut, s: &[u8])
    ensures
        buffer_bytes(*final(b)) == buffer_bytes(*old(b)) + s@,
{
    b.put_slice(s)
}

/// The four bytes of `v`, least significant first.
pub open spec fn u32_le_bytes(v: u32) -> Seq<u8> {
    seq![
        (v % 0x100) as u8,
        ((v / 0x100) % 0x100) as u8,
        ((v / 0x1_0000) % 0x100) as u8,
        (v / 0x100_0000) as u8,
    ]
}

/// `BufMut::put_u32_le` on `BytesMut`: appends the four bytes of `v`, least
/// significant first.
#[verifier::external_body]
pub(crate) fn buf_put_u32_le(b: &mut BytesMut, v: u32)
    ensures
        buffer_bytes(*final(b)) == buffer_bytes(*old(b)) + u32_le_bytes(v),
{
    b.put_u32_le(v)
}

/// `Buf::copy_to_bytes` on `BytesMut`, the result copied into a `Vec`: takes
/// the first `n` bytes off the front. The crate panics where fewer than `n`
/// bytes are held, which `requires` leaves out.
#[verifier::external_body]
pub(crate) fn buf_take_vec(b: &mut BytesMut, n: usize) -> (v: Vec<u8>)
    requires
        n <= buffer_bytes(*old(b)).len(),
    ensures
        v@ == buffer_bytes(*old(b)).take(n as int),
        buffer_bytes(*final(b)) == buffer_bytes(*old(b)).skip(n as int),
{
    b.copy_to_bytes(n).to_vec()
}

/// The number that four bytes stand for, least significant first.
pub open spec fn u32_from_le(s: Seq<u8>) -> u32 {
    (s[0] + 0x100 * s[1] + 0x1_0000 * s[2] + 0x100_0000 * s[3]) as u32
}

/// `Buf::get_u32_le` on `BytesMut`: takes four bytes off the front, least
/// significant first. The crate panics where fewer than four bytes are held,
/// which `requires` leaves out.
#[verifier::external_body]
pub(crate) fn buf_get_u32_le(b: &mut BytesMut) -> (r: u32)
    requires
        buffer_bytes(*old(b)).len() >= 4,
    ensures
        r == u32_from_le(buffer_bytes(*old(b))),
        buffer_bytes(*final(b)) == buffer_bytes(*old(b)).skip(4),
{
    b.get_u32_le()
}

/// `BytesMut::clone`: a second buffer holding the same bytes.
#[verifier::external_body]
pub(crate) fn buf_clone(b: &BytesMut) -> (c: BytesMut)
    ensures
        buffer_bytes(c) == buffer_bytes(*b),
{
    b.clone()
}

/// `BytesMut::from(&[u8])`: a buffer holding a copy of `s`.
#[verifier::external_body]
pub(crate) fn buf_from_slice(s: &[u8]) -> (b: BytesMut)
    ensures
        buffer_bytes(b) == s@,
{
    BytesMut::from(s)
}

/// The number that eight bytes stand for, most significant first.
pub open spec fn u64_from_be(s: Seq<u8>) -> u64 {
    (s[0] * 0x100_0000_0000_0000 + s[1] * 0x1_0000_0000_0000 + s[2] * 0x100_0000_0000 + s[3]
        * 0x1_0000_0000 + s[4] * 0x100_0000 + s[5] * 0x1_0000 + s[6] * 0x100 + s[7]) as u64
}

/// `Buf::get_u64` on `BytesMut`: takes eight bytes off the front, most
/// significant first. The crate panics where fewer than eight bytes are held,
/// which `requires` leaves out.
#[verifier::external_body]
pub(crate) fn buf_get_u64(b: &mut BytesMut) -> (r: u64)
    requires
        buffer_bytes(*old(b)).len() >= 8,
    ensures
        r == u64_from_be(buffer_bytes(*old(b))),
        buffer_bytes(*final(b)) == buffer_bytes(*old(b)).skip(8),
{
    b.get_u64()
}

/// `Buf::advance` on `BytesMut`: drops `n` bytes off the front. The crate
/// panics where fewer than `n` bytes are held, which `requires` leaves out.
#[verifier::external_body]
pub(crate) fn buf_advance(b: &mut BytesMut, n: usize)
    requires
        n <= buffer_bytes(*old(b)).len(),
    ensures
        buffer_bytes(*final(b)) == buffer_bytes(*old(b)).skip(n as int),
{
    b.advance(n)
}

/// `AsRef<[u8]>::as_ref` on `BytesMut`: the bytes it holds, as a slice.
#[verifier::external_body]
pub(crate) fn buf_as_slice(b: &BytesMut) -> (s: &[u8])
    ensures
        s@ == buffer_bytes(*b),
{
    b.as_ref()
}

/// The number that four bytes stand for, most significant first.
pub open spec fn u32_from_be(s: Seq<u8>) -> u32 {
    (s[0] * 0x100_0000 + s[1] * 0x1_0000 + s[2] * 0x100 + s[3]) as u32
}

/// `Buf::get_i32` on `BytesMut`: takes four bytes off the front, most
/// significant first, as a two's-complement number. The crate panics where
/// fewer than four bytes are held, which `requires` leaves out.
#[verifier::external_body]
pub(crate) fn buf_get_i32(b: &mut BytesMut) -> (r: i32)
    requires
        buffer_bytes(*old(b)).len() >= 4,
    ensures
        r == u32_from_be(buffer_bytes(*old(b))) as i32,
        buffer_bytes(*final(b)) == buffer_bytes(*old(b)).skip(4),
{
    b.get_i32()
}

/// `Buf::get_u32` on `BytesMut`: takes four bytes off the front, most
/// significant first. The crate panics where fewer than four bytes are held,
/// which `requires` leaves out.
#[verifier::external_body]
pub(crate) fn buf_get_u32(b: &mut BytesMut) -> (r: u32)
    requires
        buffer_bytes(*old(b)).len() >= 4,
    ensures
        r == u32_from_be(buffer_bytes(*old(b))),
        buffer_bytes(*final(b)) == buffer_bytes(*old(b)).skip(4),
{
    b.get_u32()
}

/// Reading back four bytes written least significant first gives the number.
pub proof fn lemma_u32_le_roundtrip(v: u32, rest: Seq<u8>)
    ensures
        u32_from_le(u32_le_bytes(v) + rest) == v,
        (u32_le_bytes(v) + rest).skip(4) == rest,
        u32_le_bytes(v).len() == 4,
{
    let b = u32_le_bytes(v) + rest;
    let b0 = (v % 0x100) as u8;
    let b1 = ((v / 0x100) % 0x100) as u8;
    let b2 = ((v / 0x1_0000) % 0x100) as u8;
    let b3 = (v / 0x100_0000) as u8;
    assert(b[0] == b0 && b[1] == b1 && b[2] == b2 && b[3] == b3);
    assert(v == v % 0x100 + 0x100 * ((v / 0x100) % 0x100) + 0x1_0000 * ((v / 0x1_0000) % 0x100)
        + 0x100_0000 * (v / 0x100_0000));
    assert(b.skip(4) =~= rest);
}

/// The four bytes of `v`, most significant first.
pub open spec fn u32_be_bytes(v: u32) -> Seq<u8> {
    seq![
        (v / 0x100_0000) as u8,
        ((v / 0x1_0000) % 0x100) as u8,
        ((v / 0x100) % 0x100) as u8,
        (v % 0x100) as u8,
    ]
}

/// `BufMut::put_u32` on `BytesMut`: appends the four bytes of `v`, most
/// significant first.
#[verifier::external_body]
pub(crate) fn buf_put_u32(b: &mut BytesMut, v: u32)
    ensures
        buffer_bytes(*final(b)) == buffer_bytes(*old(b)) + u32_be_bytes(v),
{
    b.put_u32(v)
}

/// The number that two bytes stand for, most significant first.
pub open spec fn u16_from_be(s: Seq<u8>) -> u16 {
    (s[0] * 0x100 + s[1]) as u16
}

/// `Buf::get_u16` on `BytesMut`: takes two bytes off the front, most
/// significant first. The crate panics where fewer than two bytes are held,
/// which `requires` leaves out.
#[verifier::external_body]
pub(crate) fn buf_get_u16(b: &mut BytesMut) -> (r: u16)
    requires
        buffer_bytes(*old(b)).len() >= 2,
    ensures
        r == u16_from_be(buffer_bytes(*old(b))),
        buffer_bytes(*final(b)) == buffer_bytes(*old(b)).skip(2),
{
    b.get_u16()
}

} // verus!
