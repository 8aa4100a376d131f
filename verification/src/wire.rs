//! Byte-level helpers: the `bytes` buffer that addresses are written into and
//! the fixed-width integer reads of `byteorder`.

use vstd::prelude::*;
use bytes::BytesMut;
use byteorder::ByteOrder;

verus! {

#[verifier::external_type_specification]
#[verifier::external_body]
pub struct ExBytesMut(bytes::BytesMut);

/// The bytes that a `BytesMut` holds, in order.
pub uninterp spec fn bytes_mut_contents(buf: BytesMut) -> Seq<u8>;

/// Largest number of bytes a `BytesMut` can be grown to without its
/// `reserve` panicking (capacity overflow).
pub open spec fn max_buffer_len() -> int {
    isize::MAX as int
}

/// Big-endian bytes of a 16-bit word.
pub open spec fn be_bytes(w: u16) -> Seq<u8> {
    seq![(w / 256) as u8, (w % 256) as u8]
}

/// The 16-bit word whose big-endian bytes are `hi`, `lo`.
pub open spec fn be_u16(hi: u8, lo: u8) -> u16 {
    (hi as int * 256 + lo as int) as u16
}

/// The 32-bit word whose little-endian bytes are `b0`, `b1`, `b2`, `b3`.
pub open spec fn le_u32(b0: u8, b1: u8, b2: u8, b3: u8) -> u32 {
    (b0 as int + b1 as int * 0x100 + b2 as int * 0x1_0000 + b3 as int * 0x100_0000) as u32
}

/// `BytesMut::with_capacity`: an empty buffer with room for `cap` bytes
/// (the capacity is not part of the contents).
#[verifier::external_body]
pub(crate) fn empty_buffer(cap: usize) -> (buf: BytesMut)
    ensures
        bytes_mut_contents(buf) == Seq::<u8>::empty(),
{
    BytesMut::with_capacity(cap)
}

/// `<BytesMut as BufMut>::put_u8`: appends one byte.
///
/// `BytesMut` implements `put_slice` with `extend_from_slice`, which
/// reserves room and panics only when the new length overflows; the
/// `requires` keeps the length in range.
#[verifier::external_body]
pub(crate) fn put_u8(buf: &mut BytesMut, v: u8)
    requires
        bytes_mut_contents(*old(buf)).len() + 1 <= max_buffer_len(),
    ensures
        bytes_mut_contents(*final(buf)) == bytes_mut_contents(*old(buf)).push(v),
{
    bytes::BufMut::put_u8(buf, v)
}

/// `<BytesMut as BufMut>::put_u16`: appends the word in big-endian order
/// (`put_slice(&n.to_be_bytes())` in the crate's source).
#[verifier::external_body]
pub(crate) fn put_u16(buf: &mut BytesMut, v: u16)
    requires
        bytes_mut_contents(*old(buf)).len() + 2 <= max_buffer_len(),
    ensures
        bytes_mut_contents(*final(buf)) == bytes_mut_contents(*old(buf)) + be_bytes(v),
{
    bytes::BufMut::put_u16(buf, v)
}

/// `<BytesMut as BufMut>::put_slice`: appends the slice.
#[verifier::external_body]
pub(crate) fn put_slice(buf: &mut BytesMut, src: &[u8])
    requires
        bytes_mut_contents(*old(buf)).len() + src@.len() <= max_buffer_len(),
    ensures
        bytes_mut_contents(*final(buf)) == bytes_mut_contents(*old(buf)) + src@,
{
    bytes::BufMut::put_slice(buf, src)
}

/// `<NetworkEndian as ByteOrder>::read_i16`: the first two bytes read as a
/// big-endian `u16` and reinterpreted as `i16` (`read_u16(buf) as i16`; the
/// read slices `buf[..2]` and panics on a shorter slice).
#[verifier::external_body]
pub(crate) fn read_i16_be(buf: &[u8]) -> (v: i16)
    requires
        buf@.len() >= 2,
    ensures
        v == be_u16(buf@[0], buf@[1]) as i16,
{
    byteorder::NetworkEndian::read_i16(buf)
}

/// `<LittleEndian as ByteOrder>::read_u32`: the first four bytes read as a
/// little-endian `u32` (`u32::from_le_bytes(buf[..4])`).
#[verifier::external_body]
pub(crate) fn read_u32_le(buf: &[u8]) -> (v: u32)
    requires
        buf@.len() >= 4,
    ensures
        v == le_u32(buf@[0], buf@[1], buf@[2], buf@[3]),
{
    byteorder::LittleEndian::read_u32(buf)
}

} // verus!
