//! Byte-order strategies for the chunk cursor, and the little-endian
//! encoding primitives used by the tag serializer and parser. The actual
//! byte shuffling is done by the `byteorder` crate behind trusted wrappers
//! whose contracts state the encoding byte by byte.

use vstd::prelude::*;

use vstd::bytes::{spec_u32_from_le_bytes, spec_u32_to_le_bytes, spec_u64_to_le_bytes};

verus! {

/// The big-endian reading of four bytes, most significant first.
pub open spec fn spec_u32_from_be_bytes(s: Seq<u8>) -> u32
    recommends
        s.len() == 4,
{
    (s[3] as u32) | (s[2] as u32) << 8 | (s[1] as u32) << 16 | (s[0] as u32) << 24
}

/// Relies on `byteorder::LittleEndian::read_u32`: the little-endian
/// unsigned 32-bit integer held in the first four bytes of the slice.
#[verifier::external_body]
pub fn read_u32_le(b: &[u8]) -> (r: u32)
    requires
        b@.len() == 4,
    ensures
        r == spec_u32_from_le_bytes(b@),
{
    <byteorder::LittleEndian as byteorder::ByteOrder>::read_u32(b)
}

/// Relies on `byteorder::BigEndian::read_u32`: the big-endian unsigned
/// 32-bit integer held in the first four bytes of the slice.
#[verifier::external_body]
pub fn read_u32_be(b: &[u8]) -> (r: u32)
    requires
        b@.len() == 4,
    ensures
        r == spec_u32_from_be_bytes(b@),
{
    <byteorder::BigEndian as byteorder::ByteOrder>::read_u32(b)
}

/// Relies on `byteorder::LittleEndian::write_u32`: the four bytes of `n`
/// in little-endian order.
#[verifier::external_body]
pub fn u32_to_le_vec(n: u32) -> (r: Vec<u8>)
    ensures
        r@ == spec_u32_to_le_bytes(n),
{
    let mut buf = [0u8; 4];
    <byteorder::LittleEndian as byteorder::ByteOrder>::write_u32(&mut buf, n);
    buf.to_vec()
}

/// Relies on `byteorder::LittleEndian::write_u64`: the eight bytes of `n`
/// in little-endian order.
#[verifier::external_body]
pub fn u64_to_le_vec(n: u64) -> (r: Vec<u8>)
    ensures
        r@ == spec_u64_to_le_bytes(n),
{
    let mut buf = [0u8; 8];
    <byteorder::LittleEndian as byteorder::ByteOrder>::write_u64(&mut buf, n);
    buf.to_vec()
}

/// A byte-order strategy: how the chunk cursor decodes a four-byte size
/// field. Implemented once per byte order rather than duplicating the
/// cursor per order.
pub trait ChunkOrder {
    /// The number a four-byte size field holds under this byte order.
    spec fn spec_u32(b: Seq<u8>) -> u32;

    /// Decodes a four-byte size field.
    fn u32_from_bytes(b: &Vec<u8>) -> (r: u32)
        requires
            b@.len() == 4,
        ensures
            r == Self::spec_u32(b@),
    ;
}

/// Little-endian chunk sizes (RIFF-style containers).
pub struct LittleEndianOrder;

/// Big-endian chunk sizes (IFF/AIFF-style containers).
pub struct BigEndianOrder;

impl ChunkOrder for LittleEndianOrder {
    open spec fn spec_u32(b: Seq<u8>) -> u32 {
        spec_u32_from_le_bytes(b)
    }

    fn u32_from_bytes(b: &Vec<u8>) -> (r: u32) {
        read_u32_le(b.as_slice())
    }
}

impl ChunkOrder for BigEndianOrder {
    open spec fn spec_u32(b: Seq<u8>) -> u32 {
        spec_u32_from_be_bytes(b)
    }

    fn u32_from_bytes(b: &Vec<u8>) -> (r: u32) {
        read_u32_be(b.as_slice())
    }
}

} // verus!
