//! Big-endian fields of a byte buffer.

use byteorder::{BigEndian, ByteOrder, LittleEndian};
use vstd::prelude::*;

verus! {

/// The 16-bit big-endian number at offset `at`.
pub open spec fn spec_be_u16(s: Seq<u8>, at: int) -> u16 {
    (s[at] as int * 0x100 + s[at + 1] as int) as u16
}

/// The 32-bit big-endian number at offset `at`.
pub open spec fn spec_be_u32(s: Seq<u8>, at: int) -> u32 {
    (s[at] as int * 0x100_0000 + s[at + 1] as int * 0x1_0000 + s[at + 2] as int * 0x100 + s[at
        + 3] as int) as u32
}

/// The 64-bit big-endian number at offset `at`.
pub open spec fn spec_be_u64(s: Seq<u8>, at: int) -> u64 {
    (spec_be_u32(s, at) as int * 0x1_0000_0000 + spec_be_u32(s, at + 4) as int) as u64
}

/// Reads the 16-bit big-endian number at offset `at`.
pub fn be_u16(data: &[u8], at: usize) -> (v: u16)
    requires
        at + 2 <= data@.len(),
    ensures
        v == spec_be_u16(data@, at as int),
{
    data[at] as u16 * 0x100 + data[at + 1] as u16
}

/// Reads the 32-bit big-endian number at offset `at`.
pub fn be_u32(data: &[u8], at: usize) -> (v: u32)
    requires
        at + 4 <= data@.len(),
    ensures
        v == spec_be_u32(data@, at as int),
{
    data[at] as u32 * 0x100_0000 + data[at + 1] as u32 * 0x1_0000 + data[at + 2] as u32 * 0x100
        + data[at + 3] as u32
}

/// `byteorder::BigEndian::read_u32`: the first four bytes of `buf` read as
/// a big-endian number. The outside function panics on a shorter buffer.
#[verifier::external_body]
pub(crate) fn read_u32_be(buf: &[u8]) -> (v: u32)
    requires
        buf@.len() >= 4,
    ensures
        v == spec_be_u32(buf@, 0),
{
    BigEndian::read_u32(buf)
}

/// `byteorder::BigEndian::read_u64`: the first eight bytes of `buf` read as
/// a big-endian number. The outside function panics on a shorter buffer.
#[verifier::external_body]
pub(crate) fn read_u64_be(buf: &[u8]) -> (v: u64)
    requires
        buf@.len() >= 8,
    ensures
        v == spec_be_u64(buf@, 0),
{
    BigEndian::read_u64(buf)
}


/// The two bytes of a number, least significant first.
pub open spec fn spec_le_bytes_u16(n: u16) -> Seq<u8> {
    seq![(n % 0x100) as u8, (n / 0x100) as u8]
}

/// The four bytes of a number, least significant first.
pub open spec fn spec_le_bytes_u32(n: u32) -> Seq<u8> {
    seq![
        (n % 0x100) as u8,
        ((n / 0x100) % 0x100) as u8,
        ((n / 0x1_0000) % 0x100) as u8,
        (n / 0x100_0000) as u8,
    ]
}

/// The four bytes of a number, most significant first.
pub open spec fn spec_be_bytes_u32(n: u32) -> Seq<u8> {
    seq![
        (n / 0x100_0000) as u8,
        ((n / 0x1_0000) % 0x100) as u8,
        ((n / 0x100) % 0x100) as u8,
        (n % 0x100) as u8,
    ]
}

/// The two bytes of a number, most significant first.
pub open spec fn spec_be_bytes_u16(n: u16) -> Seq<u8> {
    seq![(n / 0x100) as u8, (n % 0x100) as u8]
}

/// The two's-complement pattern of a signed number.
pub open spec fn spec_pattern_i32(n: i32) -> u32 {
    if n >= 0 {
        n as u32
    } else {
        (n + 0x1_0000_0000) as u32
    }
}

/// `byteorder::LittleEndian::write_u16` into a buffer of two bytes: the
/// bytes of `n`, least significant first.
#[verifier::external_body]
pub(crate) fn le_bytes_u16(n: u16) -> (bytes: [u8; 2])
    ensures
        bytes@ == spec_le_bytes_u16(n),
{
    let mut buf = [0u8; 2];
    LittleEndian::write_u16(&mut buf, n);
    buf
}

/// `byteorder::LittleEndian::write_u32` into a buffer of four bytes: the
/// bytes of `n`, least significant first.
#[verifier::external_body]
pub(crate) fn le_bytes_u32(n: u32) -> (bytes: [u8; 4])
    ensures
        bytes@ == spec_le_bytes_u32(n),
{
    let mut buf = [0u8; 4];
    LittleEndian::write_u32(&mut buf, n);
    buf
}

/// `byteorder::LittleEndian::write_i32` into a buffer of four bytes: the
/// bytes of the two's-complement pattern of `n`, least significant first.
#[verifier::external_body]
pub(crate) fn le_bytes_i32(n: i32) -> (bytes: [u8; 4])
    ensures
        bytes@ == spec_le_bytes_u32(spec_pattern_i32(n)),
{
    let mut buf = [0u8; 4];
    LittleEndian::write_i32(&mut buf, n);
    buf
}

/// The bytes of a 32-bit number, most significant first.
pub fn be_bytes_u32(n: u32) -> (bytes: [u8; 4])
    ensures
        bytes@ == spec_be_bytes_u32(n),
        spec_be_u32(bytes@, 0) == n,
{
    let bytes = [
        (n / 0x100_0000) as u8,
        ((n / 0x1_0000) % 0x100) as u8,
        ((n / 0x100) % 0x100) as u8,
        (n % 0x100) as u8,
    ];
    assert(bytes@ =~= spec_be_bytes_u32(n));
    assert((n / 0x100_0000) * 0x100_0000 + ((n / 0x1_0000) % 0x100) * 0x1_0000 + ((n / 0x100)
        % 0x100) * 0x100 + n % 0x100 == n) by (bit_vector);
    bytes
}

/// The bytes of a 16-bit number, most significant first.
pub fn be_bytes_u16(n: u16) -> (bytes: [u8; 2])
    ensures
        bytes@ == spec_be_bytes_u16(n),
        spec_be_u16(bytes@, 0) == n,
{
    let bytes = [(n / 0x100) as u8, (n % 0x100) as u8];
    assert(bytes@ =~= spec_be_bytes_u16(n));
    bytes
}

/// Appends the bytes of `part` to `out`.
pub fn append_bytes(out: &mut Vec<u8>, part: &[u8])
    ensures
        final(out)@ == old(out)@ + part@,
{
    let mut i: usize = 0;
    while i < part.len()
        invariant
            i <= part@.len(),
            out@ == old(out)@ + part@.take(i as int),
        decreases part@.len() - i,
    {
        out.push(part[i]);
        assert(part@.take(i + 1) =~= part@.take(i as int).push(part@[i as int]));
        i = i + 1;
    }
    assert(part@.take(i as int) =~= part@);
}

} // verus!
