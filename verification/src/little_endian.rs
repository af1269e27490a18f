//! Numbers of two and four bytes, lowest byte first, and the two's-complement
//! reading of signed ones.

use vstd::prelude::*;

verus! {

/// The 16-bit number of two bytes, lowest first.
pub open spec fn u16_le(b0: u8, b1: u8) -> u16 {
    (b0 + 256 * b1) as u16
}

/// The two bytes of a 16-bit number, lowest first.
pub open spec fn u16_bytes(v: u16) -> Seq<u8> {
    seq![(v % 256) as u8, (v / 256) as u8]
}

/// The 32-bit number of four bytes, lowest first.
pub open spec fn u32_le(b0: u8, b1: u8, b2: u8, b3: u8) -> u32 {
    (b0 + 256 * b1 + 65536 * b2 + 16777216 * b3) as u32
}

/// The four bytes of a 32-bit number, lowest first.
pub open spec fn u32_bytes(v: u32) -> Seq<u8> {
    seq![
        (v % 256) as u8,
        ((v / 256) % 256) as u8,
        ((v / 65536) % 256) as u8,
        (v / 16777216) as u8,
    ]
}

/// The signed number that 16 bits stand for in two's complement.
pub open spec fn i16_of_bits(bits: u16) -> i16 {
    if bits < 32768 {
        bits as i16
    } else {
        (bits - 65536) as i16
    }
}

/// The 16 bits of a signed number in two's complement.
pub open spec fn i16_bits(x: i16) -> u16 {
    if x >= 0 {
        x as u16
    } else {
        (x + 65536) as u16
    }
}

/// The signed number that 32 bits stand for in two's complement.
pub open spec fn i32_of_bits(bits: u32) -> i32 {
    if bits < 2147483648 {
        bits as i32
    } else {
        (bits - 4294967296) as i32
    }
}

/// The 32 bits of a signed number in two's complement.
pub open spec fn i32_bits(x: i32) -> u32 {
    if x >= 0 {
        x as u32
    } else {
        (x + 4294967296) as u32
    }
}

/// Reading the bytes of a number gives the number back, and so does reading
/// the bits of a signed one.
pub proof fn lemma_little_endian_round_trip(v16: u16, v32: u32, x16: i16, x32: i32)
    ensures
        u16_le(u16_bytes(v16)[0], u16_bytes(v16)[1]) == v16,
        u32_le(u32_bytes(v32)[0], u32_bytes(v32)[1], u32_bytes(v32)[2], u32_bytes(v32)[3]) == v32,
        i16_of_bits(i16_bits(x16)) == x16,
        i32_of_bits(i32_bits(x32)) == x32,
{
}

/// Reads a 16-bit number from two bytes, lowest first.
pub fn read_u16(b0: u8, b1: u8) -> (v: u16)
    ensures
        v == u16_le(b0, b1),
{
    b0 as u16 + 256 * (b1 as u16)
}

/// Reads a 32-bit number from four bytes, lowest first.
pub fn read_u32(b0: u8, b1: u8, b2: u8, b3: u8) -> (v: u32)
    ensures
        v == u32_le(b0, b1, b2, b3),
{
    b0 as u32 + 256 * (b1 as u32) + 65536 * (b2 as u32) + 16777216 * (b3 as u32)
}

/// Reads a signed 16-bit number from two bytes, lowest first.
pub fn read_i16(b0: u8, b1: u8) -> (x: i16)
    ensures
        x == i16_of_bits(u16_le(b0, b1)),
{
    let bits: u16 = read_u16(b0, b1);
    if bits < 32768 {
        bits as i16
    } else {
        (bits as i32 - 65536) as i16
    }
}

/// Reads a signed 32-bit number from four bytes, lowest first.
pub fn read_i32(b0: u8, b1: u8, b2: u8, b3: u8) -> (x: i32)
    ensures
        x == i32_of_bits(u32_le(b0, b1, b2, b3)),
{
    let bits: u32 = read_u32(b0, b1, b2, b3);
    if bits < 2147483648 {
        bits as i32
    } else {
        (bits as i64 - 4294967296) as i32
    }
}

/// The 16 bits of a signed number.
pub fn bits_of_i16(x: i16) -> (bits: u16)
    ensures
        bits == i16_bits(x),
{
    if x >= 0 {
        x as u16
    } else {
        (x as i32 + 65536) as u16
    }
}

/// The 32 bits of a signed number.
pub fn bits_of_i32(x: i32) -> (bits: u32)
    ensures
        bits == i32_bits(x),
{
    if x >= 0 {
        x as u32
    } else {
        (x as i64 + 4294967296) as u32
    }
}

/// Writes a 16-bit number at the end of a vector, lowest byte first.
pub fn push_u16(bytes: &mut Vec<u8>, v: u16)
    ensures
        final(bytes)@ == old(bytes)@ + u16_bytes(v),
{
    bytes.push((v % 256) as u8);
    bytes.push((v / 256) as u8);
    assert(bytes@ =~= old(bytes)@ + u16_bytes(v));
}

/// Writes a 16-bit number into a buffer, lowest byte first.
pub fn write_u16(buffer: &mut [u8; 32], at: usize, v: u16)
    requires
        at + 2 <= 32,
    ensures
        final(buffer)@ == old(buffer)@.update(at as int, u16_bytes(v)[0]).update(
            at + 1,
            u16_bytes(v)[1],
        ),
{
    buffer[at] = (v % 256) as u8;
    buffer[at + 1] = (v / 256) as u8;
}

/// Writes a 32-bit number into a buffer, lowest byte first.
pub fn write_u32(buffer: &mut [u8; 32], at: usize, v: u32)
    requires
        at + 4 <= 32,
    ensures
        final(buffer)@ == old(buffer)@.update(at as int, u32_bytes(v)[0]).update(
            at + 1,
            u32_bytes(v)[1],
        ).update(at + 2, u32_bytes(v)[2]).update(at + 3, u32_bytes(v)[3]),
{
    buffer[at] = (v % 256) as u8;
    buffer[at + 1] = ((v / 256) % 256) as u8;
    buffer[at + 2] = ((v / 65536) % 256) as u8;
    buffer[at + 3] = (v / 16777216) as u8;
}

} // verus!
