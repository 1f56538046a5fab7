//! Little-endian field encoding shared by the wire codec and the serial
//! framing: fixed-width integers are carried as little-endian bytes, signed
//! values in two's complement.

use vstd::prelude::*;
use vstd::bytes::*;

verus! {

/// Two's-complement bit pattern of an `i32`, as the `u32` with the same bits.
pub open spec fn u32_of_i32(x: i32) -> u32 {
    if x >= 0 {
        x as u32
    } else {
        (x + 0x1_0000_0000) as u32
    }
}

/// Inverse of `u32_of_i32`.
pub open spec fn i32_of_u32(u: u32) -> i32 {
    if u < 0x8000_0000 {
        u as i32
    } else {
        (u - 0x1_0000_0000) as i32
    }
}

/// Two's-complement bit pattern of an `i8`, as the `u8` with the same bits.
pub open spec fn u8_of_i8(x: i8) -> u8 {
    if x >= 0 {
        x as u8
    } else {
        (x + 0x100) as u8
    }
}

/// Inverse of `u8_of_i8`.
pub open spec fn i8_of_u8(u: u8) -> i8 {
    if u < 0x80 {
        u as i8
    } else {
        (u - 0x100) as i8
    }
}

pub proof fn lemma_i32_u32_roundtrip(x: i32)
    ensures
        i32_of_u32(u32_of_i32(x)) == x,
{
}

pub proof fn lemma_i8_u8_roundtrip(x: i8)
    ensures
        i8_of_u8(u8_of_i8(x)) == x,
{
}

/// The four little-endian bytes of an `i32` in two's complement.
pub open spec fn le_bytes_of_i32(x: i32) -> Seq<u8> {
    spec_u32_to_le_bytes(u32_of_i32(x))
}

/// The `i32` read back from four little-endian two's-complement bytes.
pub open spec fn i32_of_le_bytes(s: Seq<u8>) -> i32
    recommends
        s.len() == 4,
{
    i32_of_u32(spec_u32_from_le_bytes(s))
}

pub proof fn lemma_i32_le_roundtrip(x: i32)
    ensures
        le_bytes_of_i32(x).len() == 4,
        i32_of_le_bytes(le_bytes_of_i32(x)) == x,
{
    lemma_auto_spec_u32_to_from_le_bytes();
    let u = u32_of_i32(x);
    assert(spec_u32_to_le_bytes(u).len() == 4);
    assert(spec_u32_from_le_bytes(spec_u32_to_le_bytes(u)) == u);
    lemma_i32_u32_roundtrip(x);
}

pub fn i32_to_u32(x: i32) -> (r: u32)
    ensures
        r == u32_of_i32(x),
{
    if x >= 0 {
        x as u32
    } else {
        ((x as i64) + 0x1_0000_0000i64) as u32
    }
}

pub fn u32_to_i32(u: u32) -> (r: i32)
    ensures
        r == i32_of_u32(u),
{
    if u < 0x8000_0000 {
        u as i32
    } else {
        ((u as i64) - 0x1_0000_0000i64) as i32
    }
}

pub fn i8_to_u8(x: i8) -> (r: u8)
    ensures
        r == u8_of_i8(x),
{
    if x >= 0 {
        x as u8
    } else {
        ((x as i16) + 0x100i16) as u8
    }
}

pub fn u8_to_i8(u: u8) -> (r: i8)
    ensures
        r == i8_of_u8(u),
{
    if u < 0x80 {
        u as i8
    } else {
        ((u as i16) - 0x100i16) as i8
    }
}

/// Appends the two little-endian bytes of `x`.
pub fn push_u16_le(out: &mut Vec<u8>, x: u16)
    ensures
        final(out)@ == old(out)@ + spec_u16_to_le_bytes(x),
{
    proof {
        lemma_auto_spec_u16_to_from_le_bytes();
    }
    let b = u16_to_le_bytes(x);
    out.push(b[0]);
    out.push(b[1]);
    assert(out@ =~= old(out)@ + spec_u16_to_le_bytes(x));
}

/// Appends the four little-endian bytes of `x`.
pub fn push_u32_le(out: &mut Vec<u8>, x: u32)
    ensures
        final(out)@ == old(out)@ + spec_u32_to_le_bytes(x),
{
    proof {
        lemma_auto_spec_u32_to_from_le_bytes();
    }
    let b = u32_to_le_bytes(x);
    out.push(b[0]);
    out.push(b[1]);
    out.push(b[2]);
    out.push(b[3]);
    assert(out@ =~= old(out)@ + spec_u32_to_le_bytes(x));
}

/// Appends the four little-endian two's-complement bytes of `x`.
pub fn push_i32_le(out: &mut Vec<u8>, x: i32)
    ensures
        final(out)@ == old(out)@ + le_bytes_of_i32(x),
{
    let u = i32_to_u32(x);
    push_u32_le(out, u);
}

/// Reads the `u16` stored little-endian at `s[at..at + 2]`.
pub fn read_u16_le(s: &[u8], at: usize) -> (r: u16)
    requires
        at + 2 <= s@.len(),
    ensures
        r == spec_u16_from_le_bytes(s@.subrange(at as int, at + 2)),
{
    let n = s.len();
    u16_from_le_bytes(&s[at..at + 2])
}

/// Reads the `u32` stored little-endian at `s[at..at + 4]`.
pub fn read_u32_le(s: &[u8], at: usize) -> (r: u32)
    requires
        at + 4 <= s@.len(),
    ensures
        r == spec_u32_from_le_bytes(s@.subrange(at as int, at + 4)),
{
    let n = s.len();
    u32_from_le_bytes(&s[at..at + 4])
}

/// Reads the `i32` stored little-endian, two's complement, at `s[at..at + 4]`.
pub fn read_i32_le(s: &[u8], at: usize) -> (r: i32)
    requires
        at + 4 <= s@.len(),
    ensures
        r == i32_of_le_bytes(s@.subrange(at as int, at + 4)),
{
    let u = read_u32_le(s, at);
    u32_to_i32(u)
}

} // verus!
