//! Little-endian integer fields at absolute offsets of a byte buffer.
use vstd::prelude::*;

verus! {

/// The unsigned 16-bit little-endian value at `off`.
pub open spec fn u16_le(s: Seq<u8>, off: int) -> int {
    s[off] as int + 256 * (s[off + 1] as int)
}

/// The unsigned 32-bit little-endian value at `off`.
pub open spec fn u32_le(s: Seq<u8>, off: int) -> int {
    u16_le(s, off) + 65536 * u16_le(s, off + 2)
}

/// The two's-complement signed 32-bit little-endian value at `off`.
pub open spec fn i32_le(s: Seq<u8>, off: int) -> int {
    if u32_le(s, off) >= 0x8000_0000 {
        u32_le(s, off) - 0x1_0000_0000
    } else {
        u32_le(s, off)
    }
}

/// Reads a little-endian `u16` at `pos`; `None` when fewer than two bytes remain.
pub fn get_u16(bytes: &[u8], pos: usize) -> (r: Option<u16>)
    ensures
        match r {
            Some(v) => pos + 2 <= bytes@.len() && v as int == u16_le(bytes@, pos as int),
            None => pos + 2 > bytes@.len(),
        },
{
    if pos > bytes.len() || bytes.len() - pos < 2 {
        return None;
    }
    let lo = bytes[pos] as u16;
    let hi = bytes[pos + 1] as u16;
    Some(lo + 256 * hi)
}

/// Reads a little-endian `u32` at `pos`; `None` when fewer than four bytes remain.
pub fn get_u32(bytes: &[u8], pos: usize) -> (r: Option<u32>)
    ensures
        match r {
            Some(v) => pos + 4 <= bytes@.len() && v as int == u32_le(bytes@, pos as int),
            None => pos + 4 > bytes@.len(),
        },
{
    if pos > bytes.len() || bytes.len() - pos < 4 {
        return None;
    }
    let b0 = bytes[pos] as u32;
    let b1 = bytes[pos + 1] as u32;
    let b2 = bytes[pos + 2] as u32;
    let b3 = bytes[pos + 3] as u32;
    Some(b0 + 256 * b1 + 65536 * (b2 + 256 * b3))
}

/// Reads a little-endian two's-complement `i32` at `pos`; `None` when fewer
/// than four bytes remain.
pub fn get_i32(bytes: &[u8], pos: usize) -> (r: Option<i32>)
    ensures
        match r {
            Some(v) => pos + 4 <= bytes@.len() && v as int == i32_le(bytes@, pos as int),
            None => pos + 4 > bytes@.len(),
        },
{
    match get_u32(bytes, pos) {
        None => None,
        Some(u) => {
            if u >= 0x8000_0000 {
                Some((u as i64 - 0x1_0000_0000i64) as i32)
            } else {
                Some(u as i32)
            }
        },
    }
}

} // verus!
