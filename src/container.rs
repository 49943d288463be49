//! The container's fixed header and its frame-offset table.
use vstd::prelude::*;
use crate::bytes::{get_u16, get_u32, u16_le, u32_le};
use crate::error::DecodeError;

verus! {

/// Bytes that the fixed header spans from the start of the file.
pub const HEADER_LEN: usize = 0x20;

/// Offset of the frame-offset table.
pub const INDEX_OFFSET: u32 = 0x78;

/// The container's fixed metadata.
#[derive(Debug, Clone, Copy, PartialEq, Eq, Structural)]
pub struct ContainerHeader {
    pub channel_count: u16,
    pub bit_depth: u16,
    pub sample_rate: u32,
    pub sample_count: u32,
    pub first_frame_offset: u32,
}

/// The header that `f` holds, when it is long enough to hold one.
pub open spec fn header_of(f: Seq<u8>) -> ContainerHeader {
    ContainerHeader {
        channel_count: u16_le(f, 0x08) as u16,
        bit_depth: u16_le(f, 0x0A) as u16,
        sample_rate: u32_le(f, 0x0C) as u32,
        sample_count: u32_le(f, 0x10) as u32,
        first_frame_offset: u32_le(f, 0x18) as u32,
    }
}

/// Parses the fixed header: little-endian fields at fixed offsets, with no
/// check of what they hold.
pub fn parse_header(f: &[u8]) -> (r: Result<ContainerHeader, DecodeError>)
    ensures
        match r {
            Ok(h) => f@.len() >= HEADER_LEN && h == header_of(f@),
            Err(e) => e == DecodeError::TruncatedHeader && f@.len() < HEADER_LEN,
        },
{
    if f.len() < HEADER_LEN {
        return Err(DecodeError::TruncatedHeader);
    }
    let channel_count = get_u16(f, 0x08).unwrap();
    let bit_depth = get_u16(f, 0x0A).unwrap();
    let sample_rate = get_u32(f, 0x0C).unwrap();
    let sample_count = get_u32(f, 0x10).unwrap();
    let first_frame_offset = get_u32(f, 0x18).unwrap();
    Ok(ContainerHeader { channel_count, bit_depth, sample_rate, sample_count, first_frame_offset })
}

/// Where one frame's data begins, and the length its table entries give it.
#[derive(Debug, Clone, Copy, PartialEq, Eq, Structural)]
pub struct FrameIndexEntry {
    pub start_offset: u64,
    pub length: i64,
}

/// The number of slots in the frame-offset table: the words between the
/// table's offset and the first frame.
pub open spec fn frame_count(first_frame_offset: int) -> int {
    (first_frame_offset - INDEX_OFFSET) / 4
}

/// The number of frames decoded: every slot of the table but the last.
pub open spec fn decoded_frame_count(first_frame_offset: int) -> int {
    if frame_count(first_frame_offset) >= 1 {
        frame_count(first_frame_offset) - 1
    } else {
        0
    }
}

/// The table's word `i`.
pub open spec fn table_word(f: Seq<u8>, i: int) -> int {
    u32_le(f, INDEX_OFFSET + 4 * i)
}

/// Absolute offset of frame `i`.
pub open spec fn frame_start(f: Seq<u8>, first_frame_offset: int, i: int) -> int {
    table_word(f, i) + first_frame_offset
}

/// Length of frame `i` as the table gives it.
pub open spec fn frame_length(f: Seq<u8>, i: int) -> int {
    table_word(f, i + 1) - table_word(f, i) - 0x10
}

/// Whether the table entries that are read lie within `f`.
pub open spec fn index_fits(f: Seq<u8>, first_frame_offset: int) -> bool {
    first_frame_offset >= INDEX_OFFSET && (decoded_frame_count(first_frame_offset) == 0
        || INDEX_OFFSET + 4 * (decoded_frame_count(first_frame_offset) + 1) <= f.len())
}

/// Reads the frame-offset table of the container whose header is `h`: one
/// entry for each slot but the last, from the slot and the one after it.
pub fn read_frame_index(f: &[u8], h: &ContainerHeader) -> (r: Result<
    Vec<FrameIndexEntry>,
    DecodeError,
>)
    ensures
        match r {
            Ok(v) => index_fits(f@, h.first_frame_offset as int) && v@.len()
                == decoded_frame_count(h.first_frame_offset as int) && forall|i: int|
                0 <= i < v@.len() ==> {
                    &&& #[trigger] v@[i].start_offset == frame_start(
                        f@,
                        h.first_frame_offset as int,
                        i,
                    )
                    &&& v@[i].length == frame_length(f@, i)
                },
            Err(e) => e == DecodeError::TruncatedIndex && !index_fits(
                f@,
                h.first_frame_offset as int,
            ),
        },
{
    let ffo = h.first_frame_offset;
    if ffo < INDEX_OFFSET {
        return Err(DecodeError::TruncatedIndex);
    }
    let slots = (ffo - INDEX_OFFSET) / 4;
    let n: u32 = if slots >= 1 {
        slots - 1
    } else {
        0
    };
    if n > 0 && (f.len() as u64) < INDEX_OFFSET as u64 + 4 * (n as u64 + 1) {
        return Err(DecodeError::TruncatedIndex);
    }
    let mut v: Vec<FrameIndexEntry> = Vec::new();
    let mut i: u32 = 0;
    while i < n
        invariant
            i <= n,
            n == decoded_frame_count(ffo as int),
            n > 0 ==> INDEX_OFFSET + 4 * (n + 1) <= f@.len(),
            ffo == h.first_frame_offset,
            v@.len() == i,
            forall|k: int|
                0 <= k < i ==> {
                    &&& #[trigger] v@[k].start_offset == frame_start(f@, ffo as int, k)
                    &&& v@[k].length == frame_length(f@, k)
                },
        decreases n - i,
    {
        let pos = (INDEX_OFFSET + 4 * i) as usize;
        let start = get_u32(f, pos).unwrap();
        let end = get_u32(f, pos + 4).unwrap();
        let entry = FrameIndexEntry {
            start_offset: start as u64 + ffo as u64,
            length: end as i64 - start as i64 - 0x10,
        };
        v.push(entry);
        i = i + 1;
    }
    Ok(v)
}

} // verus!
