//! The header of a RIFF/WAVE file of interleaved 32-bit IEEE-float samples
//! with a `fact` chunk, and the scale that normalizes decoded samples.
use vstd::prelude::*;
use crate::bit_reader::{lemma_two_pow_monotonic, lemma_two_pow_32, two_pow};

verus! {

/// Bytes of the header that [`wav_header`] writes.
pub const WAV_HEADER_LEN: usize = 56;

/// Bytes of one output sample.
pub const BYTES_PER_SAMPLE: u32 = 4;

/// `v` modulo `2^32`, as a 32-bit size field keeps it.
pub open spec fn wrap32(v: int) -> int {
    v % 0x1_0000_0000
}

/// The two little-endian bytes of the low 16 bits of `v`.
pub open spec fn le16(v: int) -> Seq<u8> {
    seq![(v % 256) as u8, ((v / 256) % 256) as u8]
}

/// The four little-endian bytes of the low 32 bits of `v`.
pub open spec fn le32(v: int) -> Seq<u8> {
    seq![
        (v % 256) as u8,
        ((v / 0x100) % 256) as u8,
        ((v / 0x1_0000) % 256) as u8,
        ((v / 0x100_0000) % 256) as u8,
    ]
}

/// The ASCII bytes of `RIFF`, `WAVE`, `fmt `, `fact` and `data`.
pub open spec fn tag_riff() -> Seq<u8> {
    seq![0x52u8, 0x49u8, 0x46u8, 0x46u8]
}

pub open spec fn tag_wave_fmt() -> Seq<u8> {
    seq![0x57u8, 0x41u8, 0x56u8, 0x45u8, 0x66u8, 0x6Du8, 0x74u8, 0x20u8]
}

pub open spec fn tag_fact() -> Seq<u8> {
    seq![0x66u8, 0x61u8, 0x63u8, 0x74u8]
}

pub open spec fn tag_data() -> Seq<u8> {
    seq![0x64u8, 0x61u8, 0x74u8, 0x61u8]
}

/// Bytes of the sample data: 4 for each sample of each channel.
pub open spec fn data_size(channels: int, sample_count: int) -> int {
    sample_count * BYTES_PER_SAMPLE * channels
}

/// The header of a float WAV file of `channels` channels at `sample_rate` Hz
/// holding `sample_count` samples per channel; each size field is kept
/// modulo `2^32`.
pub open spec fn wav_header_bytes(channels: int, sample_rate: int, sample_count: int) -> Seq<u8> {
    tag_riff() + le32(wrap32(data_size(channels, sample_count) + 0x24 + 0xC)) + tag_wave_fmt()
        + le32(16) + le16(3) + le16(channels) + le32(sample_rate) + le32(
        wrap32(sample_rate * BYTES_PER_SAMPLE * channels),
    ) + le16(BYTES_PER_SAMPLE as int) + le16(8 * BYTES_PER_SAMPLE) + tag_fact() + le32(4) + le32(
        sample_count,
    ) + tag_data() + le32(wrap32(data_size(channels, sample_count)))
}

fn push_u16_le(out: &mut Vec<u8>, v: u16)
    ensures
        final(out)@ == old(out)@ + le16(v as int),
{
    out.push((v % 256) as u8);
    out.push((v / 256 % 256) as u8);
    assert(final(out)@ =~= old(out)@ + le16(v as int));
}

fn push_u32_le(out: &mut Vec<u8>, v: u32)
    ensures
        final(out)@ == old(out)@ + le32(v as int),
{
    out.push((v % 256) as u8);
    out.push((v / 0x100 % 256) as u8);
    out.push((v / 0x1_0000 % 256) as u8);
    out.push((v / 0x100_0000 % 256) as u8);
    assert(final(out)@ =~= old(out)@ + le32(v as int));
}

fn push_tag(out: &mut Vec<u8>, tag: &[u8])
    ensures
        final(out)@ == old(out)@ + tag@,
{
    let mut i: usize = 0;
    while i < tag.len()
        invariant
            i <= tag@.len(),
            out@ == old(out)@ + tag@.subrange(0, i as int),
        decreases tag@.len() - i,
    {
        out.push(tag[i]);
        i = i + 1;
        assert(out@ =~= old(out)@ + tag@.subrange(0, i as int));
    }
    assert(tag@.subrange(0, tag@.len() as int) =~= tag@);
}

/// Writes the header of a float WAV file: the `RIFF` chunk size, the `fmt `
/// chunk (format 3, the channel count, the sample rate, the byte rate, block
/// align 4 and 32 bits per sample), the `fact` chunk with the sample count
/// and the `data` chunk's size.
pub fn wav_header(channels: u16, sample_rate: u32, sample_count: u32) -> (r: Vec<u8>)
    ensures
        r@ == wav_header_bytes(channels as int, sample_rate as int, sample_count as int),
        r@.len() == WAV_HEADER_LEN,
{
    let sc = sample_count as u64;
    let ch = channels as u64;
    let sr = sample_rate as u64;
    assert(sc * 4 * ch <= 0xFFFF_FFFF * 4 * 0xFFFF) by (nonlinear_arith)
        requires
            sc <= 0xFFFF_FFFF,
            ch <= 0xFFFF,
    ;
    assert(sr * 4 * ch <= 0xFFFF_FFFF * 4 * 0xFFFF) by (nonlinear_arith)
        requires
            sr <= 0xFFFF_FFFF,
            ch <= 0xFFFF,
    ;
    let data = (sc * 4 * ch) % 0x1_0000_0000;
    let riff = (sc * 4 * ch + 0x24 + 0xC) % 0x1_0000_0000;
    let rate = (sr * 4 * ch) % 0x1_0000_0000;
    let mut out: Vec<u8> = Vec::new();
    push_tag(&mut out, &[0x52u8, 0x49u8, 0x46u8, 0x46u8]);
    push_u32_le(&mut out, riff as u32);
    push_tag(&mut out, &[0x57u8, 0x41u8, 0x56u8, 0x45u8, 0x66u8, 0x6Du8, 0x74u8, 0x20u8]);
    push_u32_le(&mut out, 16);
    push_u16_le(&mut out, 3);
    push_u16_le(&mut out, channels);
    push_u32_le(&mut out, sample_rate);
    push_u32_le(&mut out, rate as u32);
    push_u16_le(&mut out, BYTES_PER_SAMPLE as u16);
    push_u16_le(&mut out, 8 * BYTES_PER_SAMPLE as u16);
    push_tag(&mut out, &[0x66u8, 0x61u8, 0x63u8, 0x74u8]);
    push_u32_le(&mut out, 4);
    push_u32_le(&mut out, sample_count);
    push_tag(&mut out, &[0x64u8, 0x61u8, 0x74u8, 0x61u8]);
    push_u32_le(&mut out, data as u32);
    assert(out@ =~= wav_header_bytes(channels as int, sample_rate as int, sample_count as int));
    out
}

/// The divisor that normalizes a sample of `bit_depth` bits to `[-1, 1]`:
/// `2^(bit_depth - 1)`, for a depth of 1 to 32 bits; `None` for any other.
pub fn sample_scale(bit_depth: u16) -> (r: Option<u64>)
    ensures
        match r {
            Some(s) => 1 <= bit_depth <= 32 && s as int == two_pow((bit_depth - 1) as nat),
            None => bit_depth < 1 || bit_depth > 32,
        },
{
    if bit_depth < 1 || bit_depth > 32 {
        return None;
    }
    let mut s: u64 = 1;
    let mut i: u16 = 1;
    while i < bit_depth
        invariant
            1 <= i <= bit_depth <= 32,
            s as int == two_pow((i - 1) as nat),
        decreases bit_depth - i,
    {
        proof {
            lemma_two_pow_monotonic(i as nat, 32);
            lemma_two_pow_32();
        }
        s = s * 2;
        i = i + 1;
    }
    Some(s)
}

} // verus!
