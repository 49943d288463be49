use ncw_decode::bit_reader::{sign_extend_bits, BitReader};
use ncw_decode::bytes::{get_i32, get_u16, get_u32};
use ncw_decode::container::{parse_header, read_frame_index, ContainerHeader, FrameIndexEntry};
use ncw_decode::decode::decode_container;
use ncw_decode::error::DecodeError;
use ncw_decode::frame::{decode_channel, decode_frames, DecodedFrames};
use ncw_decode::reconstruct::reconstruct;
use ncw_decode::wav::{sample_scale, wav_header};

fn put_u16(f: &mut Vec<u8>, at: usize, v: u16) {
    f[at..at + 2].copy_from_slice(&v.to_le_bytes());
}

fn put_u32(f: &mut Vec<u8>, at: usize, v: u32) {
    f[at..at + 4].copy_from_slice(&v.to_le_bytes());
}

fn sub_header(start: i32, bits: u16, mode: u16) -> Vec<u8> {
    let mut h = vec![0u8; 16];
    h[4..8].copy_from_slice(&start.to_le_bytes());
    h[8..10].copy_from_slice(&bits.to_le_bytes());
    h[10..12].copy_from_slice(&mode.to_le_bytes());
    h
}

/// A container with one decoded frame (two table slots) whose channel
/// blocks are `channels`, each a sub-header followed by its stream.
fn container(channel_count: u16, sample_count: u32, channels: &[Vec<u8>]) -> Vec<u8> {
    let first_frame = 0x80u32;
    let mut f = vec![0u8; first_frame as usize];
    put_u16(&mut f, 0x08, channel_count);
    put_u16(&mut f, 0x0A, 16);
    put_u32(&mut f, 0x0C, 44100);
    put_u32(&mut f, 0x10, sample_count);
    put_u32(&mut f, 0x18, first_frame);
    let body: usize = channels.iter().map(|c| c.len()).sum();
    put_u32(&mut f, 0x78, 0);
    put_u32(&mut f, 0x7C, body as u32 + 0x10);
    for c in channels {
        f.extend_from_slice(c);
    }
    f
}

fn channel(start: i32, bits: u16, mode: u16, fill: u8) -> Vec<u8> {
    let mut c = sub_header(start, bits, mode);
    c.extend(std::iter::repeat(fill).take(bits as usize * 64));
    c
}

#[test]
fn sign_extension_of_fields() {
    assert_eq!(sign_extend_bits(0b1111, 4), -1);
    assert_eq!(sign_extend_bits(0b1000, 4), -8);
    assert_eq!(sign_extend_bits(0b0111, 4), 7);
    assert_eq!(sign_extend_bits(0, 4), 0);
    assert_eq!(sign_extend_bits(1, 1), -1);
    assert_eq!(sign_extend_bits(0x8000_0000, 32), -0x8000_0000);
    assert_eq!(sign_extend_bits(0x7FFF_FFFF, 32), 0x7FFF_FFFF);
    assert_eq!(sign_extend_bits(0, 0), 0);
}

#[test]
fn bit_reader_reads_least_significant_bit_first() {
    let mut r = BitReader::new(vec![0b1010_1100, 0xFF]);
    assert_eq!(r.read_bits(3), Ok(0b100));
    assert_eq!(r.read_bits(5), Ok(0b10101));
    assert_eq!(r.read_bits(4), Ok(0xF));
    assert_eq!(r.bit_position(), 12);
    assert_eq!(r.read_bits(5), Err(DecodeError::BufferExhausted));
    assert_eq!(r.bit_position(), 12);
    assert_eq!(r.read_bits(4), Ok(0xF));
    assert_eq!(r.read_bits(1), Err(DecodeError::BufferExhausted));
    assert_eq!(r.read_bits(0), Ok(0));
}

#[test]
fn bit_reader_reads_across_bytes_and_full_width() {
    let mut r = BitReader::new(vec![0x78, 0x56, 0x34, 0x12, 0x01]);
    assert_eq!(r.read_bits(32), Ok(0x1234_5678));
    assert_eq!(r.read_bits(8), Ok(1));
}

#[test]
fn bit_reader_aligns_to_byte_boundaries() {
    let mut r = BitReader::new(vec![0; 64]);
    r.align_to_bytes(16);
    assert_eq!(r.bit_position(), 0);
    r.read_bits(1).unwrap();
    r.align_to_bytes(16);
    assert_eq!(r.bit_position(), 128);
    r.align_to_bytes(16);
    assert_eq!(r.bit_position(), 128);
    r.read_bits(9).unwrap();
    r.align_to_bytes(2);
    assert_eq!(r.bit_position(), 144);
}

#[test]
fn little_endian_fields() {
    let b = [0x34, 0x12, 0xFF, 0xFF, 0xFF, 0xFF];
    assert_eq!(get_u16(&b, 0), Some(0x1234));
    assert_eq!(get_u32(&b, 0), Some(0xFFFF_1234));
    assert_eq!(get_i32(&b, 2), Some(-1));
    assert_eq!(get_i32(&b, 0), Some(-0xEDCC));
    assert_eq!(get_u16(&b, 5), None);
    assert_eq!(get_u32(&b, 3), None);
    assert_eq!(get_u32(&b, 7), None);
}

#[test]
fn header_fields_and_truncation() {
    let f = container(2, 1000, &[]);
    let h = parse_header(&f).unwrap();
    assert_eq!(
        h,
        ContainerHeader {
            channel_count: 2,
            bit_depth: 16,
            sample_rate: 44100,
            sample_count: 1000,
            first_frame_offset: 0x80,
        }
    );
    assert_eq!(parse_header(&f[..0x1F]), Err(DecodeError::TruncatedHeader));
    assert!(parse_header(&f[..0x20]).is_ok());
}

#[test]
fn frame_index_skips_last_slot() {
    let mut f = vec![0u8; 0x100];
    put_u32(&mut f, 0x18, 0x78 + 4 * 4);
    put_u32(&mut f, 0x78, 0);
    put_u32(&mut f, 0x7C, 0x30);
    put_u32(&mut f, 0x80, 0x50);
    put_u32(&mut f, 0x84, 0x70);
    let h = parse_header(&f).unwrap();
    let v = read_frame_index(&f, &h).unwrap();
    assert_eq!(
        v,
        vec![
            FrameIndexEntry { start_offset: 0x88, length: 0x20 },
            FrameIndexEntry { start_offset: 0x88 + 0x30, length: 0x10 },
            FrameIndexEntry { start_offset: 0x88 + 0x50, length: 0x10 },
        ]
    );
}

#[test]
fn frame_index_errors_and_empty_tables() {
    let mut f = vec![0u8; 0x80];
    put_u32(&mut f, 0x18, 0x70);
    let h = parse_header(&f).unwrap();
    assert_eq!(read_frame_index(&f, &h), Err(DecodeError::TruncatedIndex));
    put_u32(&mut f, 0x18, 0x7C);
    let h = parse_header(&f).unwrap();
    assert_eq!(read_frame_index(&f, &h), Ok(vec![]));
    put_u32(&mut f, 0x18, 0x78 + 4 * 3);
    let h = parse_header(&f).unwrap();
    assert_eq!(read_frame_index(&f, &h), Err(DecodeError::TruncatedIndex));
}

#[test]
fn channel_decodes_alternating_deltas() {
    // Each byte 0b11_01_11_01 holds the 2-bit deltas +1, -1, +1, -1.
    let f = channel(-7, 2, 0, 0xDD);
    let (b, next) = decode_channel(&f, 0).unwrap();
    assert_eq!(b.start_sample, -7);
    assert_eq!(b.bits_per_sample, 2);
    assert_eq!(b.mode, 0);
    assert_eq!(b.samples.len(), 512);
    for (k, s) in b.samples.iter().enumerate() {
        assert_eq!(*s, if k % 2 == 0 { -7 } else { -6 });
    }
    assert_eq!(next, 16 + 128);
}

#[test]
fn channel_first_sample_is_seed() {
    let f = channel(i32::MIN, 32, 1, 0xFF);
    let (b, _) = decode_channel(&f, 0).unwrap();
    assert_eq!(b.samples[0], i32::MIN as i64);
    assert_eq!(b.samples[511], i32::MIN as i64 - 511);
}

#[test]
fn channel_of_width_zero_repeats_seed() {
    let f = channel(42, 0, 0, 0);
    let (b, next) = decode_channel(&f, 0).unwrap();
    assert!(b.samples.iter().all(|s| *s == 42));
    assert_eq!(next, 16);
}

#[test]
fn padded_stream_ends_where_allotted() {
    for w in 0..=32u16 {
        let f = channel(0, w, 0, 0);
        let (_, next) = decode_channel(&f, 0).unwrap();
        assert_eq!(next, 16 + 64 * w as usize);
        assert_eq!((next - 16) % 16, 0);
    }
}

#[test]
fn channel_errors() {
    let f = channel(0, 33, 0, 0);
    assert_eq!(decode_channel(&f, 0).err(), Some(DecodeError::UnsupportedBitWidth));
    let f = channel(0, 4, 0, 0);
    assert_eq!(decode_channel(&f[..f.len() - 1], 0).err(), Some(DecodeError::BufferExhausted));
    assert_eq!(decode_channel(&f[..15], 0).err(), Some(DecodeError::BufferExhausted));
    assert_eq!(decode_channel(&f, f.len()).err(), Some(DecodeError::BufferExhausted));
}

#[test]
fn frames_follow_each_other_within_a_frame() {
    let mut f = channel(10, 1, 1, 0);
    f.extend(channel(20, 3, 0, 0));
    let entries = vec![FrameIndexEntry { start_offset: 0, length: 0 }];
    let d = decode_frames(&f, 2, &entries).unwrap();
    assert_eq!(d.modes, vec![1]);
    assert_eq!(d.frames.len(), 1);
    assert!(d.frames[0][0].iter().all(|s| *s == 10));
    assert!(d.frames[0][1].iter().all(|s| *s == 20));
    assert_eq!(decode_frames(&f, 0, &entries).err(), Some(DecodeError::UnsupportedLayout));
    assert_eq!(decode_frames(&f, 3, &entries).err(), Some(DecodeError::BufferExhausted));
    let far = vec![FrameIndexEntry { start_offset: 1 << 40, length: 0 }];
    assert_eq!(decode_frames(&f, 1, &far).err(), Some(DecodeError::BufferExhausted));
}

fn one_frame(channels: Vec<Vec<i64>>, mode: u16) -> DecodedFrames {
    DecodedFrames { channel_count: channels.len() as u16, frames: vec![channels], modes: vec![mode] }
}

#[test]
fn mid_side_round_trip() {
    let scale = sample_scale(16).unwrap() as f32;
    let mid = vec![(5.0 * scale) as i64; 512];
    let side = vec![(1.5 * scale) as i64; 512];
    let d = one_frame(vec![mid, side], 1);
    let out = reconstruct(&d, 1).unwrap();
    assert_eq!(out.len(), 2);
    assert_eq!(out[0] as f32 / scale, 6.5);
    assert_eq!(out[1] as f32 / scale, 3.5);
}

#[test]
fn direct_frames_interleave() {
    let left: Vec<i64> = (0..512).collect();
    let right: Vec<i64> = (0..512).map(|i| -i).collect();
    let d = one_frame(vec![left, right], 0);
    let out = reconstruct(&d, 3).unwrap();
    assert_eq!(out, vec![0, 0, 1, -1, 2, -2]);
}

#[test]
fn reconstruct_errors() {
    let d = one_frame(vec![vec![0; 512]], 1);
    assert_eq!(reconstruct(&d, 1), Err(DecodeError::UnsupportedLayout));
    assert_eq!(reconstruct(&d, 0), Ok(vec![]));
    let d = one_frame(vec![vec![0; 512]], 0);
    assert_eq!(reconstruct(&d, 513), Err(DecodeError::TruncatedIndex));
    assert_eq!(reconstruct(&d, 512).unwrap().len(), 512);
}

#[test]
fn normalization_bound() {
    let scale = sample_scale(16).unwrap();
    assert_eq!(scale, 32768);
    let hi = 32767i64 as f32 / scale as f32;
    assert!((hi - 0.9999695).abs() < 1e-6);
    assert_eq!(-32768i64 as f32 / scale as f32, -1.0);
    assert_eq!(sample_scale(24), Some(1 << 23));
    assert_eq!(sample_scale(1), Some(1));
    assert_eq!(sample_scale(32), Some(1 << 31));
    assert_eq!(sample_scale(0), None);
    assert_eq!(sample_scale(33), None);
}

#[test]
fn wav_header_layout() {
    let h = wav_header(2, 48000, 10);
    let mut want = Vec::new();
    want.extend_from_slice(b"RIFF");
    want.extend_from_slice(&(10u32 * 4 * 2 + 0x24 + 0xC).to_le_bytes());
    want.extend_from_slice(b"WAVEfmt ");
    want.extend_from_slice(&16u32.to_le_bytes());
    want.extend_from_slice(&3u16.to_le_bytes());
    want.extend_from_slice(&2u16.to_le_bytes());
    want.extend_from_slice(&48000u32.to_le_bytes());
    want.extend_from_slice(&(48000u32 * 4 * 2).to_le_bytes());
    want.extend_from_slice(&4u16.to_le_bytes());
    want.extend_from_slice(&32u16.to_le_bytes());
    want.extend_from_slice(b"fact");
    want.extend_from_slice(&4u32.to_le_bytes());
    want.extend_from_slice(&10u32.to_le_bytes());
    want.extend_from_slice(b"data");
    want.extend_from_slice(&80u32.to_le_bytes());
    assert_eq!(h, want);
    assert_eq!(h.len(), 56);
}

#[test]
fn wav_header_sizes_wrap() {
    let h = wav_header(0xFFFF, 0xFFFF_FFFF, 0xFFFF_FFFF);
    let riff = (0xFFFF_FFFFu64 * 4 * 0xFFFF + 0x30) as u32;
    assert_eq!(&h[4..8], &riff.to_le_bytes());
    let rate = (0xFFFF_FFFFu64 * 4 * 0xFFFF) as u32;
    assert_eq!(&h[28..32], &rate.to_le_bytes());
    assert_eq!(&h[52..56], &rate.to_le_bytes());
}

#[test]
fn end_to_end_single_channel() {
    let f = container(1, 512, &[channel(100, 4, 0, 0)]);
    let a = decode_container(&f).unwrap();
    assert_eq!(a.header.channel_count, 1);
    assert_eq!(a.frames.frames.len(), 1);
    assert_eq!(a.samples.len(), 512);
    let scale = sample_scale(a.header.bit_depth).unwrap() as f32;
    for s in &a.samples {
        assert_eq!(*s as f32 / scale, 100.0 / 32768.0);
    }
    let h = wav_header(a.header.channel_count, a.header.sample_rate, a.header.sample_count);
    assert_eq!(&h[4..8], &(512u32 * 4 + 0x24 + 0xC).to_le_bytes());
    assert_eq!(&h[24..28], &44100u32.to_le_bytes());
    assert_eq!(&h[40..44], &4u32.to_le_bytes());
    assert_eq!(&h[44..48], &512u32.to_le_bytes());
    assert_eq!(&h[48..52], b"data");
    assert_eq!(&h[52..56], &(512u32 * 4).to_le_bytes());
}

#[test]
fn end_to_end_truncates_to_sample_count() {
    let f = container(2, 3, &[channel(1, 1, 1, 0), channel(2, 1, 0, 0)]);
    let a = decode_container(&f).unwrap();
    assert_eq!(a.samples, vec![3, -1, 3, -1, 3, -1]);
    assert_eq!(a.frames.frames[0][0].len(), 512);
}

#[test]
fn end_to_end_errors() {
    let f = container(1, 512, &[channel(100, 4, 0, 0)]);
    assert_eq!(decode_container(&f[..0x10]).err(), Some(DecodeError::TruncatedHeader));
    assert_eq!(decode_container(&f[..0x7F]).err(), Some(DecodeError::TruncatedIndex));
    assert_eq!(decode_container(&f[..f.len() - 1]).err(), Some(DecodeError::BufferExhausted));
    let f = container(1, 513, &[channel(100, 4, 0, 0)]);
    assert_eq!(decode_container(&f).err(), Some(DecodeError::TruncatedIndex));
    let f = container(1, 512, &[channel(100, 4, 1, 0)]);
    assert_eq!(decode_container(&f).err(), Some(DecodeError::UnsupportedLayout));
    let f = container(0, 0, &[]);
    assert_eq!(decode_container(&f).err(), Some(DecodeError::UnsupportedLayout));
    let f = container(1, 512, &[channel(100, 40, 0, 0)]);
    assert_eq!(decode_container(&f).err(), Some(DecodeError::UnsupportedBitWidth));
}
