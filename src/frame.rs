//! The delta-coded frames: each holds, for every channel in turn, a
//! sub-header and a bit-packed stream of 511 deltas after a seed sample.
use vstd::prelude::*;
use vstd::arithmetic::div_mod::lemma_fundamental_div_mod_converse;
use crate::bit_reader::{
    align_up, bits_le, sign_extend, sign_extend_bits, lemma_bits_le_range,
    lemma_sign_extend_range, BitReader,
};
use crate::bytes::{get_i32, get_u16, i32_le, u16_le};
use crate::container::FrameIndexEntry;
use crate::error::DecodeError;

verus! {

/// Samples that every frame holds for each channel.
pub const FRAME_SAMPLES: usize = 512;

/// Bytes of a channel's sub-header.
pub const SUB_HEADER_LEN: usize = 16;

/// No decoded sample lies further from zero than this: a 32-bit seed plus
/// 511 deltas of at most 32 bits each.
pub const SAMPLE_BOUND: i64 = 0x100_0000_0000;

/// Widest delta field that can be decoded.
pub const MAX_DELTA_BITS: u16 = 32;

/// The seed sample of the channel whose sub-header is at `p`.
pub open spec fn start_sample_at(f: Seq<u8>, p: int) -> int {
    i32_le(f, p + 4)
}

/// The delta width of the channel whose sub-header is at `p`.
pub open spec fn width_at(f: Seq<u8>, p: int) -> nat {
    u16_le(f, p + 8) as nat
}

/// The encoding-mode flag of the channel whose sub-header is at `p`.
pub open spec fn mode_at(f: Seq<u8>, p: int) -> int {
    u16_le(f, p + 10)
}

/// Bytes of a delta stream of width `w`: `w * 512 / 8`.
pub open spec fn stream_len(w: nat) -> int {
    64 * (w as int)
}

/// Bytes that a stream of 511 deltas of width `w` takes up once padded to a
/// multiple of 16 bytes.
pub open spec fn consumed_len(w: nat) -> int {
    align_up(511 * (w as int), 128) / 8
}

/// Why the channel whose sub-header is at `p` cannot be decoded, if it can't.
pub open spec fn channel_error(f: Seq<u8>, p: int) -> Option<DecodeError> {
    if p + SUB_HEADER_LEN > f.len() {
        Some(DecodeError::BufferExhausted)
    } else if width_at(f, p) > MAX_DELTA_BITS {
        Some(DecodeError::UnsupportedBitWidth)
    } else if p + SUB_HEADER_LEN + stream_len(width_at(f, p)) > f.len() {
        Some(DecodeError::BufferExhausted)
    } else {
        None
    }
}

/// The delta stream of the channel whose sub-header is at `p`.
pub open spec fn stream_of(f: Seq<u8>, p: int) -> Seq<u8> {
    f.subrange(p + SUB_HEADER_LEN, p + SUB_HEADER_LEN + stream_len(width_at(f, p)))
}

/// Delta `k` of a stream of `w`-bit fields.
pub open spec fn delta_at(s: Seq<u8>, w: nat, k: int) -> int {
    sign_extend(bits_le(s, k * w, w), w)
}

/// Sample `k` of a run seeded with `start`: the seed plus the first `k` deltas.
pub open spec fn sample_at(s: Seq<u8>, start: int, w: nat, k: nat) -> int
    decreases k,
{
    if k == 0 {
        start
    } else {
        sample_at(s, start, w, (k - 1) as nat) + delta_at(s, w, k - 1)
    }
}

/// Sample `k` of the channel whose sub-header is at `p`.
pub open spec fn channel_sample(f: Seq<u8>, p: int, k: nat) -> int {
    sample_at(stream_of(f, p), start_sample_at(f, p), width_at(f, p), k)
}

/// Where the sub-header after the channel at `p` begins.
pub open spec fn channel_end(f: Seq<u8>, p: int) -> int {
    p + SUB_HEADER_LEN + consumed_len(width_at(f, p))
}

/// Where channel `c` of the frame that begins at `o` has its sub-header.
pub open spec fn channel_pos(f: Seq<u8>, o: int, c: nat) -> int
    decreases c,
{
    if c == 0 {
        o
    } else {
        channel_end(f, channel_pos(f, o, (c - 1) as nat))
    }
}

/// Whether all `n` channels of the frame that begins at `o` can be decoded.
pub open spec fn frame_ok(f: Seq<u8>, o: int, n: nat) -> bool {
    forall|c: nat| c < n ==> (#[trigger] channel_error(f, channel_pos(f, o, c))).is_none()
}

/// Whether `blocks` holds the decoded samples of the `n` channels of the frame
/// that begins at `o`.
pub open spec fn frame_decoded(f: Seq<u8>, o: int, n: nat, blocks: Seq<Vec<i64>>) -> bool {
    &&& blocks.len() == n
    &&& forall|c: int|
        0 <= c < n ==> {
            &&& (#[trigger] blocks[c])@.len() == FRAME_SAMPLES
            &&& forall|k: int|
                0 <= k < FRAME_SAMPLES ==> {
                    &&& (#[trigger] blocks[c]@[k]) as int == channel_sample(
                        f,
                        channel_pos(f, o, c as nat),
                        k as nat,
                    )
                    &&& -SAMPLE_BOUND <= blocks[c]@[k] <= SAMPLE_BOUND
                }
        }
}

/// A stream of 511 deltas of width at most 32, once padded, ends on a
/// 16-byte boundary, exactly where its allotted `w * 512 / 8` bytes end.
pub proof fn lemma_padded_stream(w: nat)
    requires
        w <= MAX_DELTA_BITS,
    ensures
        consumed_len(w) % 16 == 0,
        consumed_len(w) == stream_len(w),
{
    if w > 0 {
        let x = 511 * (w as int);
        assert(x == 128 * (4 * w - 1) + (128 - w));
        lemma_fundamental_div_mod_converse(x, 128, 4 * w - 1, 128 - w);
        assert(align_up(x, 128) == 512 * w);
    }
}

/// The first sample of every channel of every frame is its seed, as stored.
pub proof fn lemma_first_sample_is_seed(f: Seq<u8>, p: int)
    ensures
        channel_sample(f, p, 0) == start_sample_at(f, p),
{
}

/// One channel's block of decoded samples, with the fields of its sub-header.
pub struct ChannelBlock {
    pub start_sample: i32,
    pub bits_per_sample: u16,
    pub mode: u16,
    pub samples: Vec<i64>,
}

/// Decodes the channel whose sub-header is at `p`, and returns it with the
/// offset at which the next channel's sub-header begins.
pub fn decode_channel(f: &[u8], p: usize) -> (r: Result<(ChannelBlock, usize), DecodeError>)
    ensures
        match r {
            Ok((b, next)) => {
                &&& channel_error(f@, p as int).is_none()
                &&& b.start_sample as int == start_sample_at(f@, p as int)
                &&& b.bits_per_sample as int == width_at(f@, p as int)
                &&& b.mode as int == mode_at(f@, p as int)
                &&& b.samples@.len() == FRAME_SAMPLES
                &&& b.samples@[0] == b.start_sample
                &&& forall|k: int|
                    0 <= k < FRAME_SAMPLES ==> {
                        &&& (#[trigger] b.samples@[k]) as int == channel_sample(
                            f@,
                            p as int,
                            k as nat,
                        )
                        &&& -SAMPLE_BOUND <= b.samples@[k] <= SAMPLE_BOUND
                    }
                &&& next as int == channel_end(f@, p as int)
                &&& next <= f@.len()
            },
            Err(e) => channel_error(f@, p as int) == Some(e),
        },
{
    if f.len() < SUB_HEADER_LEN || p > f.len() - SUB_HEADER_LEN {
        return Err(DecodeError::BufferExhausted);
    }
    let start = get_i32(f, p + 4).unwrap();
    let w = get_u16(f, p + 8).unwrap();
    let mode = get_u16(f, p + 10).unwrap();
    if w > MAX_DELTA_BITS {
        return Err(DecodeError::UnsupportedBitWidth);
    }
    let q = p + SUB_HEADER_LEN;
    let n = w as usize * 64;
    if n > f.len() - q {
        return Err(DecodeError::BufferExhausted);
    }
    let flen = f.len();
    let mut buf: Vec<u8> = Vec::new();
    let mut i: usize = 0;
    while i < n
        invariant
            i <= n,
            flen == f@.len(),
            q + n <= flen,
            buf@ == f@.subrange(q as int, q + i),
        decreases n - i,
    {
        buf.push(f[q + i]);
        i = i + 1;
        assert(buf@ =~= f@.subrange(q as int, q + i));
    }
    let ghost s = buf@;
    let ghost wn = w as nat;
    assert(s == stream_of(f@, p as int));
    let mut reader = BitReader::new(buf);
    let mut samples: Vec<i64> = Vec::new();
    let mut acc: i64 = start as i64;
    samples.push(acc);
    let mut k: usize = 1;
    while k < FRAME_SAMPLES
        invariant
            1 <= k <= FRAME_SAMPLES,
            w <= MAX_DELTA_BITS,
            wn == w,
            s.len() == 64 * wn,
            reader.wf(),
            reader.bytes() == s,
            reader.position() == (k - 1) * wn,
            samples@.len() == k,
            acc as int == sample_at(s, start as int, wn, (k - 1) as nat),
            -(k as int) * 0x8000_0000 <= acc <= (k as int) * 0x8000_0000,
            forall|j: int|
                0 <= j < k ==> {
                    &&& (#[trigger] samples@[j]) as int == sample_at(s, start as int, wn, j as nat)
                    &&& -SAMPLE_BOUND <= samples@[j] <= SAMPLE_BOUND
                },
        decreases FRAME_SAMPLES - k,
    {
        assert((k - 1) * wn + wn == k * wn) by (nonlinear_arith);
        assert(k * wn <= 512 * wn) by (nonlinear_arith)
            requires
                k <= 512,
        ;
        let v = match reader.read_bits(w as u32) {
            Ok(v) => v,
            Err(e) => {
                return Err(e);
            },
        };
        proof {
            lemma_bits_le_range(s, (k - 1) * wn, wn);
            if wn > 0 {
                lemma_sign_extend_range(v as int, wn);
            }
        }
        let d = sign_extend_bits(v, w as u32);
        acc = acc + d;
        samples.push(acc);
        k = k + 1;
    }
    assert(reader.position() == 511 * wn);
    reader.align_to_bytes(16);
    proof {
        lemma_padded_stream(wn);
    }
    let used = (reader.bit_position() / 8) as usize;
    let next = q + used;
    let block = ChannelBlock { start_sample: start, bits_per_sample: w, mode, samples };
    Ok((block, next))
}

/// Decodes every channel of the frame whose first sub-header is at `o`, each
/// channel's sub-header following where the one before it ended, and returns
/// their sample blocks with the frame's encoding-mode flag (channel 0's).
pub fn decode_frame(f: &[u8], o: u64, channel_count: u16) -> (r: Result<
    (Vec<Vec<i64>>, u16),
    DecodeError,
>)
    requires
        channel_count >= 1,
    ensures
        match r {
            Ok((blocks, mode)) => {
                &&& frame_ok(f@, o as int, channel_count as nat)
                &&& frame_decoded(f@, o as int, channel_count as nat, blocks@)
                &&& mode as int == mode_at(f@, o as int)
            },
            Err(e) => exists|c: nat|
                c < channel_count && #[trigger] channel_error(f@, channel_pos(f@, o as int, c))
                    == Some(e),
        },
{
    if o > f.len() as u64 {
        assert(channel_error(f@, channel_pos(f@, o as int, 0)) == Some(DecodeError::BufferExhausted));
        return Err(DecodeError::BufferExhausted);
    }
    let mut pos = o as usize;
    let mut blocks: Vec<Vec<i64>> = Vec::new();
    let mut mode: u16 = 0;
    let mut c: u16 = 0;
    while c < channel_count
        invariant
            c <= channel_count,
            pos as int == channel_pos(f@, o as int, c as nat),
            forall|j: nat| j < c ==> (#[trigger] channel_error(f@, channel_pos(f@, o as int, j))).is_none(),
            c > 0 ==> mode as int == mode_at(f@, o as int),
            blocks@.len() == c,
            forall|j: int|
                0 <= j < c ==> {
                    &&& (#[trigger] blocks@[j])@.len() == FRAME_SAMPLES
                    &&& forall|k: int|
                        0 <= k < FRAME_SAMPLES ==> {
                            &&& (#[trigger] blocks@[j]@[k]) as int == channel_sample(
                                f@,
                                channel_pos(f@, o as int, j as nat),
                                k as nat,
                            )
                            &&& -SAMPLE_BOUND <= blocks@[j]@[k] <= SAMPLE_BOUND
                        }
                },
        decreases channel_count - c,
    {
        let (block, next) = match decode_channel(f, pos) {
            Ok(x) => x,
            Err(e) => {
                return Err(e);
            },
        };
        if c == 0 {
            mode = block.mode;
        }
        blocks.push(block.samples);
        pos = next;
        c = c + 1;
        assert(pos as int == channel_pos(f@, o as int, c as nat));
    }
    Ok((blocks, mode))
}

/// Samples decoded from the frames of a container, frame by frame.
pub struct DecodedFrames {
    pub channel_count: u16,
    /// `frames[i][c]` holds the 512 samples of channel `c` in frame `i`.
    pub frames: Vec<Vec<Vec<i64>>>,
    /// `modes[i]` is the encoding-mode flag of frame `i`: 0 for channels
    /// stored directly, another value for mid/side.
    pub modes: Vec<u16>,
}

impl DecodedFrames {
    /// Each frame holds a block of 512 bounded samples for each channel, and
    /// has a mode flag.
    pub open spec fn wf(&self) -> bool {
        &&& self.frames@.len() == self.modes@.len()
        &&& forall|i: int|
            0 <= i < self.frames@.len() ==> (#[trigger] self.frames@[i])@.len()
                == self.channel_count
        &&& forall|i: int, c: int|
            0 <= i < self.frames@.len() && 0 <= c < self.channel_count ==> {
                &&& (#[trigger] self.frames@[i]@[c])@.len() == FRAME_SAMPLES
                &&& forall|k: int|
                    0 <= k < FRAME_SAMPLES ==> -SAMPLE_BOUND <= #[trigger] self.frames@[i]@[c]@[k]
                        <= SAMPLE_BOUND
            }
    }

    /// Samples held for each channel: 512 for each frame.
    pub open spec fn sample_len(&self) -> int {
        FRAME_SAMPLES * self.frames@.len()
    }

    /// Sample `i` of channel `c`, counted over all frames.
    pub open spec fn sample(&self, c: int, i: int) -> int {
        self.frames@[i / FRAME_SAMPLES as int]@[c]@[i % FRAME_SAMPLES as int] as int
    }

    /// The mode flag of the frame that holds sample `i`.
    pub open spec fn mode(&self, i: int) -> int {
        self.modes@[i / FRAME_SAMPLES as int] as int
    }
}

/// Whether `d` holds the decoded frames that begin at the offsets `starts`
/// in a container of `n` channels.
pub open spec fn frames_decoded(f: Seq<u8>, starts: Seq<int>, n: nat, d: DecodedFrames) -> bool {
    &&& d.channel_count == n
    &&& d.frames@.len() == starts.len()
    &&& d.modes@.len() == starts.len()
    &&& forall|i: int|
        0 <= i < starts.len() ==> {
            &&& frame_ok(f, #[trigger] starts[i], n)
            &&& frame_decoded(f, starts[i], n, d.frames@[i]@)
            &&& d.modes@[i] as int == mode_at(f, starts[i])
        }
}

/// The frame offsets of `entries`.
pub open spec fn starts_of(entries: Seq<FrameIndexEntry>) -> Seq<int> {
    entries.map_values(|e: FrameIndexEntry| e.start_offset as int)
}

/// Decodes, in order, the frames that `entries` locate, each with
/// `channel_count` channels. Fails on a container without channels, or with
/// the error of a channel that cannot be decoded.
pub fn decode_frames(f: &[u8], channel_count: u16, entries: &Vec<FrameIndexEntry>) -> (r: Result<
    DecodedFrames,
    DecodeError,
>)
    ensures
        match r {
            Ok(d) => channel_count >= 1 && d.wf() && frames_decoded(
                f@,
                starts_of(entries@),
                channel_count as nat,
                d,
            ),
            Err(e) => (channel_count == 0 && e == DecodeError::UnsupportedLayout) || (
            channel_count >= 1 && exists|i: int, c: nat|
                0 <= i < entries@.len() && c < channel_count && #[trigger] channel_error(
                    f@,
                    channel_pos(f@, #[trigger] starts_of(entries@)[i], c),
                ) == Some(e)),
        },
{
    if channel_count == 0 {
        return Err(DecodeError::UnsupportedLayout);
    }
    let ghost starts = starts_of(entries@);
    let mut frames: Vec<Vec<Vec<i64>>> = Vec::new();
    let mut modes: Vec<u16> = Vec::new();
    let mut i: usize = 0;
    while i < entries.len()
        invariant
            channel_count >= 1,
            i <= entries@.len(),
            starts == starts_of(entries@),
            frames@.len() == i,
            modes@.len() == i,
            forall|j: int|
                0 <= j < i ==> {
                    &&& frame_ok(f@, #[trigger] starts[j], channel_count as nat)
                    &&& frame_decoded(f@, starts[j], channel_count as nat, frames@[j]@)
                    &&& modes@[j] as int == mode_at(f@, starts[j])
                },
        decreases entries@.len() - i,
    {
        let o = entries[i].start_offset;
        assert(starts[i as int] == o as int);
        let (blocks, mode) = match decode_frame(f, o, channel_count) {
            Ok(x) => x,
            Err(e) => {
                return Err(e);
            },
        };
        frames.push(blocks);
        modes.push(mode);
        i = i + 1;
    }
    let d = DecodedFrames { channel_count, frames, modes };
    assert(frames_decoded(f@, starts, channel_count as nat, d));
    assert forall|i: int, c: int|
        0 <= i < d.frames@.len() && 0 <= c < d.channel_count implies {
        &&& (#[trigger] d.frames@[i]@[c])@.len() == FRAME_SAMPLES
        &&& forall|k: int|
            0 <= k < FRAME_SAMPLES ==> -SAMPLE_BOUND <= #[trigger] d.frames@[i]@[c]@[k]
                <= SAMPLE_BOUND
    } by {
        assert(frame_decoded(f@, starts[i], channel_count as nat, d.frames@[i]@));
        assert(d.frames@[i]@[c] == d.frames@[i]@[c]);
    }
    assert forall|i: int| 0 <= i < d.frames@.len() implies (#[trigger] d.frames@[i])@.len()
        == d.channel_count by {
        assert(frame_decoded(f@, starts[i], channel_count as nat, d.frames@[i]@));
    }
    Ok(d)
}

} // verus!
