//! A whole container: header, frame index, frames, and the interleaved
//! output channels.
use vstd::prelude::*;
use crate::container::{
    decoded_frame_count, frame_start, header_of, index_fits, parse_header, read_frame_index,
    ContainerHeader, HEADER_LEN,
};
use crate::error::DecodeError;
use crate::frame::{
    channel_error, channel_pos, decode_frames, frame_ok, frames_decoded, mode_at, starts_of,
    DecodedFrames, FRAME_SAMPLES,
};
use crate::reconstruct::{layout_unsupported, output_sample, reconstruct};

verus! {

/// The offsets of the frames that are decoded from `f`.
pub open spec fn frame_starts(f: Seq<u8>) -> Seq<int> {
    Seq::new(
        decoded_frame_count(header_of(f).first_frame_offset as int) as nat,
        |i: int| frame_start(f, header_of(f).first_frame_offset as int, i),
    )
}

/// Whether every channel of every frame of `f` can be decoded.
pub open spec fn all_frames_ok(f: Seq<u8>) -> bool {
    forall|i: int|
        0 <= i < frame_starts(f).len() ==> frame_ok(
            f,
            #[trigger] frame_starts(f)[i],
            header_of(f).channel_count as nat,
        )
}

/// Whether some sample before the header's sample count lies in a frame
/// flagged mid/side.
pub open spec fn has_mid_side(f: Seq<u8>) -> bool {
    exists|i: int|
        0 <= i < header_of(f).sample_count && mode_at(
            f,
            frame_starts(f)[#[trigger] (i / FRAME_SAMPLES as int)],
        ) != 0
}

/// Whether `e` is an error that decoding `f` can end with.
pub open spec fn decode_error(f: Seq<u8>, e: DecodeError) -> bool {
    let h = header_of(f);
    let n = h.channel_count as nat;
    ||| f.len() < HEADER_LEN && e == DecodeError::TruncatedHeader
    ||| f.len() >= HEADER_LEN && !index_fits(f, h.first_frame_offset as int) && e
        == DecodeError::TruncatedIndex
    ||| f.len() >= HEADER_LEN && index_fits(f, h.first_frame_offset as int) && n == 0 && e
        == DecodeError::UnsupportedLayout
    ||| f.len() >= HEADER_LEN && index_fits(f, h.first_frame_offset as int) && n >= 1 && exists|
        i: int,
        c: nat,
    |
        0 <= i < frame_starts(f).len() && c < n && #[trigger] channel_error(
            f,
            channel_pos(f, #[trigger] frame_starts(f)[i], c),
        ) == Some(e)
    ||| f.len() >= HEADER_LEN && index_fits(f, h.first_frame_offset as int) && n >= 1
        && all_frames_ok(f) && h.sample_count > FRAME_SAMPLES * frame_starts(f).len() && e
        == DecodeError::TruncatedIndex
    ||| f.len() >= HEADER_LEN && index_fits(f, h.first_frame_offset as int) && n >= 1
        && all_frames_ok(f) && h.sample_count <= FRAME_SAMPLES * frame_starts(f).len() && n != 2
        && has_mid_side(f) && e == DecodeError::UnsupportedLayout
}

/// A decoded container.
pub struct DecodedAudio {
    pub header: ContainerHeader,
    /// The samples of every frame, as stored.
    pub frames: DecodedFrames,
    /// The first `sample_count` samples of every output channel, interleaved.
    pub samples: Vec<i64>,
}

/// Decodes the container `f`: its header, its frame index, every frame that
/// the index locates, and the output channels rebuilt from them.
pub fn decode_container(f: &[u8]) -> (r: Result<DecodedAudio, DecodeError>)
    ensures
        match r {
            Ok(a) => {
                let h = header_of(f@);
                let n = h.channel_count as int;
                &&& f@.len() >= HEADER_LEN
                &&& a.header == h
                &&& index_fits(f@, h.first_frame_offset as int)
                &&& n >= 1
                &&& a.frames.wf()
                &&& frames_decoded(f@, frame_starts(f@), n as nat, a.frames)
                &&& a.frames.frames@.len() == decoded_frame_count(h.first_frame_offset as int)
                &&& a.frames.sample_len() == FRAME_SAMPLES * decoded_frame_count(
                    h.first_frame_offset as int,
                )
                &&& h.sample_count <= a.frames.sample_len()
                &&& !(n != 2 && has_mid_side(f@))
                &&& a.samples@.len() == h.sample_count * n
                &&& forall|j: int|
                    0 <= j < a.samples@.len() ==> (#[trigger] a.samples@[j]) as int
                        == output_sample(a.frames, j / n, j % n)
            },
            Err(e) => decode_error(f@, e),
        },
{
    let h = match parse_header(f) {
        Ok(h) => h,
        Err(e) => {
            return Err(e);
        },
    };
    let entries = match read_frame_index(f, &h) {
        Ok(v) => v,
        Err(e) => {
            return Err(e);
        },
    };
    let ghost starts = frame_starts(f@);
    assert(starts_of(entries@) =~= starts);
    let frames = match decode_frames(f, h.channel_count, &entries) {
        Ok(d) => d,
        Err(e) => {
            proof {
                if h.channel_count >= 1 {
                    let (i, c) = choose|i: int, c: nat|
                        0 <= i < entries@.len() && c < h.channel_count as nat
                            && #[trigger] channel_error(
                            f@,
                            channel_pos(f@, #[trigger] starts_of(entries@)[i], c),
                        ) == Some(e);
                    assert(starts[i] == starts_of(entries@)[i]);
                    assert(decode_error(f@, e));
                }
            }
            return Err(e);
        },
    };
    assert(all_frames_ok(f@));
    proof {
        if h.channel_count != 2 && h.sample_count as int <= frames.sample_len() {
            if has_mid_side(f@) {
                let i = choose|i: int|
                    0 <= i < h.sample_count && mode_at(
                        f@,
                        starts[#[trigger] (i / FRAME_SAMPLES as int)],
                    ) != 0;
                let k = i / FRAME_SAMPLES as int;
                assert(k < frames.frames@.len()) by (nonlinear_arith)
                    requires
                        0 <= i < h.sample_count,
                        h.sample_count <= 512 * frames.frames@.len(),
                        k == i / 512,
                ;
                assert(mode_at(f@, starts[k]) != 0);
                assert(frames.mode(i) != 0);
            }
            if layout_unsupported(frames, h.sample_count as int) {
                let i = choose|i: int| 0 <= i < h.sample_count && #[trigger] frames.mode(i) != 0;
                let k = i / FRAME_SAMPLES as int;
                assert(k < frames.frames@.len()) by (nonlinear_arith)
                    requires
                        0 <= i < h.sample_count,
                        h.sample_count <= 512 * frames.frames@.len(),
                        k == i / 512,
                ;
                assert(mode_at(f@, starts[k]) != 0);
                assert(mode_at(f@, starts[i / FRAME_SAMPLES as int]) != 0);
            }
        }
    }
    let samples = match reconstruct(&frames, h.sample_count) {
        Ok(s) => s,
        Err(e) => {
            return Err(e);
        },
    };
    Ok(DecodedAudio { header: h, frames, samples })
}

} // verus!
