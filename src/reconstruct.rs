//! Rebuilds output channels from decoded frames, undoing mid/side coding
//! frame by frame, and interleaves them sample by sample.
use vstd::prelude::*;
use vstd::arithmetic::div_mod::lemma_fundamental_div_mod_converse;
use crate::error::DecodeError;
use crate::frame::{DecodedFrames, FRAME_SAMPLES, SAMPLE_BOUND};

verus! {

/// Output channel `c` at sample `i`: the decoded sample where the frame is
/// coded directly; in a mid/side frame, mid + side for the left channel and
/// mid - side for the right, with mid in channel 0 and side in channel 1.
pub open spec fn output_sample(d: DecodedFrames, i: int, c: int) -> int {
    if d.mode(i) == 0 {
        d.sample(c, i)
    } else if c == 0 {
        d.sample(0, i) + d.sample(1, i)
    } else {
        d.sample(0, i) - d.sample(1, i)
    }
}

/// Whether some sample before `sample_count` lies in a mid/side frame while
/// the channel count is not two.
pub open spec fn layout_unsupported(d: DecodedFrames, sample_count: int) -> bool {
    d.channel_count != 2 && exists|i: int| 0 <= i < sample_count && #[trigger] d.mode(i) != 0
}

/// The first `sample_count` samples of every output channel, interleaved:
/// entry `j` is channel `j % n` at sample `j / n`, for `n` channels. Fails when
/// the frames hold fewer samples than that, or when a mid/side frame comes in a
/// container that does not have exactly two channels.
pub fn reconstruct(d: &DecodedFrames, sample_count: u32) -> (r: Result<Vec<i64>, DecodeError>)
    requires
        d.wf(),
    ensures
        match r {
            Ok(out) => {
                &&& sample_count <= d.sample_len()
                &&& !layout_unsupported(*d, sample_count as int)
                &&& out@.len() == sample_count * d.channel_count
                &&& forall|j: int|
                    0 <= j < out@.len() ==> (#[trigger] out@[j]) as int == output_sample(
                        *d,
                        j / d.channel_count as int,
                        j % d.channel_count as int,
                    )
            },
            Err(e) => {
                ||| e == DecodeError::TruncatedIndex && sample_count > d.sample_len()
                ||| e == DecodeError::UnsupportedLayout && sample_count <= d.sample_len()
                    && layout_unsupported(*d, sample_count as int)
            },
        },
{
    let nf = d.frames.len() as u64;
    if nf < 0x1_0000_0000 && sample_count as u64 > FRAME_SAMPLES as u64 * nf {
        return Err(DecodeError::TruncatedIndex);
    }
    let n = d.channel_count;
    let total = sample_count as usize;
    let mut out: Vec<i64> = Vec::new();
    let mut i: usize = 0;
    while i < total
        invariant
            d.wf(),
            n == d.channel_count,
            total == sample_count,
            total <= d.sample_len(),
            i <= total,
            n != 2 ==> forall|k: int| 0 <= k < i ==> #[trigger] d.mode(k) == 0,
            out@.len() == i * n,
            forall|j: int|
                0 <= j < out@.len() ==> (#[trigger] out@[j]) as int == output_sample(
                    *d,
                    j / n as int,
                    j % n as int,
                ),
        decreases total - i,
    {
        let fi = i / FRAME_SAMPLES;
        let k = i % FRAME_SAMPLES;
        assert(fi < d.frames@.len()) by (nonlinear_arith)
            requires
                i < total,
                total <= 512 * d.frames@.len(),
                fi == i / 512,
        ;
        let frame = &d.frames[fi];
        let mode = d.modes[fi];
        assert(mode as int == d.mode(i as int));
        if mode == 0 {
            let mut c: u16 = 0;
            while c < n
                invariant
                    d.wf(),
                    n == d.channel_count,
                    fi < d.frames@.len(),
                    fi == i / 512,
                    k == i % 512,
                    *frame == d.frames@[fi as int],
                    d.mode(i as int) == 0,
                    c <= n,
                    out@.len() == i * n + c,
                    forall|j: int|
                        0 <= j < out@.len() ==> (#[trigger] out@[j]) as int == output_sample(
                            *d,
                            j / n as int,
                            j % n as int,
                        ),
                decreases n - c,
            {
                let x = frame[c as usize][k];
                proof {
                    lemma_fundamental_div_mod_converse(i * n + c, n as int, i as int, c as int);
                }
                out.push(x);
                c = c + 1;
            }
            assert(out@.len() == (i + 1) * n) by (nonlinear_arith)
                requires
                    out@.len() == i * n + n,
            ;
        } else {
            if n != 2 {
                assert(d.mode(i as int) != 0);
                return Err(DecodeError::UnsupportedLayout);
            }
            let mid = frame[0][k];
            let side = frame[1][k];
            proof {
                assert(-SAMPLE_BOUND <= d.frames@[fi as int]@[0]@[k as int] <= SAMPLE_BOUND);
                assert(-SAMPLE_BOUND <= d.frames@[fi as int]@[1]@[k as int] <= SAMPLE_BOUND);
                lemma_fundamental_div_mod_converse(i * 2, 2, i as int, 0);
                lemma_fundamental_div_mod_converse(i * 2 + 1, 2, i as int, 1);
            }
            out.push(mid + side);
            out.push(mid - side);
        }
        i = i + 1;
    }
    assert(!layout_unsupported(*d, sample_count as int));
    Ok(out)
}

} // verus!
