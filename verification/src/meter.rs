//! The peak levels of an interleaved stereo region.
//!
//! A peak is a matter of comparing encodings, so it is measured here. The
//! root mean square of a window is floating-point arithmetic and comes from
//! the caller.
use vstd::prelude::*;
use crate::audio::{is_peak, lemma_peak_raised, Sample};
use crate::command::MeterLevels;
use crate::ieee::{abs_f32, F32_INFINITY};

verus! {

/// The samples of one side of an interleaved stereo region, frame after
/// frame: `side` 0 is the left, 1 the right. A last sample without its
/// partner belongs to no frame.
pub open spec fn side_of(samples: Seq<Sample>, side: int) -> Seq<Sample> {
    Seq::new((samples.len() / 2) as nat, |frame: int| samples[2 * frame + side])
}

/// The peaks of the left and of the right side of an interleaved stereo
/// region: for each side the largest magnitude among its samples that are
/// numbers, and silence where it has none.
pub fn stereo_peaks(output: &[Sample]) -> (peaks: (Sample, Sample))
    ensures
        is_peak(side_of(output@, 0), peaks.0),
        is_peak(side_of(output@, 1), peaks.1),
{
    let frames: usize = output.len() / 2;
    let mut left: Sample = 0;
    let mut right: Sample = 0;
    let mut frame: usize = 0;
    while frame < frames
        invariant
            frames == output@.len() / 2,
            2 * frames <= output@.len() <= usize::MAX,
            frame <= frames,
            is_peak(side_of(output@, 0).take(frame as int), left),
            is_peak(side_of(output@, 1).take(frame as int), right),
        decreases frames - frame,
    {
        let on_left: Sample = abs_f32(output[2 * frame]);
        let on_right: Sample = abs_f32(output[2 * frame + 1]);
        proof {
            lemma_peak_raised(side_of(output@, 0).take(frame as int), left, output@[2 * frame]);
            lemma_peak_raised(side_of(output@, 1).take(frame as int), right, output@[2 * frame + 1]);
            assert(side_of(output@, 0).take(frame + 1) =~= side_of(output@, 0).take(frame as int).push(
                output@[2 * frame],
            ));
            assert(side_of(output@, 1).take(frame + 1) =~= side_of(output@, 1).take(frame as int).push(
                output@[2 * frame + 1],
            ));
        }
        if on_left <= F32_INFINITY && on_left > left {
            left = on_left;
        }
        if on_right <= F32_INFINITY && on_right > right {
            right = on_right;
        }
        frame = frame + 1;
    }
    proof {
        assert(side_of(output@, 0).take(frames as int) =~= side_of(output@, 0));
        assert(side_of(output@, 1).take(frames as int) =~= side_of(output@, 1));
    }
    (left, right)
}

/// The levels of an interleaved stereo region: its two peaks, measured
/// here, beside the two root mean squares that the caller has computed.
pub fn meter_levels(output: &[Sample], rms_left: Sample, rms_right: Sample) -> (levels: MeterLevels)
    ensures
        is_peak(side_of(output@, 0), levels.peak_left),
        is_peak(side_of(output@, 1), levels.peak_right),
        levels.rms_left == rms_left,
        levels.rms_right == rms_right,
{
    let (peak_left, peak_right) = stereo_peaks(output);
    MeterLevels { peak_left, peak_right, rms_left, rms_right }
}

} // verus!
