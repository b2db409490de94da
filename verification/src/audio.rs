//! Audio formats and the interleaved sample buffer.
use vstd::prelude::*;
use crate::ieee::{abs_f32, f32_is_nan, f32_magnitude, F32_INFINITY};

verus! {

/// One audio sample: the encoding of a binary32 number, nominally within
/// -1.0 to 1.0. Silence is `0`, the encoding of `+0.0`.
pub type Sample = u32;

/// A number of audio channels.
#[derive(Debug, Clone, Copy, PartialEq, Eq, Structural, Hash)]
pub struct ChannelCount(pub u16);

impl ChannelCount {
    pub fn mono() -> (r: Self)
        ensures
            r.0 == 1,
    {
        ChannelCount(1)
    }

    pub fn stereo() -> (r: Self)
        ensures
            r.0 == 2,
    {
        ChannelCount(2)
    }

    pub fn as_usize(&self) -> (r: usize)
        ensures
            r == self.0,
    {
        self.0 as usize
    }
}

impl Default for ChannelCount {
    fn default() -> (r: Self)
        ensures
            r.0 == 2,
    {
        ChannelCount(2)
    }
}

/// A sample rate in Hz.
#[derive(Debug, Clone, Copy, PartialEq, Eq, Structural, Hash)]
pub struct SampleRate(pub u32);

impl SampleRate {
    pub fn cd_quality() -> (r: Self)
        ensures
            r.0 == 44100,
    {
        SampleRate(44100)
    }

    pub fn dvd_quality() -> (r: Self)
        ensures
            r.0 == 48000,
    {
        SampleRate(48000)
    }

    pub fn high_res() -> (r: Self)
        ensures
            r.0 == 96000,
    {
        SampleRate(96000)
    }
}

impl Default for SampleRate {
    fn default() -> (r: Self)
        ensures
            r.0 == 48000,
    {
        SampleRate(48000)
    }
}

/// The length of one processing period in frames.
#[derive(Debug, Clone, Copy, PartialEq, Eq, Structural, Hash)]
pub struct BufferSize(pub usize);

impl BufferSize {
    pub fn small() -> (r: Self)
        ensures
            r.0 == 64,
    {
        BufferSize(64)
    }

    pub fn medium() -> (r: Self)
        ensures
            r.0 == 256,
    {
        BufferSize(256)
    }

    pub fn large() -> (r: Self)
        ensures
            r.0 == 512,
    {
        BufferSize(512)
    }

    pub fn extra_large() -> (r: Self)
        ensures
            r.0 == 1024,
    {
        BufferSize(1024)
    }
}

impl Default for BufferSize {
    fn default() -> (r: Self)
        ensures
            r.0 == 256,
    {
        BufferSize(256)
    }
}

/// Sample rate, channel count and period length of a stream.
#[derive(Debug, Clone, Copy, PartialEq, Eq, Structural)]
pub struct AudioFormat {
    pub sample_rate: SampleRate,
    pub channels: ChannelCount,
    pub buffer_size: BufferSize,
}

impl Default for AudioFormat {
    fn default() -> (r: Self)
        ensures
            r == (AudioFormat {
                sample_rate: SampleRate(48000),
                channels: ChannelCount(2),
                buffer_size: BufferSize(256),
            }),
    {
        AudioFormat { sample_rate: SampleRate(48000), channels: ChannelCount(2), buffer_size: BufferSize(256) }
    }
}

/// The left and the right sample of one stereo frame.
#[derive(Debug, Clone, Copy, PartialEq, Eq, Structural)]
pub struct StereoFrame {
    pub left: Sample,
    pub right: Sample,
}

impl StereoFrame {
    pub fn new(left: Sample, right: Sample) -> (r: Self)
        ensures
            r == (StereoFrame { left, right }),
    {
        StereoFrame { left, right }
    }

    pub fn silence() -> (r: Self)
        ensures
            r == (StereoFrame { left: 0, right: 0 }),
    {
        StereoFrame { left: 0, right: 0 }
    }

    pub fn mono(value: Sample) -> (r: Self)
        ensures
            r == (StereoFrame { left: value, right: value }),
    {
        StereoFrame { left: value, right: value }
    }
}

impl Default for StereoFrame {
    fn default() -> (r: Self)
        ensures
            r == (StereoFrame { left: 0, right: 0 }),
    {
        StereoFrame { left: 0, right: 0 }
    }
}

/// Why a buffer could not be made.
#[derive(Debug, Clone, Copy, PartialEq, Eq, Structural)]
pub enum BufferError {
    /// The sample store does not divide into whole frames.
    ShapeMismatch,
}

/// `len` samples of silence.
pub open spec fn silence(len: nat) -> Seq<Sample> {
    Seq::new(len, |i: int| 0u32)
}

/// The first `n` samples of `to` replaced by those of `from`.
pub open spec fn overlaid(to: Seq<Sample>, from: Seq<Sample>, n: int) -> Seq<Sample> {
    Seq::new(to.len(), |i: int| if i < n { from[i] } else { to[i] })
}

/// `peak` is the largest magnitude among the samples that are numbers, and
/// the magnitude of silence where there is none.
pub open spec fn is_peak(samples: Seq<Sample>, peak: Sample) -> bool {
    &&& peak <= F32_INFINITY
    &&& forall|i: int| 0 <= i < samples.len() && !f32_is_nan(#[trigger] samples[i]) ==> f32_magnitude(samples[i]) <= peak
    &&& peak == 0 || exists|i: int| 0 <= i < samples.len() && f32_magnitude(#[trigger] samples[i]) == peak
}

/// The peak of `samples` with `next` behind them, where `peak` is the peak
/// of `samples`.
pub open spec fn raised(peak: Sample, next: Sample) -> Sample {
    if f32_magnitude(next) <= F32_INFINITY && f32_magnitude(next) > peak {
        f32_magnitude(next)
    } else {
        peak
    }
}

/// One more sample raises the peak to its magnitude, or, being smaller or
/// no number, leaves the peak where it is.
pub proof fn lemma_peak_raised(samples: Seq<Sample>, peak: Sample, next: Sample)
    requires
        is_peak(samples, peak),
    ensures
        is_peak(samples.push(next), raised(peak, next)),
{
    let after = samples.push(next);
    let top = raised(peak, next);
    assert forall|j: int| 0 <= j < after.len() && !f32_is_nan(#[trigger] after[j]) implies f32_magnitude(
        after[j],
    ) <= top by {
        if j < samples.len() {
            assert(after[j] == samples[j]);
        }
    }
    if top != 0 {
        if top == peak {
            let j = choose|j: int| 0 <= j < samples.len() && f32_magnitude(#[trigger] samples[j]) == peak;
            assert(after[j] == samples[j]);
        } else {
            assert(f32_magnitude(after[samples.len() as int]) == top);
        }
    }
}

/// Interleaved samples for a fixed number of channels and frames.
#[derive(Debug, Clone)]
pub struct AudioBuffer {
    samples: Vec<Sample>,
    channels: ChannelCount,
    frames: usize,
}

impl AudioBuffer {
    /// The sample store holds one sample for each channel of each frame.
    /// Every buffer that this module hands out is well formed, and every
    /// operation keeps it so.
    pub closed spec fn wf(&self) -> bool {
        self.samples@.len() == self.channels.0 * self.frames
    }

    /// The samples, frame after frame. The shape of the buffer is not in
    /// its view: it is `spec_channels` and `spec_frames`.
    pub closed spec fn view(&self) -> Seq<Sample> {
        self.samples@
    }

    /// The number of channels.
    pub closed spec fn spec_channels(&self) -> ChannelCount {
        self.channels
    }

    /// The number of frames.
    pub closed spec fn spec_frames(&self) -> usize {
        self.frames
    }

    /// A well-formed buffer holds channels times frames samples.
    pub proof fn lemma_shape(&self)
        requires
            self.wf(),
        ensures
            self@.len() == self.spec_channels().0 * self.spec_frames(),
    {
    }

    /// A silent buffer of the given shape.
    pub fn new(channels: ChannelCount, frames: usize) -> (r: Self)
        requires
            channels.0 * frames <= usize::MAX,
        ensures
            r.wf(),
            r.spec_channels() == channels,
            r.spec_frames() == frames,
            r@ == silence((channels.0 * frames) as nat),
    {
        let sample_count: usize = channels.as_usize() * frames;
        let mut samples: Vec<Sample> = Vec::new();
        while samples.len() < sample_count
            invariant
                samples.len() <= sample_count,
                forall|i: int| 0 <= i < samples.len() ==> samples@[i] == 0,
            decreases sample_count - samples.len(),
        {
            samples.push(0);
        }
        assert(samples@ =~= silence(sample_count as nat));
        AudioBuffer { samples, channels, frames }
    }

    /// A buffer over an existing sample store. The number of frames is the
    /// length of the store divided by the number of channels, which has to
    /// leave no rest.
    pub fn from_samples(samples: Vec<Sample>, channels: ChannelCount) -> (r: Result<Self, BufferError>)
        ensures
            r is Ok <==> channels.0 > 0 && samples@.len() % (channels.0 as nat) == 0,
            r matches Ok(buffer) ==> buffer.wf() && buffer@ == samples@ && buffer.spec_channels() == channels
                && buffer.spec_frames() == samples@.len() / (channels.0 as nat),
            r matches Err(e) ==> e == BufferError::ShapeMismatch,
    {
        let width: usize = channels.as_usize();
        if width == 0 {
            return Err(BufferError::ShapeMismatch);
        }
        let len: usize = samples.len();
        if len % width != 0 {
            return Err(BufferError::ShapeMismatch);
        }
        let frames: usize = len / width;
        proof {
            vstd::arithmetic::div_mod::lemma_fundamental_div_mod(len as int, width as int);
        }
        Ok(AudioBuffer { samples, channels, frames })
    }

    /// The number of channels.
    pub fn channels(&self) -> (r: ChannelCount)
        ensures
            r == self.spec_channels(),
    {
        self.channels
    }

    /// The number of frames.
    pub fn frames(&self) -> (r: usize)
        ensures
            r == self.spec_frames(),
    {
        self.frames
    }

    /// The samples, frame after frame.
    pub fn samples(&self) -> (r: &[Sample])
        ensures
            r@ == self@,
    {
        self.samples.as_slice()
    }

    /// The sample of `channel` in `frame`, if the buffer has it.
    pub fn get(&self, frame: usize, channel: usize) -> (r: Option<Sample>)
        requires
            self.wf(),
        ensures
            r is Some <==> frame < self.spec_frames() && channel < self.spec_channels().0,
            r matches Some(sample) ==> frame * self.spec_channels().0 + channel < self@.len() && sample == self@[frame
                * self.spec_channels().0 + channel],
    {
        let width: usize = self.channels.as_usize();
        if frame < self.frames && channel < width {
            assert(0 <= frame * width && frame * width + channel < width * self.frames) by (nonlinear_arith)
                requires
                    0 <= frame < self.frames,
                    0 <= channel < width,
            ;
            assert(width * self.frames == self.samples.len());
            Some(self.samples[frame * width + channel])
        } else {
            None
        }
    }

    /// Store `value` as the sample of `channel` in `frame`. A place that the
    /// buffer does not have is ignored.
    pub fn set(&mut self, frame: usize, channel: usize, value: Sample)
        requires
            old(self).wf(),
        ensures
            final(self).wf(),
            final(self).spec_channels() == old(self).spec_channels(),
            final(self).spec_frames() == old(self).spec_frames(),
            frame < old(self).spec_frames() && channel < old(self).spec_channels().0 ==> final(self)@ == old(
                self,
            )@.update(frame * old(self).spec_channels().0 + channel, value),
            !(frame < old(self).spec_frames() && channel < old(self).spec_channels().0) ==> final(self)@ == old(
                self,
            )@,
    {
        let width: usize = self.channels.as_usize();
        if frame < self.frames && channel < width {
            assert(0 <= frame * width && frame * width + channel < width * self.frames) by (nonlinear_arith)
                requires
                    0 <= frame < self.frames,
                    0 <= channel < width,
            ;
            assert(width * self.frames == self.samples.len());
            self.samples.set(frame * width + channel, value);
        }
    }

    /// Fill the buffer with silence.
    pub fn clear(&mut self)
        requires
            old(self).wf(),
        ensures
            final(self).wf(),
            final(self).spec_channels() == old(self).spec_channels(),
            final(self).spec_frames() == old(self).spec_frames(),
            final(self)@ == silence(old(self)@.len()),
    {
        let len: usize = self.samples.len();
        let mut i: usize = 0;
        while i < len
            invariant
                i <= len,
                len == self.samples.len(),
                self.samples.len() == old(self).samples.len(),
                self.channels == old(self).channels,
                self.frames == old(self).frames,
                forall|j: int| 0 <= j < i ==> self.samples@[j] == 0,
            decreases len - i,
        {
            self.samples.set(i, 0);
            i += 1;
        }
        assert(self.samples@ =~= silence(old(self)@.len()));
    }

    /// Copy the samples of `other` over the start of this buffer, as many as
    /// both buffers hold. The channel and frame counts of `other` are not
    /// looked at, and those of this buffer stay.
    pub fn copy_from(&mut self, other: &AudioBuffer)
        requires
            old(self).wf(),
        ensures
            final(self).wf(),
            final(self).spec_channels() == old(self).spec_channels(),
            final(self).spec_frames() == old(self).spec_frames(),
            final(self)@ == overlaid(
                old(self)@,
                other@,
                if old(self)@.len() <= other@.len() {
                    old(self)@.len() as int
                } else {
                    other@.len() as int
                },
            ),
    {
        let own: usize = self.samples.len();
        let theirs: usize = other.samples.len();
        let len: usize = if own <= theirs {
            own
        } else {
            theirs
        };
        let mut i: usize = 0;
        while i < len
            invariant
                i <= len,
                len <= self.samples.len(),
                len <= other.samples.len(),
                self.samples.len() == old(self).samples.len(),
                self.channels == old(self).channels,
                self.frames == old(self).frames,
                self.samples@ == overlaid(old(self).samples@, other.samples@, i as int),
            decreases len - i,
        {
            let sample: Sample = other.samples[i];
            self.samples.set(i, sample);
            i += 1;
        }
    }

    /// The peak level: the largest magnitude among the samples, where a
    /// sample that is not a number counts for nothing.
    pub fn peak(&self) -> (r: Sample)
        ensures
            is_peak(self@, r),
    {
        let mut peak: Sample = 0;
        let mut i: usize = 0;
        while i < self.samples.len()
            invariant
                i <= self.samples.len(),
                is_peak(self.samples@.take(i as int), peak),
            decreases self.samples.len() - i,
        {
            let magnitude: Sample = abs_f32(self.samples[i]);
            proof {
                lemma_peak_raised(self.samples@.take(i as int), peak, self.samples@[i as int]);
                assert(self.samples@.take(i + 1) =~= self.samples@.take(i as int).push(self.samples@[i as int]));
            }
            if magnitude <= F32_INFINITY && magnitude > peak {
                peak = magnitude;
            }
            i += 1;
        }
        assert(self.samples@.take(self.samples.len() as int) =~= self.samples@);
        peak
    }

    /// The samples, open to change in place.
    pub fn samples_mut(&mut self) -> (r: &mut [Sample])
        requires
            old(self).wf(),
        ensures
            r@ == old(self)@,
            final(self)@ == final(r)@,
            final(r)@.len() == r@.len() ==> final(self).wf(),
            final(self).spec_channels() == old(self).spec_channels(),
            final(self).spec_frames() == old(self).spec_frames(),
    {
        self.samples.as_mut_slice()
    }

    /// Replace every sample by what `scale` makes of it and `gain`. The
    /// caller brings the arithmetic: for a gain, `scale` multiplies.
    pub fn apply_gain<F: Fn(Sample, Sample) -> Sample>(&mut self, gain: Sample, scale: &F)
        requires
            old(self).wf(),
            forall|sample: Sample| call_requires(scale, (sample, gain)),
        ensures
            final(self).wf(),
            final(self).spec_channels() == old(self).spec_channels(),
            final(self).spec_frames() == old(self).spec_frames(),
            final(self)@.len() == old(self)@.len(),
            forall|i: int|
                0 <= i < old(self)@.len() ==> call_ensures(scale, (old(self)@[i], gain), #[trigger] final(self)@[i]),
    {
        let len: usize = self.samples.len();
        let mut i: usize = 0;
        while i < len
            invariant
                i <= len,
                len == self.samples.len(),
                self.samples.len() == old(self).samples.len(),
                self.channels == old(self).channels,
                self.frames == old(self).frames,
                forall|sample: Sample| call_requires(scale, (sample, gain)),
                forall|j: int|
                    0 <= j < i ==> call_ensures(scale, (old(self).samples@[j], gain), #[trigger] self.samples@[j]),
                forall|j: int| i <= j < len ==> self.samples@[j] == old(self).samples@[j],
            decreases len - i,
        {
            let scaled: Sample = scale(self.samples[i], gain);
            self.samples.set(i, scaled);
            i += 1;
        }
    }

    /// Replace each of the first samples, as many as both buffers hold, by
    /// what `sum` makes of it and the sample of `other` at the same place.
    /// The caller brings the arithmetic: for a mix, `sum` adds.
    pub fn mix<F: Fn(Sample, Sample) -> Sample>(&mut self, other: &AudioBuffer, sum: &F)
        requires
            old(self).wf(),
            forall|a: Sample, b: Sample| call_requires(sum, (a, b)),
        ensures
            final(self).wf(),
            final(self).spec_channels() == old(self).spec_channels(),
            final(self).spec_frames() == old(self).spec_frames(),
            final(self)@.len() == old(self)@.len(),
            forall|i: int|
                0 <= i < old(self)@.len() && i < other@.len() ==> call_ensures(
                    sum,
                    (old(self)@[i], other@[i]),
                    #[trigger] final(self)@[i],
                ),
            forall|i: int| other@.len() <= i < old(self)@.len() ==> final(self)@[i] == old(self)@[i],
    {
        let own: usize = self.samples.len();
        let theirs: usize = other.samples.len();
        let len: usize = if own <= theirs {
            own
        } else {
            theirs
        };
        let mut i: usize = 0;
        while i < len
            invariant
                i <= len,
                len <= self.samples.len(),
                len <= other.samples.len(),
                self.samples.len() == old(self).samples.len(),
                self.channels == old(self).channels,
                self.frames == old(self).frames,
                forall|a: Sample, b: Sample| call_requires(sum, (a, b)),
                forall|j: int|
                    0 <= j < i ==> call_ensures(
                        sum,
                        (old(self).samples@[j], other.samples@[j]),
                        #[trigger] self.samples@[j],
                    ),
                forall|j: int| i <= j < self.samples.len() ==> self.samples@[j] == old(self).samples@[j],
            decreases len - i,
        {
            let mixed: Sample = sum(self.samples[i], other.samples[i]);
            self.samples.set(i, mixed);
            i += 1;
        }
    }
}

} // verus!
