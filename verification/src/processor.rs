//! The contract between the engine and a processing node.
use vstd::prelude::*;
use crate::audio::{AudioBuffer, Sample, SampleRate};
use crate::call::{call_on, call_with};
use crate::midi::MidiEvent;
use crate::time::{SamplePosition, Tempo, TimeSignature};

verus! {

/// What a node is told about the period that it processes.
pub struct ProcessContext<'a> {
    /// The sample rate of the stream.
    pub sample_rate: SampleRate,
    /// The tempo.
    pub tempo: Tempo,
    /// The time signature.
    pub time_signature: TimeSignature,
    /// The position of the first frame of the period.
    pub playhead: SamplePosition,
    /// The number of frames to process.
    pub frames: usize,
    /// The MIDI events of the period, each with its offset into it.
    pub midi_events: &'a [MidiEvent],
    /// Whether the transport is playing.
    pub is_playing: bool,
    /// Whether the transport is recording.
    pub is_recording: bool,
}

/// Every buffer of `buffers` is well formed.
pub open spec fn all_wf(buffers: Seq<AudioBuffer>) -> bool {
    forall|i: int| 0 <= i < buffers.len() ==> (#[trigger] buffers[i]).wf()
}

/// `after` holds as many buffers as `before`, each well formed and of the
/// shape that it had.
pub open spec fn shapes_kept(before: Seq<AudioBuffer>, after: Seq<AudioBuffer>) -> bool {
    &&& after.len() == before.len()
    &&& forall|i: int|
        0 <= i < after.len() ==> {
            &&& (#[trigger] after[i]).wf()
            &&& after[i].spec_channels() == before[i].spec_channels()
            &&& after[i].spec_frames() == before[i].spec_frames()
        }
}

/// A node of the audio graph: a unit that turns input buffers into output
/// buffers once per period.
///
/// `process` runs on the audio thread. It takes bounded time, does not
/// block and does not allocate.
pub trait AudioNode: Send + 'static {
    /// What `process` makes of the output buffers: the node's own account
    /// of its signal processing. A node that gives no account leaves it
    /// open.
    open spec fn processes(
        &self,
        inputs: Seq<AudioBuffer>,
        outputs: Seq<AudioBuffer>,
        context: &ProcessContext,
        written: Seq<AudioBuffer>,
    ) -> bool {
        true
    }

    /// The number of input ports.
    fn input_count(&self) -> usize;

    /// The number of output ports.
    fn output_count(&self) -> usize;

    /// The name of the kind of node.
    fn name(&self) -> &str;

    /// Process one period: read `inputs`, write `outputs`. The output
    /// buffers are handed over well formed and are left so, each in its
    /// shape, and hold what the node's account says.
    fn process(&mut self, inputs: &[AudioBuffer], outputs: &mut Vec<AudioBuffer>, context: &ProcessContext)
        requires
            all_wf(inputs@),
            all_wf(old(outputs)@),
        ensures
            shapes_kept(old(outputs)@, final(outputs)@),
            old(self).processes(inputs@, old(outputs)@, context, final(outputs)@),
    ;

    /// The stream has another sample rate from now on.
    fn set_sample_rate(&mut self, _sample_rate: SampleRate) {
    }

    /// Forget what earlier periods left behind, such as delay lines.
    fn reset(&mut self) {
    }

    /// The delay in samples that the node adds.
    fn latency(&self) -> usize {
        0
    }
}

/// A boxed node is a node: that of the box does the work, and what it
/// answers is what the node in the box answers.
impl<T: AudioNode + ?Sized> AudioNode for Box<T> {
    open spec fn processes(
        &self,
        inputs: Seq<AudioBuffer>,
        outputs: Seq<AudioBuffer>,
        context: &ProcessContext,
        written: Seq<AudioBuffer>,
    ) -> bool {
        (**self).processes(inputs, outputs, context, written)
    }

    fn input_count(&self) -> (r: usize)
        ensures
            call_ensures(T::input_count, (&**self,), r),
    {
        (**self).input_count()
    }

    fn output_count(&self) -> (r: usize)
        ensures
            call_ensures(T::output_count, (&**self,), r),
    {
        (**self).output_count()
    }

    fn name(&self) -> (r: &str)
        ensures
            call_ensures(T::name, (&**self,), r),
    {
        (**self).name()
    }

    fn process(&mut self, inputs: &[AudioBuffer], outputs: &mut Vec<AudioBuffer>, context: &ProcessContext) {
        (**self).process(inputs, outputs, context)
    }

    fn set_sample_rate(&mut self, sample_rate: SampleRate)
        ensures
            exists|x: &mut T|
                &*x == &**old(self) && &*final(x) == &**final(self) && #[trigger] call_ensures(
                    T::set_sample_rate,
                    (x, sample_rate),
                    (),
                ),
    {
        call_with(T::set_sample_rate, &mut **self, sample_rate)
    }

    fn reset(&mut self)
        ensures
            exists|x: &mut T|
                &*x == &**old(self) && &*final(x) == &**final(self) && #[trigger] call_ensures(T::reset, (x,), ()),
    {
        call_on(T::reset, &mut **self)
    }

    fn latency(&self) -> (r: usize)
        ensures
            call_ensures(T::latency, (&**self,), r),
    {
        (**self).latency()
    }
}

/// A unit whose parameters can be read and set by number.
pub trait ParameterHandler {
    /// The value of parameter `id`, a binary32 number, if there is such a
    /// parameter.
    fn get_parameter(&self, id: u32) -> Option<Sample>;

    /// Set parameter `id` to `value`, a binary32 number.
    fn set_parameter(&mut self, id: u32, value: Sample);

    /// The number of parameters.
    fn parameter_count(&self) -> usize;
}

} // verus!
