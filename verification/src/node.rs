//! The nodes that every graph can use.
use vstd::prelude::*;
use crate::audio::AudioBuffer;
use crate::processor::{all_wf, shapes_kept, AudioNode, ProcessContext};

verus! {

/// A node that hands its input on unchanged.
pub struct PassthroughNode {
    inputs: usize,
    outputs: usize,
}

/// The buffers of `before` with the samples of `inputs` copied over them,
/// pair by pair, as far as both reach.
pub open spec fn passed_through(inputs: Seq<AudioBuffer>, before: Seq<AudioBuffer>, after: Seq<AudioBuffer>) -> bool {
    &&& after.len() == before.len()
    &&& forall|i: int|
        0 <= i < after.len() ==> (#[trigger] after[i])@ == if i < inputs.len() {
            crate::audio::overlaid(
                before[i]@,
                inputs[i]@,
                if before[i]@.len() <= inputs[i]@.len() {
                    before[i]@.len() as int
                } else {
                    inputs[i]@.len() as int
                },
            )
        } else {
            before[i]@
        }
}

impl PassthroughNode {
    /// The number of input ports.
    pub closed spec fn spec_inputs(&self) -> usize {
        self.inputs
    }

    /// The number of output ports.
    pub closed spec fn spec_outputs(&self) -> usize {
        self.outputs
    }

    /// A pass-through with `channels` inputs and as many outputs.
    pub fn new(channels: usize) -> (r: Self)
        ensures
            r.spec_inputs() == channels,
            r.spec_outputs() == channels,
    {
        PassthroughNode { inputs: channels, outputs: channels }
    }
}

impl AudioNode for PassthroughNode {
    open spec fn processes(
        &self,
        inputs: Seq<AudioBuffer>,
        outputs: Seq<AudioBuffer>,
        context: &ProcessContext,
        written: Seq<AudioBuffer>,
    ) -> bool {
        passed_through(inputs, outputs, written)
    }

    fn input_count(&self) -> (r: usize)
        ensures
            r == self.spec_inputs(),
    {
        self.inputs
    }

    fn output_count(&self) -> (r: usize)
        ensures
            r == self.spec_outputs(),
    {
        self.outputs
    }

    fn name(&self) -> (r: &str)
        ensures
            r@ == "Passthrough"@,
    {
        "Passthrough"
    }

    fn process(&mut self, inputs: &[AudioBuffer], outputs: &mut Vec<AudioBuffer>, _context: &ProcessContext)
        ensures
            passed_through(inputs@, old(outputs)@, final(outputs)@),
    {
        let mut i: usize = 0;
        while i < outputs.len() && i < inputs.len()
            invariant
                i <= inputs@.len(),
                i <= outputs@.len(),
                all_wf(inputs@),
                all_wf(outputs@),
                outputs@.len() == old(outputs)@.len(),
                forall|j: int|
                    0 <= j < outputs@.len() ==> {
                        &&& (#[trigger] outputs@[j]).spec_channels() == old(outputs)@[j].spec_channels()
                        &&& outputs@[j].spec_frames() == old(outputs)@[j].spec_frames()
                    },
                forall|j: int|
                    0 <= j < i ==> (#[trigger] outputs@[j])@ == crate::audio::overlaid(
                        old(outputs)@[j]@,
                        inputs@[j]@,
                        if old(outputs)@[j]@.len() <= inputs@[j]@.len() {
                            old(outputs)@[j]@.len() as int
                        } else {
                            inputs@[j]@.len() as int
                        },
                    ),
                forall|j: int| i <= j < outputs@.len() ==> outputs@[j] == old(outputs)@[j],
            decreases outputs.len() - i,
        {
            outputs[i].copy_from(&inputs[i]);
            i += 1;
        }
    }
}

/// The node that feeds the audio interface. It has no outputs of its own.
pub struct MasterNode;

impl AudioNode for MasterNode {
    open spec fn processes(
        &self,
        inputs: Seq<AudioBuffer>,
        outputs: Seq<AudioBuffer>,
        context: &ProcessContext,
        written: Seq<AudioBuffer>,
    ) -> bool {
        written == outputs
    }

    fn input_count(&self) -> (r: usize)
        ensures
            r == 2,
    {
        2
    }

    fn output_count(&self) -> (r: usize)
        ensures
            r == 0,
    {
        0
    }

    fn name(&self) -> (r: &str)
        ensures
            r@ == "Master"@,
    {
        "Master"
    }

    fn process(&mut self, _inputs: &[AudioBuffer], outputs: &mut Vec<AudioBuffer>, _context: &ProcessContext)
        ensures
            final(outputs)@ == old(outputs)@,
    {
    }
}

} // verus!
