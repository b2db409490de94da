//! The flow of MIDI events from their source to the audio period.
use vstd::prelude::*;
use std::collections::VecDeque;
use crate::midi::MidiEvent;

verus! {

/// What is known of a MIDI port.
#[derive(Debug, Clone)]
pub struct MidiDeviceInfo {
    pub name: String,
    pub port_number: usize,
}

/// Collects MIDI events for the next period, and records them on request.
pub struct MidiEngine {
    pending_events: VecDeque<MidiEvent>,
    recording: Vec<MidiEvent>,
    is_recording: bool,
}

impl MidiEngine {
    /// The events that wait for the next period, oldest first.
    pub closed spec fn pending(&self) -> Seq<MidiEvent> {
        self.pending_events@
    }

    /// The events recorded so far, oldest first.
    pub closed spec fn recorded(&self) -> Seq<MidiEvent> {
        self.recording@
    }

    /// Whether events are being recorded.
    pub closed spec fn spec_is_recording(&self) -> bool {
        self.is_recording
    }

    /// An engine with nothing pending that does not record.
    pub fn new() -> (r: Self)
        ensures
            r.pending() == Seq::<MidiEvent>::empty(),
            r.recorded() == Seq::<MidiEvent>::empty(),
            !r.spec_is_recording(),
    {
        MidiEngine { pending_events: VecDeque::new(), recording: Vec::new(), is_recording: false }
    }

    /// Take in an event: it waits for the next period, and is recorded if
    /// recording is on.
    pub fn push_event(&mut self, event: MidiEvent)
        ensures
            final(self).pending() == old(self).pending().push(event),
            final(self).recorded() == if old(self).spec_is_recording() {
                old(self).recorded().push(event)
            } else {
                old(self).recorded()
            },
            final(self).spec_is_recording() == old(self).spec_is_recording(),
    {
        if self.is_recording {
            self.recording.push(event);
        }
        self.pending_events.push_back(event);
    }

    /// Hand out the events that wait, oldest first. None waits afterwards.
    pub fn drain_events(&mut self) -> (events: Vec<MidiEvent>)
        ensures
            events@ == old(self).pending(),
            final(self).pending() == Seq::<MidiEvent>::empty(),
            final(self).recorded() == old(self).recorded(),
            final(self).spec_is_recording() == old(self).spec_is_recording(),
    {
        let mut events: Vec<MidiEvent> = Vec::new();
        while self.pending_events.len() > 0
            invariant
                events@ + self.pending_events@ == old(self).pending_events@,
                self.recording == old(self).recording,
                self.is_recording == old(self).is_recording,
            decreases self.pending_events.len(),
        {
            let ghost before = self.pending_events@;
            match self.pending_events.pop_front() {
                Some(event) => {
                    events.push(event);
                    assert(events@ + self.pending_events@ =~= old(self).pending_events@) by {
                        assert(before =~= seq![event] + self.pending_events@);
                    }
                },
                None => {},
            }
        }
        assert(events@ =~= events@ + self.pending_events@);
        assert(self.pending_events@ =~= Seq::<MidiEvent>::empty());
        events
    }

    /// Start a new recording. What was recorded before is dropped.
    pub fn start_recording(&mut self)
        ensures
            final(self).spec_is_recording(),
            final(self).recorded() == Seq::<MidiEvent>::empty(),
            final(self).pending() == old(self).pending(),
    {
        self.is_recording = true;
        self.recording.clear();
    }

    /// Stop recording and hand out what was recorded, oldest first.
    pub fn stop_recording(&mut self) -> (events: Vec<MidiEvent>)
        ensures
            events@ == old(self).recorded(),
            !final(self).spec_is_recording(),
            final(self).recorded() == Seq::<MidiEvent>::empty(),
            final(self).pending() == old(self).pending(),
    {
        self.is_recording = false;
        let mut events: Vec<MidiEvent> = Vec::new();
        std::mem::swap(&mut self.recording, &mut events);
        events
    }

    /// Whether events are being recorded.
    pub fn is_recording(&self) -> (r: bool)
        ensures
            r == self.spec_is_recording(),
    {
        self.is_recording
    }
}

impl Default for MidiEngine {
    fn default() -> (r: Self)
        ensures
            r.pending() == Seq::<MidiEvent>::empty(),
            r.recorded() == Seq::<MidiEvent>::empty(),
            !r.spec_is_recording(),
    {
        MidiEngine::new()
    }
}

} // verus!
