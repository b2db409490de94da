//! The transport as the control thread keeps it.
use vstd::prelude::*;
use crate::audio::SampleRate;
use crate::time::{SamplePosition, Tempo, TimeSignature, BPM_DEFAULT};

verus! {

/// The transport controls: play, stop, seek, tempo and the loop range.
#[derive(Debug, Clone, Copy, PartialEq, Eq, Structural)]
pub struct Transport {
    pub is_playing: bool,
    pub is_recording: bool,
    pub playhead: SamplePosition,
    pub tempo: Tempo,
    pub time_signature: TimeSignature,
    pub sample_rate: SampleRate,
    pub loop_enabled: bool,
    pub loop_start: SamplePosition,
    pub loop_end: SamplePosition,
}

impl Transport {
    /// The transport at rest at the start of the stream, at 120 beats per
    /// minute in common time.
    pub open spec fn initial(sample_rate: SampleRate) -> Transport {
        Transport {
            is_playing: false,
            is_recording: false,
            playhead: SamplePosition(0),
            tempo: Tempo(BPM_DEFAULT),
            time_signature: TimeSignature { numerator: 4, denominator: 4 },
            sample_rate,
            loop_enabled: false,
            loop_start: SamplePosition(0),
            loop_end: SamplePosition(0),
        }
    }

    pub fn new(sample_rate: SampleRate) -> (r: Self)
        ensures
            r == Transport::initial(sample_rate),
    {
        Transport {
            is_playing: false,
            is_recording: false,
            playhead: SamplePosition(0),
            tempo: Tempo(BPM_DEFAULT),
            time_signature: TimeSignature { numerator: 4, denominator: 4 },
            sample_rate,
            loop_enabled: false,
            loop_start: SamplePosition(0),
            loop_end: SamplePosition(0),
        }
    }

    pub fn play(&mut self)
        ensures
            *final(self) == (Transport { is_playing: true, ..*old(self) }),
    {
        self.is_playing = true;
    }

    pub fn stop(&mut self)
        ensures
            *final(self) == (Transport { is_playing: false, ..*old(self) }),
    {
        self.is_playing = false;
    }

    pub fn pause(&mut self)
        ensures
            *final(self) == (Transport { is_playing: false, ..*old(self) }),
    {
        self.is_playing = false;
    }

    pub fn seek(&mut self, position: SamplePosition)
        ensures
            *final(self) == (Transport { playhead: position, ..*old(self) }),
    {
        self.playhead = position;
    }

    pub fn rewind(&mut self)
        ensures
            *final(self) == (Transport { playhead: SamplePosition(0), ..*old(self) }),
    {
        self.playhead = SamplePosition(0);
    }

    pub fn set_tempo(&mut self, tempo: Tempo)
        ensures
            *final(self) == (Transport { tempo, ..*old(self) }),
    {
        self.tempo = tempo;
    }

    pub fn set_time_signature(&mut self, time_signature: TimeSignature)
        ensures
            *final(self) == (Transport { time_signature, ..*old(self) }),
    {
        self.time_signature = time_signature;
    }

    pub fn start_recording(&mut self)
        ensures
            *final(self) == (Transport { is_recording: true, ..*old(self) }),
    {
        self.is_recording = true;
    }

    pub fn stop_recording(&mut self)
        ensures
            *final(self) == (Transport { is_recording: false, ..*old(self) }),
    {
        self.is_recording = false;
    }
}

impl Default for Transport {
    fn default() -> (r: Self)
        ensures
            r == Transport::initial(SampleRate(48000)),
    {
        Transport::new(SampleRate(48000))
    }
}

} // verus!
