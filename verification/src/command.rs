//! What the control thread and the audio thread say to each other.
use vstd::prelude::*;
use crate::audio::Sample;
use crate::time::{SamplePosition, Tempo, TimeSignature, BPM_DEFAULT};

verus! {

/// A command from the control thread to the audio thread.
#[derive(Debug, Clone, Copy, PartialEq, Eq, Structural)]
pub enum AudioCommand {
    /// Start playback.
    Play,
    /// Stop playback.
    Stop,
    /// Move the playhead.
    Seek(SamplePosition),
    /// Set the tempo.
    SetTempo(Tempo),
    /// Set the time signature.
    SetTimeSignature(TimeSignature),
    /// Start recording.
    StartRecording,
    /// Stop recording.
    StopRecording,
    /// Set the master volume, a binary32 number that the engine confines to
    /// 0.0 to 1.0; what is no number sets silence.
    SetMasterVolume(Sample),
    /// Switch the metronome on or off.
    SetMetronomeEnabled(bool),
}

/// Peak and RMS level of both channels over one meter window, as binary32
/// encodings.
#[derive(Debug, Clone, Copy, PartialEq, Eq, Structural)]
pub struct MeterLevels {
    pub peak_left: Sample,
    pub peak_right: Sample,
    pub rms_left: Sample,
    pub rms_right: Sample,
}

/// An event from the audio thread to the control thread.
#[derive(Debug, Clone, PartialEq, Eq)]
pub enum AudioEvent {
    /// The playhead has moved to this position.
    PlayheadMoved(SamplePosition),
    /// Levels of the last meter window.
    MeterUpdate { peak_left: Sample, peak_right: Sample, rms_left: Sample, rms_right: Sample },
    /// Playback or recording was switched.
    TransportStateChanged { is_playing: bool, is_recording: bool },
    /// The audio device failed.
    DeviceError(String),
    /// The hardware ran out of samples.
    BufferUnderrun,
}

/// The state of the transport.
#[derive(Debug, Clone, Copy, PartialEq, Eq, Structural)]
pub struct TransportState {
    pub is_playing: bool,
    pub is_recording: bool,
    pub playhead: SamplePosition,
    pub tempo: Tempo,
    pub time_signature: TimeSignature,
    pub loop_enabled: bool,
    pub loop_start: SamplePosition,
    pub loop_end: SamplePosition,
}

impl TransportState {
    /// The transport at rest at the start of the stream, at 120 beats per
    /// minute in common time.
    pub open spec fn initial() -> TransportState {
        TransportState {
            is_playing: false,
            is_recording: false,
            playhead: SamplePosition(0),
            tempo: Tempo(BPM_DEFAULT),
            time_signature: TimeSignature { numerator: 4, denominator: 4 },
            loop_enabled: false,
            loop_start: SamplePosition(0),
            loop_end: SamplePosition(0),
        }
    }

    pub fn new() -> (r: Self)
        ensures
            r == TransportState::initial(),
    {
        TransportState {
            is_playing: false,
            is_recording: false,
            playhead: SamplePosition(0),
            tempo: Tempo(BPM_DEFAULT),
            time_signature: TimeSignature { numerator: 4, denominator: 4 },
            loop_enabled: false,
            loop_start: SamplePosition(0),
            loop_end: SamplePosition(0),
        }
    }
}

impl Default for TransportState {
    fn default() -> (r: Self)
        ensures
            r == TransportState::initial(),
    {
        TransportState::new()
    }
}

} // verus!
