//! The control thread's end of the audio engine.
use vstd::prelude::*;
use vstd::string::StringExecFns;
use crate::audio::{Sample, SampleRate};
use crate::callback::{AudioCallback, EngineState};
use crate::command::{AudioCommand, AudioEvent};
use crate::error::{KotoError, KotoResult};
use crate::queue::{can_hold, channel};
use crate::time::{SamplePosition, Tempo, TimeSignature};

verus! {

/// The number of commands that can wait for the audio thread.
pub const COMMAND_BUFFER_SIZE: usize = 256;

/// The number of events that can wait for the control thread.
pub const EVENT_BUFFER_SIZE: usize = 1024;

/// Whether the two queues of an engine can be laid out.
pub open spec fn queues_fit() -> bool {
    can_hold::<AudioCommand>(COMMAND_BUFFER_SIZE) && can_hold::<AudioEvent>(EVENT_BUFFER_SIZE)
}

/// The audio engine as the control thread sees it: it sends commands to the
/// audio callback and receives its events.
pub struct AudioEngine {
    command_tx: rtrb::Producer<AudioCommand>,
    event_rx: rtrb::Consumer<AudioEvent>,
    sample_rate: SampleRate,
    is_running: bool,
    sent: Ghost<Seq<AudioCommand>>,
}

impl AudioEngine {
    /// The sample rate of the running stream, or of the last one.
    pub closed spec fn spec_sample_rate(&self) -> SampleRate {
        self.sample_rate
    }

    /// Whether a stream is running.
    pub closed spec fn spec_is_running(&self) -> bool {
        self.is_running
    }

    /// The commands that the command queue has taken from this engine since
    /// the queue was made, oldest first. A command that found the queue
    /// full is not among them.
    pub closed spec fn sent(&self) -> Seq<AudioCommand> {
        self.sent@
    }

    /// What sending `command` does to the engine: the queue takes the
    /// command behind those that it has, or it is full and takes nothing.
    /// Nothing else changes.
    pub open spec fn hands_over(&self, command: AudioCommand, after: &AudioEngine) -> bool {
        &&& after.spec_is_running() == self.spec_is_running()
        &&& after.spec_sample_rate() == self.spec_sample_rate()
        &&& (after.sent() == self.sent() || after.sent() == self.sent().push(command))
    }

    /// An engine that is not running. It fails where the queues cannot be
    /// laid out.
    pub fn new() -> (r: KotoResult<Self>)
        ensures
            r is Ok <==> queues_fit(),
            r matches Ok(engine) ==> !engine.spec_is_running() && engine.spec_sample_rate() == SampleRate(48000)
                && engine.sent() == Seq::<AudioCommand>::empty(),
            r matches Err(error) ==> error is AudioDevice,
    {
        match channel::<AudioCommand>(COMMAND_BUFFER_SIZE) {
            Some((command_tx, _command_rx)) => {
                match channel::<AudioEvent>(EVENT_BUFFER_SIZE) {
                    Some((_event_tx, event_rx)) => Ok(
                        AudioEngine {
                            command_tx,
                            event_rx,
                            sample_rate: SampleRate(48000),
                            is_running: false,
                            sent: Ghost(Seq::empty()),
                        },
                    ),
                    None => Err(KotoError::AudioDevice(String::from_str("No room for the event queue"))),
                }
            },
            None => Err(KotoError::AudioDevice(String::from_str("No room for the command queue"))),
        }
    }

    /// Start a session at the negotiated sample rate and period length. A
    /// running engine stays as it is, and the result is `Ok(None)`.
    /// Otherwise the engine gets fresh queues and runs, and the result holds
    /// the callback that is to be bound to the hardware. The caller hands
    /// the outcome of the binding to `bound`.
    pub fn start(&mut self, sample_rate: SampleRate, buffer_size: usize) -> (r: KotoResult<Option<AudioCallback>>)
        ensures
            old(self).spec_is_running() ==> {
                &&& r matches Ok(None)
                &&& final(self).spec_is_running()
                &&& final(self).spec_sample_rate() == old(self).spec_sample_rate()
                &&& final(self).sent() == old(self).sent()
            },
            !old(self).spec_is_running() && queues_fit() ==> {
                &&& r matches Ok(Some(callback))
                &&& callback.state() == EngineState::initial(sample_rate, buffer_size)
                &&& final(self).spec_is_running()
                &&& final(self).spec_sample_rate() == sample_rate
                &&& final(self).sent() == Seq::<AudioCommand>::empty()
            },
            !old(self).spec_is_running() && !queues_fit() ==> {
                &&& r matches Err(error)
                &&& error is AudioDevice
                &&& !final(self).spec_is_running()
                &&& final(self).spec_sample_rate() == old(self).spec_sample_rate()
                &&& final(self).sent() == old(self).sent()
            },
    {
        if self.is_running {
            return Ok(None);
        }
        match channel::<AudioCommand>(COMMAND_BUFFER_SIZE) {
            Some((command_tx, command_rx)) => {
                match channel::<AudioEvent>(EVENT_BUFFER_SIZE) {
                    Some((event_tx, event_rx)) => {
                        self.command_tx = command_tx;
                        self.event_rx = event_rx;
                        self.sample_rate = sample_rate;
                        self.is_running = true;
                        self.sent = Ghost(Seq::empty());
                        Ok(Some(AudioCallback::new(command_rx, event_tx, sample_rate, buffer_size)))
                    },
                    None => Err(KotoError::AudioDevice(String::from_str("No room for the event queue"))),
                }
            },
            None => Err(KotoError::AudioDevice(String::from_str("No room for the command queue"))),
        }
    }

    /// Take the outcome of binding the callback to the hardware. A binding
    /// that went well leaves the engine as it is. One that failed stops the
    /// engine and is reported as a stream error with the cause it gave.
    pub fn bound(&mut self, outcome: Result<(), String>) -> (r: KotoResult<()>)
        ensures
            final(self).spec_sample_rate() == old(self).spec_sample_rate(),
            final(self).sent() == old(self).sent(),
            match outcome {
                Ok(_) => r is Ok && final(self).spec_is_running() == old(self).spec_is_running(),
                Err(cause) => r == Err::<(), KotoError>(KotoError::AudioStream(cause))
                    && !final(self).spec_is_running(),
            },
    {
        match outcome {
            Ok(_) => Ok(()),
            Err(cause) => {
                self.is_running = false;
                Err(KotoError::AudioStream(cause))
            },
        }
    }

    /// Stop the session. Stopping a stopped engine changes nothing.
    pub fn stop(&mut self)
        ensures
            !final(self).spec_is_running(),
            final(self).spec_sample_rate() == old(self).spec_sample_rate(),
            final(self).sent() == old(self).sent(),
    {
        self.is_running = false;
    }

    /// Send a command to the audio thread. The result says whether the
    /// queue took it; a command that finds the queue full is dropped.
    pub fn send_command(&mut self, command: AudioCommand) -> (taken: bool)
        ensures
            final(self).spec_is_running() == old(self).spec_is_running(),
            final(self).spec_sample_rate() == old(self).spec_sample_rate(),
            final(self).sent() == if taken {
                old(self).sent().push(command)
            } else {
                old(self).sent()
            },
    {
        let taken: bool = self.command_tx.push(command).is_ok();
        if taken {
            self.sent = Ghost(self.sent@.push(command));
        }
        taken
    }

    /// Receive the events that wait in the queue, oldest first. No more are
    /// taken than were there at the start.
    pub fn receive_events(&mut self) -> (events: Vec<AudioEvent>)
        ensures
            final(self).spec_is_running() == old(self).spec_is_running(),
            final(self).spec_sample_rate() == old(self).spec_sample_rate(),
            final(self).sent() == old(self).sent(),
    {
        let waiting: usize = self.event_rx.slots();
        let mut events: Vec<AudioEvent> = Vec::new();
        while events.len() < waiting
            invariant
                self.is_running == old(self).is_running,
                self.sample_rate == old(self).sample_rate,
                self.sent == old(self).sent,
            decreases waiting - events.len(),
        {
            match self.event_rx.pop() {
                Ok(event) => {
                    events.push(event);
                },
                Err(_) => {
                    break ;
                },
            }
        }
        events
    }

    /// Start playback.
    pub fn play(&mut self)
        ensures
            old(self).hands_over(AudioCommand::Play, final(self)),
    {
        let _ = self.send_command(AudioCommand::Play);
    }

    /// Stop playback.
    pub fn stop_playback(&mut self)
        ensures
            old(self).hands_over(AudioCommand::Stop, final(self)),
    {
        let _ = self.send_command(AudioCommand::Stop);
    }

    /// Move the playhead.
    pub fn seek(&mut self, position: SamplePosition)
        ensures
            old(self).hands_over(AudioCommand::Seek(position), final(self)),
    {
        let _ = self.send_command(AudioCommand::Seek(position));
    }

    /// Set the tempo.
    pub fn set_tempo(&mut self, tempo: Tempo)
        ensures
            old(self).hands_over(AudioCommand::SetTempo(tempo), final(self)),
    {
        let _ = self.send_command(AudioCommand::SetTempo(tempo));
    }

    /// Set the time signature.
    pub fn set_time_signature(&mut self, time_signature: TimeSignature)
        ensures
            old(self).hands_over(AudioCommand::SetTimeSignature(time_signature), final(self)),
    {
        let _ = self.send_command(AudioCommand::SetTimeSignature(time_signature));
    }

    /// Start recording.
    pub fn start_recording(&mut self)
        ensures
            old(self).hands_over(AudioCommand::StartRecording, final(self)),
    {
        let _ = self.send_command(AudioCommand::StartRecording);
    }

    /// Stop recording.
    pub fn stop_recording(&mut self)
        ensures
            old(self).hands_over(AudioCommand::StopRecording, final(self)),
    {
        let _ = self.send_command(AudioCommand::StopRecording);
    }

    /// Set the master volume, a binary32 number.
    pub fn set_master_volume(&mut self, volume: Sample)
        ensures
            old(self).hands_over(AudioCommand::SetMasterVolume(volume), final(self)),
    {
        let _ = self.send_command(AudioCommand::SetMasterVolume(volume));
    }

    /// Switch the metronome on or off.
    pub fn set_metronome_enabled(&mut self, enabled: bool)
        ensures
            old(self).hands_over(AudioCommand::SetMetronomeEnabled(enabled), final(self)),
    {
        let _ = self.send_command(AudioCommand::SetMetronomeEnabled(enabled));
    }

    /// The sample rate of the running stream, or of the last one.
    pub fn sample_rate(&self) -> (r: SampleRate)
        ensures
            r == self.spec_sample_rate(),
    {
        self.sample_rate
    }

    /// Whether a stream is running.
    pub fn is_running(&self) -> (r: bool)
        ensures
            r == self.spec_is_running(),
    {
        self.is_running
    }
}

} // verus!
