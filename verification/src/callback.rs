//! The audio callback: what it decides in each period.
//!
//! The callback runs once per hardware period. It takes the commands that
//! have arrived, moves the transport, and tells the signal path what to do
//! with the output region: whether to capture, whether to click, by what
//! volume to scale, and whether meter and playhead reports are due. The
//! arithmetic on samples is the signal path's; the decisions are made here.
use vstd::prelude::*;
use crate::audio::{Sample, SampleRate};
use crate::command::{AudioCommand, AudioEvent, MeterLevels, TransportState};
use crate::ieee::{clamp_f32, f32_clamped, f32_is_nan, f32_lt, is_nan_f32, F32_ONE, F32_ZERO};
use crate::recording::RecordingBuffer;
use crate::time::{SamplePosition, Tempo, TimeSignature};

verus! {

/// The number of channels of the output region.
pub const OUTPUT_CHANNELS: usize = 2;

/// The number of meter reports per second that the callback aims at.
pub const METER_RATE: u32 = 30;

/// The number of playhead reports per second that the callback aims at.
pub const PLAYHEAD_RATE: u32 = 10;

/// What the signal path has to do in one period.
#[derive(Debug, Clone, Copy, PartialEq, Eq, Structural)]
pub struct PeriodPlan {
    /// The number of frames in the output region.
    pub frames: usize,
    /// Whether the transport plays, so that the graph is to be driven.
    pub playing: bool,
    /// Whether input is to be captured into the recording.
    pub capture: bool,
    /// Whether the metronome is to click into the output.
    pub metronome: bool,
    /// The position of the first frame of the period.
    pub playhead: SamplePosition,
    /// The position that a playhead report names: that after the period.
    pub playhead_after: SamplePosition,
    /// The tempo during the period.
    pub tempo: Tempo,
    /// The time signature during the period.
    pub time_signature: TimeSignature,
    /// The sample rate of the stream.
    pub sample_rate: SampleRate,
    /// The volume that the output is scaled by at the end.
    pub master_volume: Sample,
    /// Whether a meter window ends with this period.
    pub meter_due: bool,
    /// Whether the playhead is to be reported after this period: about ten
    /// times a second while the transport plays.
    pub playhead_due: bool,
}

/// The state that the callback keeps from one period to the next.
#[derive(Debug, Clone, Copy, PartialEq, Eq, Structural)]
pub struct EngineState {
    /// The transport.
    pub transport: TransportState,
    /// The sample rate of the stream.
    pub sample_rate: SampleRate,
    /// The master volume, a binary32 number.
    pub master_volume: Sample,
    /// Whether the metronome is switched on.
    pub metronome_enabled: bool,
    /// Frames counted in the current meter window.
    pub meter_frame_counter: usize,
    /// Frames after which a meter window ends.
    pub meter_update_interval: usize,
    /// Frames played since the playhead was last reported.
    pub playhead_frame_counter: usize,
    /// Frames of playing after which the playhead is reported.
    pub playhead_update_interval: usize,
}

/// The volume that a request for `volume` sets: the number confined to 0.0
/// to 1.0, and silence where `volume` is no number.
pub open spec fn confined(volume: Sample) -> Sample {
    if f32_is_nan(volume) {
        F32_ZERO
    } else {
        f32_clamped(volume, F32_ZERO, F32_ONE)
    }
}

/// The earlier of `position + frames` and the end of the sample clock.
pub open spec fn advanced(position: SamplePosition, frames: usize) -> SamplePosition {
    if position.0 + frames > i64::MAX {
        SamplePosition(i64::MAX)
    } else {
        SamplePosition((position.0 + frames) as i64)
    }
}

impl EngineState {
    /// The state of a callback that has not run yet: the transport at rest,
    /// full volume, no metronome, a meter window of a thirtieth of a second
    /// and a playhead report every tenth of a second, or each one period
    /// where that is longer.
    pub open spec fn initial(sample_rate: SampleRate, buffer_size: usize) -> EngineState {
        EngineState {
            transport: TransportState::initial(),
            sample_rate,
            master_volume: F32_ONE,
            metronome_enabled: false,
            meter_frame_counter: 0,
            meter_update_interval: if sample_rate.0 / METER_RATE >= buffer_size {
                (sample_rate.0 / METER_RATE) as usize
            } else {
                buffer_size
            },
            playhead_frame_counter: 0,
            playhead_update_interval: if sample_rate.0 / PLAYHEAD_RATE >= buffer_size {
                (sample_rate.0 / PLAYHEAD_RATE) as usize
            } else {
                buffer_size
            },
        }
    }

    /// The state after one command.
    pub open spec fn after(self, command: AudioCommand) -> EngineState {
        match command {
            AudioCommand::Play => EngineState {
                transport: TransportState { is_playing: true, ..self.transport },
                ..self
            },
            AudioCommand::Stop => EngineState {
                transport: TransportState { is_playing: false, ..self.transport },
                ..self
            },
            AudioCommand::Seek(position) => EngineState {
                transport: TransportState { playhead: position, ..self.transport },
                ..self
            },
            AudioCommand::SetTempo(tempo) => EngineState {
                transport: TransportState { tempo, ..self.transport },
                ..self
            },
            AudioCommand::SetTimeSignature(time_signature) => EngineState {
                transport: TransportState { time_signature, ..self.transport },
                ..self
            },
            AudioCommand::StartRecording => EngineState {
                transport: TransportState { is_recording: true, ..self.transport },
                ..self
            },
            AudioCommand::StopRecording => EngineState {
                transport: TransportState { is_recording: false, ..self.transport },
                ..self
            },
            AudioCommand::SetMasterVolume(volume) => EngineState {
                master_volume: confined(volume),
                ..self
            },
            AudioCommand::SetMetronomeEnabled(enabled) => EngineState { metronome_enabled: enabled, ..self },
        }
    }

    /// Whether the control thread is told of the transport after `command`.
    pub open spec fn announces(command: AudioCommand) -> bool {
        command is Play || command is Stop || command is StartRecording || command is StopRecording
    }

    /// The event that follows `command`, if one does: the transport's
    /// switches as the command left them.
    pub open spec fn announcement(self, command: AudioCommand) -> Option<AudioEvent> {
        if Self::announces(command) {
            Some(
                AudioEvent::TransportStateChanged {
                    is_playing: self.after(command).transport.is_playing,
                    is_recording: self.after(command).transport.is_recording,
                },
            )
        } else {
            None
        }
    }

    /// The state after a run of commands, the first applied first.
    pub open spec fn after_all(self, commands: Seq<AudioCommand>) -> EngineState
        decreases commands.len(),
    {
        if commands.len() == 0 {
            self
        } else {
            self.after_all(commands.drop_last()).after(commands.last())
        }
    }

    /// Whether a meter window ends within the next `frames` frames.
    pub open spec fn window_ends(self, frames: usize) -> bool {
        self.meter_frame_counter + frames >= self.meter_update_interval
    }

    /// Whether a playhead report falls due within the next `frames` frames:
    /// the transport plays, and with these frames as many have been played
    /// since the last report as lie between two reports.
    pub open spec fn playhead_ends(self, frames: usize) -> bool {
        self.transport.is_playing && self.playhead_frame_counter + frames >= self.playhead_update_interval
    }

    /// The state after a period over an output region of `output_len`
    /// samples: while playing the playhead has moved on by the frames of the
    /// region, and the meter window has grown by them or started anew.
    pub open spec fn after_period(self, output_len: usize) -> EngineState {
        let frames = (output_len / OUTPUT_CHANNELS) as usize;
        EngineState {
            transport: TransportState {
                playhead: if self.transport.is_playing {
                    advanced(self.transport.playhead, frames)
                } else {
                    self.transport.playhead
                },
                ..self.transport
            },
            meter_frame_counter: if self.window_ends(frames) {
                0
            } else {
                (self.meter_frame_counter + frames) as usize
            },
            playhead_frame_counter: if !self.transport.is_playing {
                self.playhead_frame_counter
            } else if self.playhead_ends(frames) {
                0
            } else {
                (self.playhead_frame_counter + frames) as usize
            },
            ..self
        }
    }

    /// What the signal path has to do in a period over an output region of
    /// `output_len` samples.
    pub open spec fn plan(self, output_len: usize) -> PeriodPlan {
        let frames = (output_len / OUTPUT_CHANNELS) as usize;
        let next = self.after_period(output_len);
        PeriodPlan {
            frames,
            playing: self.transport.is_playing,
            capture: self.transport.is_recording,
            metronome: self.transport.is_playing && self.metronome_enabled,
            playhead: self.transport.playhead,
            playhead_after: next.transport.playhead,
            tempo: self.transport.tempo,
            time_signature: self.transport.time_signature,
            sample_rate: self.sample_rate,
            master_volume: self.master_volume,
            meter_due: self.window_ends(frames),
            playhead_due: self.playhead_ends(frames),
        }
    }

    /// Over a period the playhead never moves back, and it stays where it
    /// is unless the transport plays.
    pub proof fn lemma_playhead_never_falls(self, output_len: usize)
        ensures
            self.after_period(output_len).transport.playhead.0 >= self.transport.playhead.0,
            !self.transport.is_playing ==> self.after_period(output_len).transport.playhead
                == self.transport.playhead,
    {
    }

    /// No command but a seek moves the playhead.
    pub proof fn lemma_only_seek_moves_playhead(self, command: AudioCommand)
        requires
            !(command is Seek),
        ensures
            self.after(command).transport.playhead == self.transport.playhead,
    {
    }

    /// Whether the master volume is a number, neither below 0.0 nor above
    /// 1.0.
    pub open spec fn volume_confined(self) -> bool {
        !f32_is_nan(self.master_volume) && !f32_lt(self.master_volume, F32_ZERO) && !f32_lt(
            F32_ONE,
            self.master_volume,
        )
    }

    /// A callback starts with its master volume within 0.0 to 1.0, and no
    /// command takes it out of there.
    pub proof fn lemma_volume_stays_confined(self, command: AudioCommand)
        requires
            self.volume_confined(),
        ensures
            self.after(command).volume_confined(),
            EngineState::initial(self.sample_rate, self.meter_update_interval).volume_confined(),
    {
    }

    /// Whatever commands arrive, in whatever number, they leave the sample
    /// rate and the meter window alone, and the master volume where it
    /// belongs.
    pub proof fn lemma_commands_keep_the_stream(self, commands: Seq<AudioCommand>)
        ensures
            self.after_all(commands).sample_rate == self.sample_rate,
            self.after_all(commands).meter_update_interval == self.meter_update_interval,
            self.after_all(commands).meter_frame_counter == self.meter_frame_counter,
            self.after_all(commands).playhead_update_interval == self.playhead_update_interval,
            self.after_all(commands).playhead_frame_counter == self.playhead_frame_counter,
            self.volume_confined() ==> self.after_all(commands).volume_confined(),
        decreases commands.len(),
    {
        if commands.len() > 0 {
            self.lemma_commands_keep_the_stream(commands.drop_last());
            if self.volume_confined() {
                self.after_all(commands.drop_last()).lemma_volume_stays_confined(commands.last());
            }
        }
    }

    /// The state of a callback for a stream of the given rate and period.
    pub fn new(sample_rate: SampleRate, buffer_size: usize) -> (r: Self)
        ensures
            r == EngineState::initial(sample_rate, buffer_size),
    {
        let per_window: usize = (sample_rate.0 / METER_RATE) as usize;
        let meter_update_interval: usize = if per_window >= buffer_size {
            per_window
        } else {
            buffer_size
        };
        let per_report: usize = (sample_rate.0 / PLAYHEAD_RATE) as usize;
        let playhead_update_interval: usize = if per_report >= buffer_size {
            per_report
        } else {
            buffer_size
        };
        EngineState {
            transport: TransportState::new(),
            sample_rate,
            master_volume: F32_ONE,
            metronome_enabled: false,
            meter_frame_counter: 0,
            meter_update_interval,
            playhead_frame_counter: 0,
            playhead_update_interval,
        }
    }

    /// Apply one command. The result is the event for the control thread, if
    /// the command calls for one.
    pub fn apply(&mut self, command: AudioCommand) -> (event: Option<AudioEvent>)
        ensures
            *final(self) == old(self).after(command),
            event == old(self).announcement(command),
    {
        match command {
            AudioCommand::Play => {
                self.transport.is_playing = true;
            },
            AudioCommand::Stop => {
                self.transport.is_playing = false;
            },
            AudioCommand::Seek(position) => {
                self.transport.playhead = position;
            },
            AudioCommand::SetTempo(tempo) => {
                self.transport.tempo = tempo;
            },
            AudioCommand::SetTimeSignature(time_signature) => {
                self.transport.time_signature = time_signature;
            },
            AudioCommand::StartRecording => {
                self.transport.is_recording = true;
            },
            AudioCommand::StopRecording => {
                self.transport.is_recording = false;
            },
            AudioCommand::SetMasterVolume(volume) => {
                self.master_volume = if is_nan_f32(volume) {
                    F32_ZERO
                } else {
                    clamp_f32(volume, F32_ZERO, F32_ONE)
                };
            },
            AudioCommand::SetMetronomeEnabled(enabled) => {
                self.metronome_enabled = enabled;
            },
        }
        match command {
            AudioCommand::Play | AudioCommand::Stop | AudioCommand::StartRecording | AudioCommand::StopRecording => Some(
                AudioEvent::TransportStateChanged {
                    is_playing: self.transport.is_playing,
                    is_recording: self.transport.is_recording,
                },
            ),
            _ => None,
        }
    }

    /// Account for one period over an output region of `output_len`
    /// samples, and say what the signal path has to do in it.
    pub fn period(&mut self, output_len: usize) -> (plan: PeriodPlan)
        ensures
            *final(self) == old(self).after_period(output_len),
            plan == old(self).plan(output_len),
    {
        let frames: usize = output_len / OUTPUT_CHANNELS;
        let playhead: SamplePosition = self.transport.playhead;
        let capture: bool = self.transport.is_recording;
        let playing: bool = self.transport.is_playing;
        if playing {
            let step: i64 = frames as i64;
            if playhead.0 > i64::MAX - step {
                self.transport.playhead = SamplePosition(i64::MAX);
            } else {
                self.transport.playhead = SamplePosition(playhead.0 + step);
            }
        }
        let meter_due: bool = self.meter_frame_counter >= self.meter_update_interval || frames
            >= self.meter_update_interval - self.meter_frame_counter;
        if meter_due {
            self.meter_frame_counter = 0;
        } else {
            self.meter_frame_counter = self.meter_frame_counter + frames;
        }
        let playhead_due: bool = playing && (self.playhead_frame_counter >= self.playhead_update_interval || frames
            >= self.playhead_update_interval - self.playhead_frame_counter);
        if playhead_due {
            self.playhead_frame_counter = 0;
        } else if playing {
            self.playhead_frame_counter = self.playhead_frame_counter + frames;
        }
        PeriodPlan {
            frames,
            playing,
            capture,
            metronome: playing && self.metronome_enabled,
            playhead,
            playhead_after: self.transport.playhead,
            tempo: self.transport.tempo,
            time_signature: self.transport.time_signature,
            sample_rate: self.sample_rate,
            master_volume: self.master_volume,
            meter_due,
            playhead_due,
        }
    }
}

impl PeriodPlan {
    /// The levels that the control thread is owed after the period: those
    /// given, if a meter window has ended.
    pub open spec fn meter_report(self, levels: MeterLevels) -> Option<AudioEvent> {
        if self.meter_due {
            Some(
                AudioEvent::MeterUpdate {
                    peak_left: levels.peak_left,
                    peak_right: levels.peak_right,
                    rms_left: levels.rms_left,
                    rms_right: levels.rms_right,
                },
            )
        } else {
            None
        }
    }

    /// The playhead that the control thread is owed after the period, if
    /// its report is due.
    pub open spec fn playhead_report(self) -> Option<AudioEvent> {
        if self.playhead_due {
            Some(AudioEvent::PlayheadMoved(self.playhead_after))
        } else {
            None
        }
    }

    /// The events that the event queue takes of those owed after the period,
    /// where `meter_taken` and `playhead_taken` say of each whether the
    /// queue has room for it when its turn comes: first the levels, then the
    /// playhead.
    pub open spec fn taken_reports(self, levels: MeterLevels, meter_taken: bool, playhead_taken: bool) -> Seq<
        AudioEvent,
    > {
        let first = if meter_taken && self.meter_due {
            seq![self.meter_report(levels)->Some_0]
        } else {
            Seq::<AudioEvent>::empty()
        };
        if playhead_taken && self.playhead_due {
            first.push(self.playhead_report()->Some_0)
        } else {
            first
        }
    }

    /// The events that the control thread is owed after the period, in the
    /// order in which they are sent: first the levels, then the playhead.
    /// `levels` are those of the output region after scaling; they are left
    /// aside unless a meter window has ended.
    pub fn reports(&self, levels: MeterLevels) -> (r: (Option<AudioEvent>, Option<AudioEvent>))
        ensures
            r.0 == self.meter_report(levels),
            r.1 == self.playhead_report(),
    {
        let meter: Option<AudioEvent> = if self.meter_due {
            Some(
                AudioEvent::MeterUpdate {
                    peak_left: levels.peak_left,
                    peak_right: levels.peak_right,
                    rms_left: levels.rms_left,
                    rms_right: levels.rms_right,
                },
            )
        } else {
            None
        };
        let playhead: Option<AudioEvent> = if self.playhead_due {
            Some(AudioEvent::PlayheadMoved(self.playhead_after))
        } else {
            None
        };
        (meter, playhead)
    }
}

/// The audio callback: the state it keeps, the queue it takes commands from
/// and the queue it reports to.
pub struct AudioCallback {
    command_rx: rtrb::Consumer<AudioCommand>,
    event_tx: rtrb::Producer<AudioEvent>,
    state: EngineState,
    recording: Option<RecordingBuffer>,
    reported: Ghost<Seq<AudioEvent>>,
}

impl AudioCallback {
    /// The state that the callback keeps between periods.
    pub closed spec fn state(&self) -> EngineState {
        self.state
    }

    /// The events that the event queue has taken from this callback, oldest
    /// first. An event that found the queue full is not among them.
    pub closed spec fn reported(&self) -> Seq<AudioEvent> {
        self.reported@
    }

    /// The recording that the callback captures input into, if it has one.
    pub closed spec fn recording(&self) -> Option<RecordingBuffer> {
        self.recording
    }

    /// A callback at rest that takes its commands from `command_rx` and
    /// reports to `event_tx`.
    pub fn new(
        command_rx: rtrb::Consumer<AudioCommand>,
        event_tx: rtrb::Producer<AudioEvent>,
        sample_rate: SampleRate,
        buffer_size: usize,
    ) -> (r: Self)
        ensures
            r.state() == EngineState::initial(sample_rate, buffer_size),
            r.recording() is None,
            r.reported() == Seq::<AudioEvent>::empty(),
    {
        AudioCallback {
            command_rx,
            event_tx,
            state: EngineState::new(sample_rate, buffer_size),
            recording: None,
            reported: Ghost(Seq::empty()),
        }
    }

    /// Give the callback the recording that it captures input into, or
    /// take it away. This is for the thread that owns the callback before
    /// it is bound to the hardware: the callback itself never allocates.
    pub fn set_recording(&mut self, recording: Option<RecordingBuffer>)
        ensures
            final(self).state() == old(self).state(),
            final(self).recording() == recording,
            final(self).reported() == old(self).reported(),
    {
        self.recording = recording;
    }

    /// Hand an event to the control thread. The result says whether the
    /// queue took it; an event that finds the queue full is dropped.
    pub fn send_event(&mut self, event: AudioEvent) -> (taken: bool)
        ensures
            final(self).state() == old(self).state(),
            final(self).recording() == old(self).recording(),
            final(self).reported() == if taken {
                old(self).reported().push(event)
            } else {
                old(self).reported()
            },
    {
        let ghost sent = event;
        let taken: bool = self.event_tx.push(event).is_ok();
        if taken {
            self.reported = Ghost(self.reported@.push(sent));
        }
        taken
    }

    /// Apply one command and announce the transport where the command calls
    /// for it.
    pub fn apply_command(&mut self, command: AudioCommand)
        ensures
            final(self).state() == old(self).state().after(command),
            final(self).recording() == old(self).recording(),
            final(self).reported() == old(self).reported() || (old(self).state().announcement(command) matches Some(
                event,
            ) && final(self).reported() == old(self).reported().push(event)),
    {
        match self.state.apply(command) {
            Some(event) => {
                let _ = self.send_event(event);
            },
            None => {},
        }
    }

    /// Take the commands that wait in the queue, oldest first, and apply
    /// each. No more are taken than were there at the start, so the call
    /// ends even while commands keep arriving. The result is the number of
    /// commands applied.
    pub fn process_commands(&mut self) -> (applied: usize)
        ensures
            exists|commands: Seq<AudioCommand>|
                commands.len() == applied && final(self).state() == #[trigger] old(self).state().after_all(commands),
            final(self).recording() == old(self).recording(),
            old(self).reported().is_prefix_of(final(self).reported()),
    {
        let waiting: usize = self.command_rx.slots();
        let mut applied: usize = 0;
        let ghost mut commands: Seq<AudioCommand> = Seq::empty();
        while applied < waiting
            invariant
                applied <= waiting,
                commands.len() == applied,
                self.state == old(self).state.after_all(commands),
                self.recording == old(self).recording,
                old(self).reported@.is_prefix_of(self.reported@),
            decreases waiting - applied,
        {
            let ghost log = self.reported@;
            match self.command_rx.pop() {
                Ok(command) => {
                    self.apply_command(command);
                    proof {
                        assert(log.is_prefix_of(self.reported@));
                        let longer = commands.push(command);
                        assert(longer.drop_last() =~= commands);
                        commands = longer;
                    }
                    applied += 1;
                },
                Err(_) => {
                    break ;
                },
            }
        }
        assert(self.state() == old(self).state().after_all(commands));
        applied
    }

    /// Run the control side of one period over an output region of
    /// `output_len` samples: take the waiting commands, move the transport
    /// and the meter window, and say what the signal path has to do.
    ///
    /// While the transport records, `input` is captured into the recording,
    /// if there are both and no other thread is at the recording just then;
    /// otherwise this period's input is left out. The second result says
    /// whether input was captured.
    pub fn process(&mut self, output_len: usize, input: Option<&[Sample]>) -> (r: (PeriodPlan, bool))
        ensures
            exists|commands: Seq<AudioCommand>|
                {
                    let ready = #[trigger] old(self).state().after_all(commands);
                    final(self).state() == ready.after_period(output_len) && r.0 == ready.plan(output_len)
                },
            r.1 ==> r.0.capture && input is Some && old(self).recording() is Some,
            final(self).recording() == old(self).recording(),
            old(self).reported().is_prefix_of(final(self).reported()),
    {
        let _ = self.process_commands();
        let plan = self.state.period(output_len);
        let captured: bool = if plan.capture {
            match (input, &self.recording) {
                (Some(samples), Some(recording)) => recording.try_capture(samples),
                _ => false,
            }
        } else {
            false
        };
        (plan, captured)
    }

    /// Report to the control thread what `plan` says is due after the
    /// period, with `levels` as the levels of the output region: first the
    /// levels, then the playhead. An event that finds the queue full is
    /// dropped. The result is the number of events that the queue took.
    pub fn report(&mut self, plan: &PeriodPlan, levels: MeterLevels) -> (sent: usize)
        ensures
            final(self).state() == old(self).state(),
            final(self).recording() == old(self).recording(),
            exists|meter_taken: bool, playhead_taken: bool|
                {
                    let taken = #[trigger] plan.taken_reports(levels, meter_taken, playhead_taken);
                    final(self).reported() == old(self).reported() + taken && sent == taken.len()
                },
    {
        let (meter, playhead) = plan.reports(levels);
        let mut sent: usize = 0;
        let mut meter_taken: bool = false;
        let mut playhead_taken: bool = false;
        match meter {
            Some(event) => {
                meter_taken = self.send_event(event);
                if meter_taken {
                    sent += 1;
                }
            },
            None => {},
        }
        match playhead {
            Some(event) => {
                playhead_taken = self.send_event(event);
                if playhead_taken {
                    sent += 1;
                }
            },
            None => {},
        }
        proof {
            let taken = plan.taken_reports(levels, meter_taken, playhead_taken);
            assert(self.reported() =~= old(self).reported() + taken);
            assert(sent == taken.len());
        }
        sent
    }

    /// The transport.
    pub fn transport(&self) -> (r: &TransportState)
        ensures
            *r == self.state().transport,
    {
        &self.state.transport
    }

    /// The sample rate of the stream.
    pub fn sample_rate(&self) -> (r: SampleRate)
        ensures
            r == self.state().sample_rate,
    {
        self.state.sample_rate
    }
}

} // verus!
