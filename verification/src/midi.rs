//! MIDI channel messages and their decoding from raw bytes.
use vstd::prelude::*;
use vstd::string::StringExecFns;

verus! {

/// A MIDI channel, 0 to 15.
#[derive(Debug, Clone, Copy, PartialEq, Eq, Structural, Hash)]
pub struct MidiChannel(pub u8);

impl MidiChannel {
    /// The channel `channel`, or channel 15 for a larger number.
    pub fn new(channel: u8) -> (r: Self)
        ensures
            r.0 == if channel <= 15 { channel } else { 15 },
    {
        if channel <= 15 {
            MidiChannel(channel)
        } else {
            MidiChannel(15)
        }
    }
}

impl Default for MidiChannel {
    fn default() -> (r: Self)
        ensures
            r.0 == 0,
    {
        MidiChannel(0)
    }
}

/// The largest value of a MIDI data byte.
pub const DATA_MAX: u8 = 127;

/// A data byte brought into the range of MIDI data, 0 to 127.
pub open spec fn data7(byte: u8) -> u8 {
    if byte <= DATA_MAX {
        byte
    } else {
        DATA_MAX
    }
}

fn clamp7(byte: u8) -> (r: u8)
    ensures
        r == data7(byte),
{
    if byte <= DATA_MAX {
        byte
    } else {
        DATA_MAX
    }
}

/// A MIDI note number, 0 to 127.
#[derive(Debug, Clone, Copy, PartialEq, Eq, Structural, Hash)]
pub struct NoteNumber(pub u8);

/// The name of a pitch class, 0 for C up to 11 for B.
pub open spec fn pitch_class_name(class: int) -> Seq<char> {
    if class == 0 {
        "C"@
    } else if class == 1 {
        "C#"@
    } else if class == 2 {
        "D"@
    } else if class == 3 {
        "D#"@
    } else if class == 4 {
        "E"@
    } else if class == 5 {
        "F"@
    } else if class == 6 {
        "F#"@
    } else if class == 7 {
        "G"@
    } else if class == 8 {
        "G#"@
    } else if class == 9 {
        "A"@
    } else if class == 10 {
        "A#"@
    } else {
        "B"@
    }
}

/// The decimal numeral of an octave number from -1 to 20.
pub open spec fn octave_numeral(octave: int) -> Seq<char> {
    if octave < 0 {
        "-1"@
    } else if octave == 0 {
        "0"@
    } else if octave == 1 {
        "1"@
    } else if octave == 2 {
        "2"@
    } else if octave == 3 {
        "3"@
    } else if octave == 4 {
        "4"@
    } else if octave == 5 {
        "5"@
    } else if octave == 6 {
        "6"@
    } else if octave == 7 {
        "7"@
    } else if octave == 8 {
        "8"@
    } else if octave == 9 {
        "9"@
    } else if octave == 10 {
        "10"@
    } else if octave == 11 {
        "11"@
    } else if octave == 12 {
        "12"@
    } else if octave == 13 {
        "13"@
    } else if octave == 14 {
        "14"@
    } else if octave == 15 {
        "15"@
    } else if octave == 16 {
        "16"@
    } else if octave == 17 {
        "17"@
    } else if octave == 18 {
        "18"@
    } else if octave == 19 {
        "19"@
    } else {
        "20"@
    }
}

fn pitch_class_str(class: u8) -> (r: &'static str)
    requires
        class < 12,
    ensures
        r@ == pitch_class_name(class as int),
{
    if class == 0 {
        "C"
    } else if class == 1 {
        "C#"
    } else if class == 2 {
        "D"
    } else if class == 3 {
        "D#"
    } else if class == 4 {
        "E"
    } else if class == 5 {
        "F"
    } else if class == 6 {
        "F#"
    } else if class == 7 {
        "G"
    } else if class == 8 {
        "G#"
    } else if class == 9 {
        "A"
    } else if class == 10 {
        "A#"
    } else {
        "B"
    }
}

fn octave_str(octaves: u8) -> (r: &'static str)
    requires
        octaves <= 21,
    ensures
        r@ == octave_numeral(octaves - 1),
{
    if octaves == 0 {
        "-1"
    } else if octaves == 1 {
        "0"
    } else if octaves == 2 {
        "1"
    } else if octaves == 3 {
        "2"
    } else if octaves == 4 {
        "3"
    } else if octaves == 5 {
        "4"
    } else if octaves == 6 {
        "5"
    } else if octaves == 7 {
        "6"
    } else if octaves == 8 {
        "7"
    } else if octaves == 9 {
        "8"
    } else if octaves == 10 {
        "9"
    } else if octaves == 11 {
        "10"
    } else if octaves == 12 {
        "11"
    } else if octaves == 13 {
        "12"
    } else if octaves == 14 {
        "13"
    } else if octaves == 15 {
        "14"
    } else if octaves == 16 {
        "15"
    } else if octaves == 17 {
        "16"
    } else if octaves == 18 {
        "17"
    } else if octaves == 19 {
        "18"
    } else if octaves == 20 {
        "19"
    } else {
        "20"
    }
}

impl NoteNumber {
    /// Middle C, the C of octave 4.
    pub fn middle_c() -> (r: Self)
        ensures
            r.0 == 60,
    {
        NoteNumber(60)
    }

    /// The note `note`, or note 127 for a larger number.
    pub fn new(note: u8) -> (r: Self)
        ensures
            r.0 == data7(note),
    {
        NoteNumber(clamp7(note))
    }

    /// The note's name: its pitch class, then its octave, where note 60 is
    /// `C4` and note 0 is `C-1`.
    pub fn name(&self) -> (r: String)
        ensures
            r@ == pitch_class_name((self.0 % 12) as int) + octave_numeral(self.0 / 12 - 1),
    {
        let class: u8 = self.0 % 12;
        let octaves: u8 = self.0 / 12;
        let start = String::from_str(pitch_class_str(class));
        start.concat(octave_str(octaves))
    }
}

/// A MIDI velocity, 0 to 127.
#[derive(Debug, Clone, Copy, PartialEq, Eq, Structural, Hash)]
pub struct Velocity(pub u8);

impl Velocity {
    pub fn off() -> (r: Self)
        ensures
            r.0 == 0,
    {
        Velocity(0)
    }

    pub fn pianissimo() -> (r: Self)
        ensures
            r.0 == 32,
    {
        Velocity(32)
    }

    pub fn piano() -> (r: Self)
        ensures
            r.0 == 48,
    {
        Velocity(48)
    }

    pub fn mezzo_piano() -> (r: Self)
        ensures
            r.0 == 64,
    {
        Velocity(64)
    }

    pub fn mezzo_forte() -> (r: Self)
        ensures
            r.0 == 80,
    {
        Velocity(80)
    }

    pub fn forte() -> (r: Self)
        ensures
            r.0 == 96,
    {
        Velocity(96)
    }

    pub fn fortissimo() -> (r: Self)
        ensures
            r.0 == 112,
    {
        Velocity(112)
    }

    pub fn max() -> (r: Self)
        ensures
            r.0 == 127,
    {
        Velocity(127)
    }

    /// The velocity `velocity`, or 127 for a larger number.
    pub fn new(velocity: u8) -> (r: Self)
        ensures
            r.0 == data7(velocity),
    {
        Velocity(clamp7(velocity))
    }
}

impl Default for Velocity {
    fn default() -> (r: Self)
        ensures
            r.0 == 80,
    {
        Velocity(80)
    }
}

/// The number of a MIDI controller, 0 to 127.
#[derive(Debug, Clone, Copy, PartialEq, Eq, Structural, Hash)]
pub struct ControlNumber(pub u8);

impl ControlNumber {
    pub fn modulation() -> (r: Self)
        ensures
            r.0 == 1,
    {
        ControlNumber(1)
    }

    pub fn breath() -> (r: Self)
        ensures
            r.0 == 2,
    {
        ControlNumber(2)
    }

    pub fn volume() -> (r: Self)
        ensures
            r.0 == 7,
    {
        ControlNumber(7)
    }

    pub fn pan() -> (r: Self)
        ensures
            r.0 == 10,
    {
        ControlNumber(10)
    }

    pub fn expression() -> (r: Self)
        ensures
            r.0 == 11,
    {
        ControlNumber(11)
    }

    pub fn sustain() -> (r: Self)
        ensures
            r.0 == 64,
    {
        ControlNumber(64)
    }

    pub fn all_notes_off() -> (r: Self)
        ensures
            r.0 == 123,
    {
        ControlNumber(123)
    }

    /// The controller `cc`, or controller 127 for a larger number.
    pub fn new(cc: u8) -> (r: Self)
        ensures
            r.0 == data7(cc),
    {
        ControlNumber(clamp7(cc))
    }
}

/// A MIDI channel message.
#[derive(Debug, Clone, Copy, PartialEq, Eq, Structural)]
#[allow(inconsistent_fields)]
pub enum MidiMessage {
    /// A key was pressed.
    NoteOn { channel: MidiChannel, note: NoteNumber, velocity: Velocity },
    /// A key was released.
    NoteOff { channel: MidiChannel, note: NoteNumber, velocity: Velocity },
    /// A controller moved.
    ControlChange { channel: MidiChannel, control: ControlNumber, value: u8 },
    /// Another program was selected.
    ProgramChange { channel: MidiChannel, program: u8 },
    /// The pitch wheel moved: -8192 to 8191, 0 at rest.
    PitchBend { channel: MidiChannel, value: i16 },
    /// Pressure on the whole channel.
    ChannelPressure { channel: MidiChannel, pressure: u8 },
    /// Pressure on one key.
    PolyPressure { channel: MidiChannel, note: NoteNumber, pressure: u8 },
}

/// Status kinds: the upper four bits of a status byte.
pub const KIND_NOTE_OFF: u8 = 0x8;

pub const KIND_NOTE_ON: u8 = 0x9;

pub const KIND_POLY_PRESSURE: u8 = 0xA;

pub const KIND_CONTROL_CHANGE: u8 = 0xB;

pub const KIND_PROGRAM_CHANGE: u8 = 0xC;

pub const KIND_CHANNEL_PRESSURE: u8 = 0xD;

pub const KIND_PITCH_BEND: u8 = 0xE;

/// The pitch wheel position that two data bytes carry: the lower seven bits
/// of `msb` above the lower seven bits of `lsb`, less the rest position.
pub open spec fn bend_value(lsb: u8, msb: u8) -> int {
    (msb % 128) * 128 + (lsb % 128) - 8192
}

impl MidiMessage {
    /// The channel that the message is sent on.
    pub open spec fn spec_channel(self) -> MidiChannel {
        match self {
            MidiMessage::NoteOn { channel, .. } => channel,
            MidiMessage::NoteOff { channel, .. } => channel,
            MidiMessage::ControlChange { channel, .. } => channel,
            MidiMessage::ProgramChange { channel, .. } => channel,
            MidiMessage::PitchBend { channel, .. } => channel,
            MidiMessage::ChannelPressure { channel, .. } => channel,
            MidiMessage::PolyPressure { channel, .. } => channel,
        }
    }

    /// The message that a status byte and the data bytes behind it encode,
    /// if they encode one. The status byte holds the kind in its upper four
    /// bits and the channel in its lower four. A note-on with velocity 0 is
    /// a note-off. Bytes after those that the kind needs are ignored.
    pub open spec fn decode(data: Seq<u8>) -> Option<MidiMessage> {
        if data.len() == 0 {
            None
        } else {
            let kind = data[0] / 16;
            let channel = MidiChannel((data[0] % 16) as u8);
            if kind == KIND_NOTE_ON && data.len() >= 3 {
                let note = NoteNumber(data7(data[1]));
                let velocity = Velocity(data7(data[2]));
                if data[2] == 0 {
                    Some(MidiMessage::NoteOff { channel, note, velocity })
                } else {
                    Some(MidiMessage::NoteOn { channel, note, velocity })
                }
            } else if kind == KIND_NOTE_OFF && data.len() >= 3 {
                Some(
                    MidiMessage::NoteOff {
                        channel,
                        note: NoteNumber(data7(data[1])),
                        velocity: Velocity(data7(data[2])),
                    },
                )
            } else if kind == KIND_CONTROL_CHANGE && data.len() >= 3 {
                Some(
                    MidiMessage::ControlChange {
                        channel,
                        control: ControlNumber(data7(data[1])),
                        value: data[2],
                    },
                )
            } else if kind == KIND_PROGRAM_CHANGE && data.len() >= 2 {
                Some(MidiMessage::ProgramChange { channel, program: data[1] })
            } else if kind == KIND_PITCH_BEND && data.len() >= 3 {
                Some(MidiMessage::PitchBend { channel, value: bend_value(data[1], data[2]) as i16 })
            } else if kind == KIND_CHANNEL_PRESSURE && data.len() >= 2 {
                Some(MidiMessage::ChannelPressure { channel, pressure: data[1] })
            } else if kind == KIND_POLY_PRESSURE && data.len() >= 3 {
                Some(
                    MidiMessage::PolyPressure {
                        channel,
                        note: NoteNumber(data7(data[1])),
                        pressure: data[2],
                    },
                )
            } else {
                None
            }
        }
    }

    /// The channel that the message is sent on.
    pub fn channel(&self) -> (r: MidiChannel)
        ensures
            r == self.spec_channel(),
    {
        match self {
            MidiMessage::NoteOn { channel, .. } => *channel,
            MidiMessage::NoteOff { channel, .. } => *channel,
            MidiMessage::ControlChange { channel, .. } => *channel,
            MidiMessage::ProgramChange { channel, .. } => *channel,
            MidiMessage::PitchBend { channel, .. } => *channel,
            MidiMessage::ChannelPressure { channel, .. } => *channel,
            MidiMessage::PolyPressure { channel, .. } => *channel,
        }
    }

    /// Decode a message from raw MIDI bytes.
    pub fn from_bytes(data: &[u8]) -> (r: Option<Self>)
        ensures
            r == MidiMessage::decode(data@),
            r matches Some(MidiMessage::PitchBend { value, .. }) ==> -8192 <= value <= 8191,
    {
        if data.len() == 0 {
            return None;
        }
        let status: u8 = data[0];
        let low: u8 = status & 0x0F;
        let kind: u8 = status >> 4;
        assert(low == status % 16 && kind == status / 16) by (bit_vector)
            requires
                low == status & 0x0F,
                kind == status >> 4,
        ;
        let channel = MidiChannel::new(low);
        if kind == KIND_NOTE_ON && data.len() >= 3 {
            let note = NoteNumber::new(data[1]);
            let velocity = Velocity::new(data[2]);
            if velocity.0 == 0 {
                Some(MidiMessage::NoteOff { channel, note, velocity })
            } else {
                Some(MidiMessage::NoteOn { channel, note, velocity })
            }
        } else if kind == KIND_NOTE_OFF && data.len() >= 3 {
            Some(
                MidiMessage::NoteOff {
                    channel,
                    note: NoteNumber::new(data[1]),
                    velocity: Velocity::new(data[2]),
                },
            )
        } else if kind == KIND_CONTROL_CHANGE && data.len() >= 3 {
            Some(
                MidiMessage::ControlChange {
                    channel,
                    control: ControlNumber::new(data[1]),
                    value: data[2],
                },
            )
        } else if kind == KIND_PROGRAM_CHANGE && data.len() >= 2 {
            Some(MidiMessage::ProgramChange { channel, program: data[1] })
        } else if kind == KIND_PITCH_BEND && data.len() >= 3 {
            let lsb: u8 = data[1];
            let msb: u8 = data[2];
            let low7: u16 = (lsb & 0x7F) as u16;
            let high7: u16 = (msb & 0x7F) as u16;
            let wheel: u16 = (high7 << 7) | low7;
            assert(wheel == (msb % 128) * 128 + (lsb % 128) && wheel <= 16383) by (bit_vector)
                requires
                    low7 == (lsb & 0x7F) as u16,
                    high7 == (msb & 0x7F) as u16,
                    wheel == (high7 << 7) | low7,
            ;
            let value: i16 = wheel as i16 - 8192;
            Some(MidiMessage::PitchBend { channel, value })
        } else if kind == KIND_CHANNEL_PRESSURE && data.len() >= 2 {
            Some(MidiMessage::ChannelPressure { channel, pressure: data[1] })
        } else if kind == KIND_POLY_PRESSURE && data.len() >= 3 {
            Some(
                MidiMessage::PolyPressure {
                    channel,
                    note: NoteNumber::new(data[1]),
                    pressure: data[2],
                },
            )
        } else {
            None
        }
    }

    /// A note-on status byte with velocity 0 decodes to a note-off, on every
    /// channel and for every note.
    pub proof fn lemma_silent_note_on_is_note_off(data: Seq<u8>)
        requires
            data.len() >= 3,
            data[0] / 16 == KIND_NOTE_ON,
            data[2] == 0,
        ensures
            MidiMessage::decode(data) == Some(
                MidiMessage::NoteOff {
                    channel: MidiChannel((data[0] % 16) as u8),
                    note: NoteNumber(data7(data[1])),
                    velocity: Velocity(0),
                },
            ),
    {
    }

    /// A note-on status byte decodes to a note-on exactly if its velocity
    /// byte is not 0.
    pub proof fn lemma_note_on_needs_velocity(data: Seq<u8>)
        requires
            data.len() >= 3,
            data[0] / 16 == KIND_NOTE_ON,
        ensures
            MidiMessage::decode(data) is Some,
            (MidiMessage::decode(data)->Some_0 is NoteOn) <==> data[2] != 0,
    {
    }
}

/// A MIDI message with its place in the current buffer.
#[derive(Debug, Clone, Copy, PartialEq, Eq, Structural)]
pub struct MidiEvent {
    /// Offset in samples from the start of the buffer.
    pub sample_offset: usize,
    /// The message.
    pub message: MidiMessage,
}

impl MidiEvent {
    pub fn new(sample_offset: usize, message: MidiMessage) -> (r: Self)
        ensures
            r == (MidiEvent { sample_offset, message }),
    {
        MidiEvent { sample_offset, message }
    }
}

} // verus!
