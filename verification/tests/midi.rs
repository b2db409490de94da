use koto_audio::midi::{ControlNumber, MidiChannel, MidiEvent, MidiMessage, NoteNumber, Velocity};

#[test]
fn channel_note_velocity_and_controller_are_clamped() {
    assert_eq!(MidiChannel::new(3), MidiChannel(3));
    assert_eq!(MidiChannel::new(15), MidiChannel(15));
    assert_eq!(MidiChannel::new(16), MidiChannel(15));
    assert_eq!(MidiChannel::default(), MidiChannel(0));
    assert_eq!(NoteNumber::new(127), NoteNumber(127));
    assert_eq!(NoteNumber::new(128), NoteNumber(127));
    assert_eq!(NoteNumber::middle_c(), NoteNumber(60));
    assert_eq!(Velocity::new(200), Velocity(127));
    assert_eq!(Velocity::new(64), Velocity(64));
    assert_eq!(ControlNumber::new(255), ControlNumber(127));
    assert_eq!(ControlNumber::new(7), ControlNumber::volume());
}

#[test]
fn named_velocities_and_controllers() {
    assert_eq!(Velocity::off(), Velocity(0));
    assert_eq!(Velocity::pianissimo(), Velocity(32));
    assert_eq!(Velocity::piano(), Velocity(48));
    assert_eq!(Velocity::mezzo_piano(), Velocity(64));
    assert_eq!(Velocity::mezzo_forte(), Velocity(80));
    assert_eq!(Velocity::forte(), Velocity(96));
    assert_eq!(Velocity::fortissimo(), Velocity(112));
    assert_eq!(Velocity::max(), Velocity(127));
    assert_eq!(Velocity::default(), Velocity(80));
    assert_eq!(ControlNumber::modulation(), ControlNumber(1));
    assert_eq!(ControlNumber::breath(), ControlNumber(2));
    assert_eq!(ControlNumber::pan(), ControlNumber(10));
    assert_eq!(ControlNumber::expression(), ControlNumber(11));
    assert_eq!(ControlNumber::sustain(), ControlNumber(64));
    assert_eq!(ControlNumber::all_notes_off(), ControlNumber(123));
}

#[test]
fn note_names() {
    assert_eq!(NoteNumber(60).name(), "C4");
    assert_eq!(NoteNumber(69).name(), "A4");
    assert_eq!(NoteNumber(58).name(), "A#3");
    assert_eq!(NoteNumber(0).name(), "C-1");
    assert_eq!(NoteNumber(11).name(), "B-1");
    assert_eq!(NoteNumber(12).name(), "C0");
    assert_eq!(NoteNumber(127).name(), "G9");
    assert_eq!(NoteNumber(255).name(), "D#20");
    let classes = ["C", "C#", "D", "D#", "E", "F", "F#", "G", "G#", "A", "A#", "B"];
    for n in 0..=255u8 {
        let expected = format!("{}{}", classes[(n % 12) as usize], (n / 12) as i32 - 1);
        assert_eq!(NoteNumber(n).name(), expected);
    }
}

#[test]
fn note_on_with_velocity_zero_is_note_off_on_every_channel_for_every_note() {
    for channel in 0..16u8 {
        for note in 0..128u8 {
            let message = MidiMessage::from_bytes(&[0x90 | channel, note, 0]);
            assert_eq!(
                message,
                Some(MidiMessage::NoteOff {
                    channel: MidiChannel(channel),
                    note: NoteNumber(note),
                    velocity: Velocity(0),
                })
            );
        }
    }
}

#[test]
fn note_on_with_velocity_is_note_on() {
    for velocity in 1..128u8 {
        let message = MidiMessage::from_bytes(&[0x93, 60, velocity]);
        assert_eq!(
            message,
            Some(MidiMessage::NoteOn {
                channel: MidiChannel(3),
                note: NoteNumber(60),
                velocity: Velocity(velocity),
            })
        );
    }
}

#[test]
fn each_kind_of_message_is_decoded() {
    assert_eq!(
        MidiMessage::from_bytes(&[0x81, 64, 10]),
        Some(MidiMessage::NoteOff { channel: MidiChannel(1), note: NoteNumber(64), velocity: Velocity(10) })
    );
    assert_eq!(
        MidiMessage::from_bytes(&[0xB2, 7, 100]),
        Some(MidiMessage::ControlChange { channel: MidiChannel(2), control: ControlNumber(7), value: 100 })
    );
    assert_eq!(
        MidiMessage::from_bytes(&[0xC5, 12]),
        Some(MidiMessage::ProgramChange { channel: MidiChannel(5), program: 12 })
    );
    assert_eq!(
        MidiMessage::from_bytes(&[0xDF, 99]),
        Some(MidiMessage::ChannelPressure { channel: MidiChannel(15), pressure: 99 })
    );
    assert_eq!(
        MidiMessage::from_bytes(&[0xA0, 61, 33]),
        Some(MidiMessage::PolyPressure { channel: MidiChannel(0), note: NoteNumber(61), pressure: 33 })
    );
}

#[test]
fn pitch_bend_is_centred_at_zero() {
    let bend = |lsb: u8, msb: u8| MidiMessage::from_bytes(&[0xE0, lsb, msb]);
    assert_eq!(bend(0, 64), Some(MidiMessage::PitchBend { channel: MidiChannel(0), value: 0 }));
    assert_eq!(bend(0, 0), Some(MidiMessage::PitchBend { channel: MidiChannel(0), value: -8192 }));
    assert_eq!(bend(127, 127), Some(MidiMessage::PitchBend { channel: MidiChannel(0), value: 8191 }));
    assert_eq!(bend(1, 64), Some(MidiMessage::PitchBend { channel: MidiChannel(0), value: 1 }));
    assert_eq!(bend(127, 63), Some(MidiMessage::PitchBend { channel: MidiChannel(0), value: -1 }));
}

#[test]
fn pitch_bend_stays_in_range_for_every_pair_of_bytes() {
    for lsb in 0..=255u8 {
        for msb in 0..=255u8 {
            match MidiMessage::from_bytes(&[0xE7, lsb, msb]) {
                Some(MidiMessage::PitchBend { channel, value }) => {
                    assert_eq!(channel, MidiChannel(7));
                    assert!((-8192..=8191).contains(&value));
                    if lsb < 128 && msb < 128 {
                        assert_eq!(value as i32, ((msb as i32) << 7 | lsb as i32) - 8192);
                    }
                }
                other => panic!("not a pitch bend: {:?}", other),
            }
        }
    }
}

#[test]
fn data_bytes_out_of_range_are_clamped() {
    assert_eq!(
        MidiMessage::from_bytes(&[0x90, 200, 255]),
        Some(MidiMessage::NoteOn { channel: MidiChannel(0), note: NoteNumber(127), velocity: Velocity(127) })
    );
}

#[test]
fn too_few_bytes_decode_to_nothing() {
    assert_eq!(MidiMessage::from_bytes(&[]), None);
    for status in [0x80u8, 0x90, 0xA0, 0xB0, 0xE0] {
        assert_eq!(MidiMessage::from_bytes(&[status]), None);
        assert_eq!(MidiMessage::from_bytes(&[status, 1]), None);
    }
    assert_eq!(MidiMessage::from_bytes(&[0xC0]), None);
    assert_eq!(MidiMessage::from_bytes(&[0xD0]), None);
}

#[test]
fn other_status_bytes_decode_to_nothing() {
    for status in 0..0x80u8 {
        assert_eq!(MidiMessage::from_bytes(&[status, 1, 2]), None);
    }
    for status in 0xF0..=0xFFu8 {
        assert_eq!(MidiMessage::from_bytes(&[status, 1, 2]), None);
    }
}

#[test]
fn bytes_behind_the_message_are_ignored() {
    assert_eq!(
        MidiMessage::from_bytes(&[0xC1, 5, 6, 7]),
        Some(MidiMessage::ProgramChange { channel: MidiChannel(1), program: 5 })
    );
}

#[test]
fn every_message_knows_its_channel() {
    let channel = MidiChannel(9);
    let note = NoteNumber(60);
    let messages = [
        MidiMessage::NoteOn { channel, note, velocity: Velocity(1) },
        MidiMessage::NoteOff { channel, note, velocity: Velocity(0) },
        MidiMessage::ControlChange { channel, control: ControlNumber(1), value: 2 },
        MidiMessage::ProgramChange { channel, program: 3 },
        MidiMessage::PitchBend { channel, value: -4 },
        MidiMessage::ChannelPressure { channel, pressure: 5 },
        MidiMessage::PolyPressure { channel, note, pressure: 6 },
    ];
    for message in messages {
        assert_eq!(message.channel(), channel);
    }
}

#[test]
fn an_event_is_a_message_at_an_offset() {
    let message = MidiMessage::ProgramChange { channel: MidiChannel(0), program: 1 };
    let event = MidiEvent::new(17, message);
    assert_eq!(event.sample_offset, 17);
    assert_eq!(event.message, message);
}
