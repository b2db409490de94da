use koto_audio::midi::{MidiChannel, MidiEvent, MidiMessage};
use koto_audio::midi_engine::{MidiDeviceInfo, MidiEngine};
use koto_audio::mixer::{Mixer, MixerChannel};
use koto_audio::time::SamplePosition;
use koto_audio::timeline::{Region, RegionId, Timeline, Track, TrackId, TrackType};
use koto_audio::undo::{UndoCommand, UndoHistory};

fn event(offset: usize) -> MidiEvent {
    MidiEvent::new(offset, MidiMessage::ProgramChange { channel: MidiChannel(0), program: offset as u8 })
}

struct Step {
    name: String,
    log: std::sync::Arc<std::sync::Mutex<Vec<String>>>,
}

impl UndoCommand for Step {
    fn execute(&mut self) {
        self.log.lock().unwrap().push(format!("do {}", self.name));
    }

    fn undo(&mut self) {
        self.log.lock().unwrap().push(format!("undo {}", self.name));
    }

    fn description(&self) -> &str {
        &self.name
    }
}

fn step(name: &str, log: &std::sync::Arc<std::sync::Mutex<Vec<String>>>) -> Step {
    Step { name: String::from(name), log: log.clone() }
}

#[test]
fn midi_events_wait_in_order_and_are_drained() {
    let mut engine = MidiEngine::new();
    assert!(!engine.is_recording());
    engine.push_event(event(1));
    engine.push_event(event(2));
    engine.push_event(event(3));
    assert_eq!(engine.drain_events(), vec![event(1), event(2), event(3)]);
    assert!(engine.drain_events().is_empty());
    assert!(MidiEngine::default().drain_events().is_empty());
}

#[test]
fn midi_recording_keeps_what_arrives_while_it_is_on() {
    let mut engine = MidiEngine::new();
    engine.push_event(event(1));
    engine.start_recording();
    assert!(engine.is_recording());
    engine.push_event(event(2));
    engine.push_event(event(3));
    assert_eq!(engine.stop_recording(), vec![event(2), event(3)]);
    assert!(!engine.is_recording());
    engine.push_event(event(4));
    assert!(engine.stop_recording().is_empty());
    assert_eq!(engine.drain_events(), vec![event(1), event(2), event(3), event(4)]);
    engine.start_recording();
    engine.push_event(event(5));
    engine.start_recording();
    assert!(engine.stop_recording().is_empty());
}

#[test]
fn a_midi_port_has_a_name_and_a_number() {
    let info = MidiDeviceInfo { name: String::from("Keys"), port_number: 2 };
    assert_eq!(info.clone().name, "Keys");
    assert_eq!(info.port_number, 2);
}

#[test]
fn a_region_ends_behind_its_length() {
    let region = Region::new(RegionId(3), TrackId(1), SamplePosition(1000), SamplePosition(500));
    assert_eq!(region.id, RegionId(3));
    assert_eq!(region.track_id, TrackId(1));
    assert_eq!(region.name, "");
    assert_eq!(region.color, 0x4A90D9);
    assert_eq!(region.end(), SamplePosition(1500));
}

#[test]
fn a_new_track_is_empty_and_unmuted() {
    let mut track = Track::new(TrackId(4), "Drums", TrackType::Audio);
    assert_eq!(track.id, TrackId(4));
    assert_eq!(track.name, "Drums");
    assert_eq!(track.track_type, TrackType::Audio);
    assert!(track.regions.is_empty());
    assert!(!track.mute && !track.solo && !track.armed);
    assert_eq!(track.height, 80);
    assert_eq!(track.color, 0x4A90D9);
    track.add_region(Region::new(RegionId(0), TrackId(4), SamplePosition(0), SamplePosition(10)));
    track.add_region(Region::new(RegionId(1), TrackId(4), SamplePosition(10), SamplePosition(10)));
    assert_eq!(track.regions.len(), 2);
    assert_eq!(track.regions[1].id, RegionId(1));
}

#[test]
fn tracks_get_rising_ids_and_are_found_by_them() {
    let mut timeline = Timeline::new();
    assert!(timeline.has_free_track_id());
    let a = timeline.add_track("One", TrackType::Audio);
    let b = timeline.add_track("Two", TrackType::Midi);
    let c = timeline.add_track("Three", TrackType::Bus);
    assert_eq!((a, b, c), (TrackId(0), TrackId(1), TrackId(2)));
    assert_eq!(timeline.tracks.len(), 3);
    assert_eq!(timeline.get_track(b).unwrap().name, "Two");
    assert_eq!(timeline.get_track(b).unwrap().track_type, TrackType::Midi);
    assert!(timeline.get_track(TrackId(9)).is_none());
    timeline.get_track_mut(c).unwrap().mute = true;
    assert!(timeline.get_track(c).unwrap().mute);
    assert!(timeline.get_track_mut(TrackId(9)).is_none());
}

#[test]
fn removing_a_track_keeps_the_others_in_order() {
    let mut timeline = Timeline::default();
    let a = timeline.add_track("One", TrackType::Audio);
    let b = timeline.add_track("Two", TrackType::Audio);
    let c = timeline.add_track("Three", TrackType::Audio);
    timeline.remove_track(b);
    let left: Vec<TrackId> = timeline.tracks.iter().map(|t| t.id).collect();
    assert_eq!(left, vec![a, c]);
    timeline.remove_track(b);
    assert_eq!(timeline.tracks.len(), 2);
    assert_eq!(timeline.add_track("Four", TrackType::Master), TrackId(3));
    timeline.remove_track(a);
    timeline.remove_track(c);
    timeline.remove_track(TrackId(3));
    assert!(timeline.tracks.is_empty());
}

#[test]
fn every_track_of_an_id_is_removed_and_the_first_is_found() {
    let mut timeline = Timeline::new();
    timeline.tracks.push(Track::new(TrackId(5), "first", TrackType::Audio));
    timeline.tracks.push(Track::new(TrackId(6), "other", TrackType::Audio));
    timeline.tracks.push(Track::new(TrackId(5), "second", TrackType::Audio));
    assert_eq!(timeline.get_track(TrackId(5)).unwrap().name, "first");
    timeline.remove_track(TrackId(5));
    assert_eq!(timeline.tracks.len(), 1);
    assert_eq!(timeline.tracks[0].name, "other");
}

#[test]
fn region_ids_rise() {
    let mut timeline = Timeline::new();
    assert!(timeline.has_free_region_id());
    assert_eq!(timeline.new_region_id(), RegionId(0));
    assert_eq!(timeline.new_region_id(), RegionId(1));
    assert_eq!(timeline.new_region_id(), RegionId(2));
}

#[test]
fn a_mixer_channel_starts_at_full_volume_in_the_centre() {
    let channel = MixerChannel::new("Bass");
    assert_eq!(channel.name, "Bass");
    assert_eq!(f32::from_bits(channel.volume), 1.0);
    assert_eq!(f32::from_bits(channel.pan), 0.0);
    assert!(!channel.mute && !channel.solo);
    assert_eq!(MixerChannel::default().name, "Channel");
}

#[test]
fn mixer_channels_are_added_found_and_removed_by_place() {
    let mut mixer = Mixer::new();
    assert_eq!(f32::from_bits(mixer.master_volume), 1.0);
    assert_eq!(mixer.add_channel(MixerChannel::new("a")), 0);
    assert_eq!(mixer.add_channel(MixerChannel::new("b")), 1);
    assert_eq!(mixer.add_channel(MixerChannel::new("c")), 2);
    assert_eq!(mixer.get_channel(1).unwrap().name, "b");
    assert!(mixer.get_channel(3).is_none());
    mixer.get_channel_mut(2).unwrap().mute = true;
    mixer.remove_channel(1);
    assert_eq!(mixer.channels.len(), 2);
    assert_eq!(mixer.get_channel(1).unwrap().name, "c");
    assert!(mixer.get_channel(1).unwrap().mute);
    mixer.remove_channel(5);
    assert_eq!(mixer.channels.len(), 2);
    assert!(mixer.get_channel_mut(2).is_none());
    assert!(Mixer::default().channels.is_empty());
}

#[test]
fn undo_and_redo_walk_the_history() {
    let log = std::sync::Arc::new(std::sync::Mutex::new(Vec::new()));
    let mut history: UndoHistory<Step> = UndoHistory::new(10);
    assert!(!history.can_undo());
    assert!(!history.can_redo());
    assert_eq!(history.undo(), None);
    assert_eq!(history.redo(), None);
    history.execute(step("cut", &log));
    history.execute(step("paste", &log));
    assert!(history.can_undo());
    assert_eq!(history.undo_description(), Some("paste"));
    assert_eq!(history.redo_description(), None);
    assert_eq!(history.undo(), Some(String::from("paste")));
    assert_eq!(history.undo_description(), Some("cut"));
    assert_eq!(history.redo_description(), Some("paste"));
    assert_eq!(history.undo(), Some(String::from("cut")));
    assert_eq!(history.undo(), None);
    assert_eq!(history.redo(), Some(String::from("cut")));
    assert_eq!(history.redo(), Some(String::from("paste")));
    assert_eq!(history.redo(), None);
    assert_eq!(
        *log.lock().unwrap(),
        vec!["do cut", "do paste", "undo paste", "undo cut", "do cut", "do paste"]
    );
}

#[test]
fn executing_forgets_what_could_be_redone() {
    let log = std::sync::Arc::new(std::sync::Mutex::new(Vec::new()));
    let mut history: UndoHistory<Step> = UndoHistory::default();
    history.execute(step("a", &log));
    history.execute(step("b", &log));
    history.undo();
    assert!(history.can_redo());
    history.execute(step("c", &log));
    assert!(!history.can_redo());
    assert_eq!(history.undo(), Some(String::from("c")));
    assert_eq!(history.undo(), Some(String::from("a")));
    history.clear();
    assert!(!history.can_undo());
    assert!(!history.can_redo());
}

#[test]
fn the_history_keeps_the_latest_commands_up_to_its_limit() {
    let log = std::sync::Arc::new(std::sync::Mutex::new(Vec::new()));
    let mut history: UndoHistory<Step> = UndoHistory::new(2);
    history.execute(step("a", &log));
    history.execute(step("b", &log));
    history.execute(step("c", &log));
    assert_eq!(history.undo(), Some(String::from("c")));
    assert_eq!(history.undo(), Some(String::from("b")));
    assert_eq!(history.undo(), None);
    let mut none: UndoHistory<Step> = UndoHistory::new(0);
    none.execute(step("x", &log));
    assert!(!none.can_undo());
}

#[test]
fn a_history_of_boxed_commands_of_any_kind() {
    let log = std::sync::Arc::new(std::sync::Mutex::new(Vec::new()));
    let mut history: UndoHistory<Box<dyn UndoCommand>> = UndoHistory::new(4);
    history.execute(Box::new(step("split", &log)));
    assert_eq!(history.undo_description(), Some("split"));
    assert_eq!(history.undo(), Some(String::from("split")));
    assert_eq!(*log.lock().unwrap(), vec!["do split", "undo split"]);
}

#[test]
fn a_timeline_is_taken_up_where_it_was_left() {
    let mut first = Timeline::new();
    let a = first.add_track("One", TrackType::Audio);
    let b = first.add_track("Two", TrackType::Midi);
    first.remove_track(a);
    let region = first.new_region_id();
    first.get_track_mut(b).unwrap().add_region(Region::new(region, b, SamplePosition(0), SamplePosition(10)));
    assert_eq!(first.next_track_id(), 2);
    assert_eq!(first.next_region_id(), 1);
    let mut again = Timeline::from_parts(first.tracks.clone(), first.next_track_id(), first.next_region_id());
    assert_eq!(again.tracks.len(), 1);
    assert_eq!(again.get_track(b).unwrap().regions[0].track_id, b);
    assert_eq!(again.add_track("Three", TrackType::Bus), TrackId(2));
    assert_eq!(again.new_region_id(), RegionId(1));
}
