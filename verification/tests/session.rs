use koto_audio::audio::{ChannelCount, SampleRate};
use koto_audio::device::{AudioDeviceInfo, DeviceError};
use koto_audio::error::KotoError;
use koto_audio::project::{Project, ProjectMetadata};
use koto_audio::time::{SamplePosition, Tempo, TimeSignature};
use koto_audio::transport::Transport;
use koto_audio::views::{MixerView, TransportView};

#[test]
fn device_errors_in_words() {
    assert_eq!(DeviceError::NoHost.message(), "No audio host available");
    assert_eq!(DeviceError::NoOutputDevice.message(), "No output device available");
    assert_eq!(DeviceError::NoInputDevice.message(), "No input device available");
    assert_eq!(
        DeviceError::ConfigError(String::from("busy")).message(),
        "Failed to get device config: busy"
    );
    assert_eq!(DeviceError::StreamError(String::from("lost")).message(), "Stream error: lost");
}

#[test]
fn a_device_error_becomes_an_audio_device_error() {
    let error = KotoError::from(DeviceError::ConfigError(String::from("busy")));
    match &error {
        KotoError::AudioDevice(cause) => assert_eq!(cause, "Failed to get device config: busy"),
        other => panic!("not an audio device error: {:?}", other),
    }
    assert_eq!(error.message(), "Audio device error: Failed to get device config: busy");
}

#[test]
fn errors_in_words() {
    assert_eq!(KotoError::AudioStream(String::from("x")).message(), "Audio stream error: x");
    assert_eq!(KotoError::MidiDevice(String::from("y")).message(), "MIDI device error: y");
    assert_eq!(KotoError::Plugin(String::from("z")).message(), "Plugin error: z");
    assert_eq!(KotoError::Project(String::from("w")).message(), "Project error: w");
    assert_eq!(KotoError::InvalidSampleRate(44100).message(), "Invalid sample rate: 44100");
    assert_eq!(KotoError::InvalidSampleRate(0).message(), "Invalid sample rate: 0");
    assert_eq!(KotoError::InvalidSampleRate(u32::MAX).message(), "Invalid sample rate: 4294967295");
    assert_eq!(KotoError::InvalidBufferSize(7).message(), "Invalid buffer size: 7");
    assert_eq!(KotoError::InvalidBufferSize(1024).message(), "Invalid buffer size: 1024");
}

#[test]
fn a_file_error_keeps_its_cause() {
    let cause = std::io::Error::new(std::io::ErrorKind::NotFound, "no such project");
    let error = KotoError::from(cause);
    assert!(matches!(error, KotoError::FileIo(_)));
    let message = error.message();
    assert!(message.starts_with("File I/O error: "));
    assert!(message.ends_with("no such project"));
}

#[test]
fn what_a_device_says_of_itself() {
    let info = AudioDeviceInfo {
        name: String::from("Speakers"),
        sample_rate: SampleRate(48000),
        channels: ChannelCount(2),
        is_input: false,
        is_output: true,
    };
    let copy = info.clone();
    assert_eq!(copy.name, "Speakers");
    assert_eq!(copy.sample_rate, SampleRate(48000));
    assert!(copy.is_output && !copy.is_input);
}

#[test]
fn the_transport_controls() {
    let mut transport = Transport::new(SampleRate(44100));
    assert_eq!(transport, Transport { sample_rate: SampleRate(44100), ..Transport::default() });
    assert_eq!(Transport::default().sample_rate, SampleRate(48000));
    assert!(!transport.is_playing);
    transport.play();
    assert!(transport.is_playing);
    transport.pause();
    assert!(!transport.is_playing);
    transport.play();
    transport.stop();
    assert!(!transport.is_playing);
    transport.seek(SamplePosition(99));
    assert_eq!(transport.playhead, SamplePosition(99));
    transport.rewind();
    assert_eq!(transport.playhead, SamplePosition(0));
    transport.set_tempo(Tempo::new(80.0f64.to_bits()));
    assert_eq!(f64::from_bits(transport.tempo.bpm()), 80.0);
    transport.set_time_signature(TimeSignature::waltz_time());
    assert_eq!(transport.time_signature, TimeSignature::waltz_time());
    transport.start_recording();
    assert!(transport.is_recording);
    transport.stop_recording();
    assert!(!transport.is_recording);
}

#[test]
fn a_new_project_is_empty_and_has_no_file() {
    let project = Project::new("Song");
    assert_eq!(project.metadata.name, "Song");
    assert_eq!(project.metadata.author, "");
    assert_eq!(project.sample_rate, SampleRate(48000));
    assert_eq!(f64::from_bits(project.tempo.bpm()), 120.0);
    assert_eq!(project.time_signature, TimeSignature::common_time());
    assert!(project.timeline.tracks.is_empty());
    assert!(project.path.is_none());
    assert!(!project.modified);
    assert_eq!(Project::default().metadata.name, "Untitled");
    assert_eq!(ProjectMetadata::default().name, "Untitled");
    assert_eq!(ProjectMetadata::default().created, "");
}

#[test]
fn a_saved_project_knows_its_file() {
    let mut project = Project::new("Song");
    project.modified = true;
    project.settle(std::path::PathBuf::from("song.koto"));
    assert_eq!(project.path, Some(std::path::PathBuf::from("song.koto")));
    assert!(!project.modified);
    assert_eq!(project.metadata.name, "Song");
}

#[test]
fn views_start_as_they_are_first_seen() {
    assert!(MixerView::new().visible);
    assert_eq!(MixerView::default(), MixerView::new());
    assert_eq!(TransportView::new(), TransportView);
    assert_eq!(TransportView::default(), TransportView::new());
}
