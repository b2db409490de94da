use koto_audio::audio::SampleRate;
use koto_audio::metronome::{click_at, samples_per_beat, samples_per_tick, Click, ACCENT_HZ, BEAT_HZ};
use koto_audio::time::{SamplePosition, Tempo, TimeSignature};

fn bpm(value: f64) -> Tempo {
    Tempo::new(value.to_bits())
}

fn at(position: i64) -> Option<Click> {
    click_at(SamplePosition(position), bpm(120.0), SampleRate(48000), TimeSignature::common_time())
}

#[test]
fn one_beat_at_120_bpm_and_48_khz_is_24000_samples() {
    assert_eq!(samples_per_beat(bpm(120.0), SampleRate(48000)), Some(24000));
    assert_eq!(samples_per_beat(bpm(60.0), SampleRate(44100)), Some(44100));
    assert_eq!(samples_per_beat(bpm(999.0), SampleRate(48000)), Some(2882));
    assert_eq!(samples_per_beat(bpm(20.0), SampleRate(96000)), Some(288000));
}

#[test]
fn samples_per_beat_is_the_whole_part_of_the_quotient() {
    for tempo in [20.0f64, 33.3, 90.5, 120.0, 133.333333, 174.0, 999.0] {
        for rate in [1u32, 8000, 44100, 48000, 96000, 192000] {
            let exact = rate as f64 * 60.0 / tempo;
            let got = samples_per_beat(bpm(tempo), SampleRate(rate)).unwrap();
            assert!((got as f64 - exact.floor()).abs() <= 1.0, "{} bpm at {} Hz", tempo, rate);
        }
    }
}

#[test]
fn no_beat_length_without_a_tempo() {
    assert_eq!(samples_per_beat(Tempo(0), SampleRate(48000)), None);
    assert_eq!(samples_per_beat(Tempo(f64::NAN.to_bits()), SampleRate(48000)), None);
    assert_eq!(samples_per_beat(Tempo(1000.0f64.to_bits()), SampleRate(48000)), None);
}

#[test]
fn the_downbeat_clicks_at_880_hz_and_the_next_beat_at_440() {
    let downbeat = at(0).unwrap();
    assert!(downbeat.accent);
    assert_eq!(downbeat.frequency(), 880);
    assert_eq!(downbeat.elapsed, 0);
    let second = at(24000).unwrap();
    assert!(!second.accent);
    assert_eq!(second.frequency(), 440);
    assert_eq!(at(48000).unwrap().frequency(), 440);
    assert_eq!(at(72000).unwrap().frequency(), 440);
    assert_eq!(at(96000).unwrap().frequency(), 880);
    assert_eq!(ACCENT_HZ, 880);
    assert_eq!(BEAT_HZ, 440);
}

#[test]
fn the_click_lasts_a_hundredth_of_a_beat() {
    // 24000 samples to the beat: frames 0 to 239 click.
    for frame in 0..240 {
        let click = at(frame).unwrap();
        assert_eq!(click.elapsed as f64 / click.span as f64, frame as f64 / 24000.0);
    }
    for frame in [240, 241, 1000, 12000, 23999] {
        assert_eq!(at(frame), None);
    }
    assert!(at(24000 + 239).is_some());
    assert!(at(24000 + 240).is_none());
}

#[test]
fn the_clicks_agree_with_the_beat_phase_in_floating_point() {
    for tempo in [20.0f64, 97.0, 120.0, 137.5, 999.0] {
        for rate in [44100u32, 48000] {
            let per_beat = rate as f64 * 60.0 / tempo;
            for position in (0..200000i64).step_by(37) {
                let beat = position as f64 / per_beat;
                let phase = beat.fract();
                // Leave out frames on the edge of the window, where rounding decides.
                if (phase - 0.01).abs() < 1.0e-9 || phase > 1.0 - 1.0e-9 {
                    continue;
                }
                let click = click_at(SamplePosition(position), bpm(tempo), SampleRate(rate), TimeSignature::new(3, 4));
                assert_eq!(click.is_some(), phase < 0.01, "{} bpm, {} Hz, frame {}", tempo, rate, position);
                if let Some(click) = click {
                    assert_eq!(click.accent, (beat as i64) % 3 == 0);
                }
            }
        }
    }
}

#[test]
fn beats_before_the_start_count_downwards() {
    // Beat -1 starts at -24000, beat -4 at -96000.
    assert_eq!(at(-24000).unwrap().frequency(), 440);
    assert_eq!(at(-96000).unwrap().frequency(), 880);
    assert_eq!(at(-96000 + 239).unwrap().frequency(), 880);
    assert_eq!(at(-1), None);
    assert_eq!(at(-96000 + 240), None);
}

#[test]
fn the_ends_of_the_clock_are_handled() {
    for position in [i64::MIN, i64::MIN + 1, i64::MAX - 1, i64::MAX] {
        for tempo in [20.0f64, 999.0] {
            for rate in [1u32, u32::MAX] {
                let click = click_at(SamplePosition(position), bpm(tempo), SampleRate(rate), TimeSignature::common_time());
                if let Some(click) = click {
                    assert!(click.elapsed * 100 < click.span);
                }
            }
        }
    }
}

#[test]
fn no_click_without_a_sample_rate_or_a_tempo() {
    let common = TimeSignature::common_time();
    assert_eq!(click_at(SamplePosition(0), bpm(120.0), SampleRate(0), common), None);
    assert_eq!(click_at(SamplePosition(0), Tempo(f64::NAN.to_bits()), SampleRate(48000), common), None);
    assert_eq!(click_at(SamplePosition(0), Tempo(0), SampleRate(48000), common), None);
}

#[test]
fn no_accent_without_beats_in_the_bar() {
    let none = TimeSignature::new(0, 4);
    let click = click_at(SamplePosition(0), bpm(120.0), SampleRate(48000), none).unwrap();
    assert!(!click.accent);
    assert_eq!(click.frequency(), 440);
}

#[test]
fn a_tick_is_a_960th_of_a_beat() {
    assert_eq!(samples_per_tick(bpm(120.0), SampleRate(48000)), Some(25));
    assert_eq!(samples_per_tick(bpm(60.0), SampleRate(96000)), Some(100));
    assert_eq!(samples_per_tick(bpm(999.0), SampleRate(48000)), Some(3));
    assert_eq!(samples_per_tick(Tempo(0), SampleRate(48000)), None);
    for tempo in [20.0f64, 97.0, 120.0, 999.0] {
        for rate in [8000u32, 44100, 48000, 192000] {
            let exact = rate as f64 * 60.0 / tempo / 960.0;
            let got = samples_per_tick(bpm(tempo), SampleRate(rate)).unwrap();
            assert!((got as f64 - exact.floor()).abs() <= 1.0, "{} bpm at {} Hz", tempo, rate);
        }
    }
}
