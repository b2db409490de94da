use koto_audio::time::{
    MusicalTime, SamplePosition, Tempo, TimeSignature, BPM_DEFAULT, BPM_MAX, BPM_MIN, TICKS_PER_QUARTER_NOTE,
};

#[test]
fn ticks_per_quarter_note_is_960() {
    assert_eq!(TICKS_PER_QUARTER_NOTE, 960);
}

#[test]
fn advance_moves_forward() {
    let mut p = SamplePosition(100);
    p.advance(28);
    assert_eq!(p, SamplePosition(128));
    let mut q = SamplePosition(-5);
    q.advance(5);
    assert_eq!(q, SamplePosition::zero());
}

#[test]
fn positions_add_and_subtract() {
    assert_eq!(SamplePosition(40) + SamplePosition(2), SamplePosition(42));
    assert_eq!(SamplePosition(40) - SamplePosition(42), SamplePosition(-2));
    assert_eq!(SamplePosition::default(), SamplePosition(0));
    assert!(SamplePosition(1) < SamplePosition(2));
}

#[test]
fn to_ticks_counts_bars_beats_and_ticks() {
    assert_eq!(MusicalTime::new(1, 1, 0).to_ticks(4), 0);
    assert_eq!(MusicalTime::new(1, 2, 0).to_ticks(4), 960);
    assert_eq!(MusicalTime::new(2, 1, 0).to_ticks(4), 3840);
    assert_eq!(MusicalTime::new(3, 2, 5).to_ticks(3), 2 * 3 * 960 + 960 + 5);
}

#[test]
fn from_ticks_names_the_place() {
    assert_eq!(MusicalTime::from_ticks(0, 4), MusicalTime::new(1, 1, 0));
    assert_eq!(MusicalTime::from_ticks(959, 4), MusicalTime::new(1, 1, 959));
    assert_eq!(MusicalTime::from_ticks(960, 4), MusicalTime::new(1, 2, 0));
    assert_eq!(MusicalTime::from_ticks(3840, 4), MusicalTime::new(2, 1, 0));
    assert_eq!(MusicalTime::from_ticks(6725, 3), MusicalTime::new(3, 2, 5));
}

#[test]
fn musical_time_round_trips_through_ticks() {
    for beats_per_bar in 1..=7 {
        for bar in [1, 2, 3, 17, 1000] {
            for beat in 1..=beats_per_bar {
                for tick in [0, 1, 479, 480, 958, 959] {
                    let time = MusicalTime::new(bar, beat, tick);
                    let ticks = time.to_ticks(beats_per_bar);
                    assert_eq!(MusicalTime::from_ticks(ticks, beats_per_bar), time);
                }
            }
        }
    }
}

#[test]
fn time_signatures() {
    assert_eq!(TimeSignature::common_time(), TimeSignature::new(4, 4));
    assert_eq!(TimeSignature::waltz_time(), TimeSignature::new(3, 4));
    assert_eq!(TimeSignature::default(), TimeSignature::common_time());
    assert_eq!(TimeSignature::new(7, 8).beats_per_bar(), 7);
}

#[test]
fn tempo_constants_encode_20_999_and_120() {
    assert_eq!(BPM_MIN, 20.0f64.to_bits());
    assert_eq!(BPM_MAX, 999.0f64.to_bits());
    assert_eq!(BPM_DEFAULT, 120.0f64.to_bits());
    assert_eq!(f64::from_bits(Tempo::default().bpm()), 120.0);
}

#[test]
fn tempo_is_clamped_as_the_number_it_encodes() {
    let values = [
        0.0f64,
        -0.0,
        1.0,
        19.999999,
        20.0,
        20.000001,
        120.0,
        133.333333,
        998.9999,
        999.0,
        999.0001,
        1.0e9,
        -35.0,
        -1.0e300,
        f64::INFINITY,
        f64::NEG_INFINITY,
        f64::MIN_POSITIVE,
        5.0e-324,
    ];
    for v in values {
        let tempo = Tempo::new(v.to_bits());
        assert_eq!(tempo.bpm(), v.clamp(20.0, 999.0).to_bits(), "for {}", v);
    }
}

#[test]
fn tempo_keeps_a_nan() {
    let tempo = Tempo::new(f64::NAN.to_bits());
    assert!(f64::from_bits(tempo.bpm()).is_nan());
    assert_eq!(tempo.bpm(), f64::NAN.to_bits());
}

#[test]
fn ticks_before_the_start_are_counted_back() {
    assert_eq!(MusicalTime::from_ticks(-1, 4), MusicalTime::new(1, 1, -1));
    assert_eq!(MusicalTime::from_ticks(-960, 4), MusicalTime::new(1, 0, 0));
    assert_eq!(MusicalTime::from_ticks(-3840, 4), MusicalTime::new(0, 1, 0));
    assert_eq!(MusicalTime::from_ticks(-4801, 4), MusicalTime::new(0, 0, -1));
    let ticks: i64 = -123_456_789;
    let per_bar: i64 = 3 * 960;
    let expected = MusicalTime::new(
        (ticks / per_bar) as i32 + 1,
        ((ticks % per_bar) / 960) as i32 + 1,
        ((ticks % per_bar) % 960) as i32,
    );
    assert_eq!(MusicalTime::from_ticks(ticks, 3), expected);
}
