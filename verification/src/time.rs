//! Sample-accurate and musical time.
use vstd::prelude::*;
use crate::ieee::{clamp_f64, f64_clamped};

verus! {

/// Ticks per quarter note.
pub const TICKS_PER_QUARTER_NOTE: i32 = 960;

/// A position on the sample clock, counted from the start of the stream.
#[derive(Debug, Clone, Copy, PartialEq, Eq, Structural, PartialOrd, Ord, Hash)]
pub struct SamplePosition(pub i64);

impl SamplePosition {
    /// The start of the stream.
    pub fn zero() -> (r: Self)
        ensures
            r.0 == 0,
    {
        SamplePosition(0)
    }

    /// Move the position forward by `frames` samples.
    pub fn advance(&mut self, frames: usize)
        requires
            frames <= i64::MAX,
            old(self).0 + frames <= i64::MAX,
        ensures
            final(self).0 == old(self).0 + frames,
    {
        self.0 = self.0 + frames as i64;
    }
}

impl Default for SamplePosition {
    fn default() -> (r: Self)
        ensures
            r.0 == 0,
    {
        SamplePosition(0)
    }
}

impl core::ops::Add for SamplePosition {
    type Output = SamplePosition;

    fn add(self, rhs: SamplePosition) -> (r: SamplePosition) {
        SamplePosition(self.0 + rhs.0)
    }
}

impl vstd::std_specs::ops::AddSpecImpl for SamplePosition {
    open spec fn obeys_add_spec() -> bool {
        true
    }

    open spec fn add_req(self, rhs: SamplePosition) -> bool {
        i64::MIN <= self.0 + rhs.0 <= i64::MAX
    }

    open spec fn add_spec(self, rhs: SamplePosition) -> SamplePosition {
        SamplePosition((self.0 + rhs.0) as i64)
    }
}

impl core::ops::Sub for SamplePosition {
    type Output = SamplePosition;

    fn sub(self, rhs: SamplePosition) -> (r: SamplePosition) {
        SamplePosition(self.0 - rhs.0)
    }
}

impl vstd::std_specs::ops::SubSpecImpl for SamplePosition {
    open spec fn obeys_sub_spec() -> bool {
        true
    }

    open spec fn sub_req(self, rhs: SamplePosition) -> bool {
        i64::MIN <= self.0 - rhs.0 <= i64::MAX
    }

    open spec fn sub_spec(self, rhs: SamplePosition) -> SamplePosition {
        SamplePosition((self.0 - rhs.0) as i64)
    }
}

/// A place in the music: bar and beat count from 1, ticks within the beat
/// from 0, with `TICKS_PER_QUARTER_NOTE` ticks to the beat.
#[derive(Debug, Clone, Copy, PartialEq, Eq, Structural, Hash)]
pub struct MusicalTime {
    /// Bar number, from 1.
    pub bar: i32,
    /// Beat within the bar, from 1.
    pub beat: i32,
    /// Tick within the beat, from 0.
    pub tick: i32,
}

impl MusicalTime {
    /// Ticks from the start of bar 1 to this place, with `beats_per_bar`
    /// beats in every bar.
    pub open spec fn ticks(self, beats_per_bar: int) -> int {
        (self.bar - 1) * beats_per_bar * 960 + (self.beat - 1) * 960 + self.tick
    }

    /// The place `total_ticks` ticks from the start of bar 1. A count below
    /// zero lies before the start: its bars, beats and ticks are counted
    /// back from bar 1, beat 1, tick 0, so that none of the three is above
    /// that.
    pub open spec fn at(total_ticks: int, beats_per_bar: int) -> MusicalTime {
        if total_ticks >= 0 {
            MusicalTime {
                bar: (total_ticks / (960 * beats_per_bar) + 1) as i32,
                beat: ((total_ticks / 960) % beats_per_bar + 1) as i32,
                tick: (total_ticks % 960) as i32,
            }
        } else {
            MusicalTime {
                bar: (1 - (-total_ticks) / (960 * beats_per_bar)) as i32,
                beat: (1 - ((-total_ticks) / 960) % beats_per_bar) as i32,
                tick: (-((-total_ticks) % 960)) as i32,
            }
        }
    }

    /// Whether the bar of the place `total_ticks` ticks from the start is a
    /// bar number that the machine can hold.
    pub open spec fn bar_fits(total_ticks: int, beats_per_bar: int) -> bool {
        if total_ticks >= 0 {
            total_ticks / (960 * beats_per_bar) < i32::MAX
        } else {
            (-total_ticks) / (960 * beats_per_bar) <= i32::MAX + 2
        }
    }

    /// A bar, beat and tick that name a place in bars of `beats_per_bar` beats.
    pub open spec fn in_bar(self, beats_per_bar: int) -> bool {
        &&& self.bar >= 1
        &&& 1 <= self.beat <= beats_per_bar
        &&& 0 <= self.tick < 960
    }

    pub fn new(bar: i32, beat: i32, tick: i32) -> (r: Self)
        ensures
            r == (MusicalTime { bar, beat, tick }),
    {
        MusicalTime { bar, beat, tick }
    }

    /// Total ticks from the start.
    pub fn to_ticks(&self, beats_per_bar: i32) -> (r: i64)
        requires
            i64::MIN <= self.ticks(beats_per_bar as int) <= i64::MAX,
        ensures
            r == self.ticks(beats_per_bar as int),
    {
        let bars: i128 = self.bar as i128 - 1;
        let beats: i128 = self.beat as i128 - 1;
        let ticks: i128 = self.tick as i128;
        let per_bar: i128 = beats_per_bar as i128;
        assert(-0x8000_0000_0000_0000 <= bars * per_bar <= 0x8000_0000_0000_0000) by (nonlinear_arith)
            requires
                -0x8000_0001 <= bars <= 0x7FFF_FFFF,
                -0x8000_0000 <= per_bar <= 0x7FFF_FFFF,
        ;
        let in_bars: i128 = bars * per_bar * 960;
        let total: i128 = in_bars + beats * 960 + ticks;
        total as i64
    }

    /// The place `total_ticks` ticks from the start, after it or before it.
    pub fn from_ticks(total_ticks: i64, beats_per_bar: i32) -> (r: Self)
        requires
            beats_per_bar >= 1,
            MusicalTime::bar_fits(total_ticks as int, beats_per_bar as int),
        ensures
            r == MusicalTime::at(total_ticks as int, beats_per_bar as int),
            total_ticks >= 0 ==> r.in_bar(beats_per_bar as int),
    {
        let ticks_per_bar: i128 = beats_per_bar as i128 * 960;
        let distance: i128 = if total_ticks >= 0 {
            total_ticks as i128
        } else {
            -(total_ticks as i128)
        };
        let remaining: i128 = distance % ticks_per_bar;
        proof {
            let t = distance as int;
            let b = beats_per_bar as int;
            vstd::arithmetic::div_mod::lemma_breakdown(t, 960, b);
            vstd::arithmetic::div_mod::lemma_div_pos_is_pos(t, 960);
            vstd::arithmetic::div_mod::lemma_mod_bound(t / 960, b);
            let q = (t / 960) % b;
            vstd::arithmetic::div_mod::lemma_fundamental_div_mod_converse(remaining as int, 960, q, t % 960);
            vstd::arithmetic::div_mod::lemma_div_pos_is_pos(t, 960 * b);
        }
        let bars: i128 = distance / ticks_per_bar;
        let beats: i128 = remaining / 960;
        let ticks: i128 = remaining % 960;
        if total_ticks >= 0 {
            MusicalTime { bar: (bars + 1) as i32, beat: (beats + 1) as i32, tick: ticks as i32 }
        } else {
            MusicalTime { bar: (1 - bars) as i32, beat: (1 - beats) as i32, tick: (-ticks) as i32 }
        }
    }

    /// Converting a place to ticks and back gives the same bar, beat and
    /// tick, for every place in bars of `beats_per_bar` beats.
    pub proof fn lemma_ticks_round_trip(self, beats_per_bar: int)
        requires
            self.in_bar(beats_per_bar),
        ensures
            MusicalTime::at(self.ticks(beats_per_bar), beats_per_bar) == self,
    {
        let t = self.ticks(beats_per_bar);
        let beats = (self.bar - 1) * beats_per_bar + (self.beat - 1);
        assert(t == beats * 960 + self.tick) by (nonlinear_arith)
            requires
                t == (self.bar - 1) * beats_per_bar * 960 + (self.beat - 1) * 960 + self.tick,
                beats == (self.bar - 1) * beats_per_bar + (self.beat - 1),
        ;
        assert(beats >= 0) by (nonlinear_arith)
            requires
                beats == (self.bar - 1) * beats_per_bar + (self.beat - 1),
                self.bar >= 1,
                beats_per_bar >= 1,
                self.beat >= 1,
        ;
        vstd::arithmetic::div_mod::lemma_fundamental_div_mod_converse(t, 960, beats, self.tick as int);
        vstd::arithmetic::div_mod::lemma_fundamental_div_mod_converse(
            beats,
            beats_per_bar,
            self.bar - 1,
            self.beat - 1,
        );
        vstd::arithmetic::div_mod::lemma_div_denominator(t, 960, beats_per_bar);
    }
}

/// A time signature. The numerator is the number of beats in a bar.
#[derive(Debug, Clone, Copy, PartialEq, Eq, Structural, Hash)]
pub struct TimeSignature {
    /// Beats per bar.
    pub numerator: u8,
    /// The note value that counts as one beat (4 for a quarter note).
    pub denominator: u8,
}

impl TimeSignature {
    /// Four quarter notes to the bar.
    pub fn common_time() -> (r: Self)
        ensures
            r == (TimeSignature { numerator: 4, denominator: 4 }),
    {
        TimeSignature { numerator: 4, denominator: 4 }
    }

    /// Three quarter notes to the bar.
    pub fn waltz_time() -> (r: Self)
        ensures
            r == (TimeSignature { numerator: 3, denominator: 4 }),
    {
        TimeSignature { numerator: 3, denominator: 4 }
    }

    pub fn new(numerator: u8, denominator: u8) -> (r: Self)
        ensures
            r == (TimeSignature { numerator, denominator }),
    {
        TimeSignature { numerator, denominator }
    }

    pub fn beats_per_bar(&self) -> (r: i32)
        ensures
            r == self.numerator,
    {
        self.numerator as i32
    }
}

impl Default for TimeSignature {
    fn default() -> (r: Self)
        ensures
            r == (TimeSignature { numerator: 4, denominator: 4 }),
    {
        TimeSignature { numerator: 4, denominator: 4 }
    }
}

/// Encoding of the slowest tempo, binary64 `20.0` beats per minute.
pub const BPM_MIN: u64 = 0x4034_0000_0000_0000;

/// Encoding of the fastest tempo, binary64 `999.0` beats per minute.
pub const BPM_MAX: u64 = 0x408F_3800_0000_0000;

/// Encoding of the tempo a transport starts with, binary64 `120.0` beats per minute.
pub const BPM_DEFAULT: u64 = 0x405E_0000_0000_0000;

/// A tempo in beats per minute, held as the encoding of a binary64 number.
#[derive(Debug, Clone, Copy, PartialEq, Eq, Structural)]
pub struct Tempo(pub u64);

impl Tempo {
    /// The tempo nearest to `bpm` within 20 to 999 beats per minute. `bpm`
    /// is the encoding of a binary64 number; a NaN is kept as it is.
    pub fn new(bpm: u64) -> (r: Self)
        ensures
            r.0 == f64_clamped(bpm, BPM_MIN, BPM_MAX),
    {
        Tempo(clamp_f64(bpm, BPM_MIN, BPM_MAX))
    }

    /// The encoding of the beats per minute.
    pub fn bpm(&self) -> (r: u64)
        ensures
            r == self.0,
    {
        self.0
    }
}

impl Default for Tempo {
    fn default() -> (r: Self)
        ensures
            r.0 == BPM_DEFAULT,
    {
        Tempo(BPM_DEFAULT)
    }
}

} // verus!
