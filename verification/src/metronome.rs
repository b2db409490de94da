//! Where the metronome clicks.
//!
//! A beat lasts `60 * sample_rate / bpm` samples. A tempo is a binary64
//! number, that is a whole significand over a power of two, so the beat that
//! a sample position falls into and how far into it are whole-number
//! quotient and remainder. The click sounds over the first hundredth of each
//! beat, higher on the first beat of a bar. The waveform is the signal
//! path's; which frames click and how is decided here.
use vstd::prelude::*;
use vstd::arithmetic::power2::pow2;
use crate::audio::SampleRate;
use crate::time::{SamplePosition, Tempo, TimeSignature, BPM_MAX, BPM_MIN};

verus! {

/// The frequency in Hz of the click on the first beat of a bar.
pub const ACCENT_HZ: u32 = 880;

/// The frequency in Hz of the click on the other beats.
pub const BEAT_HZ: u32 = 440;

/// The click lasts one part in this many of a beat.
pub const CLICK_PARTS: u128 = 100;

/// Two to the power of 52: the weight of the hidden bit of a binary64
/// significand.
pub const HIDDEN_BIT: u64 = 0x10_0000_0000_0000;

/// The bias of the binary64 exponent plus the 52 fraction bits.
pub const EXPONENT_SHIFT: u64 = 1075;

/// A click that falls on a frame.
#[derive(Debug, Clone, Copy, PartialEq, Eq, Structural)]
pub struct Click {
    /// Whether the beat is the first of its bar.
    pub accent: bool,
    /// How far the frame is into its beat, in parts of `span`.
    pub elapsed: u128,
    /// The length of a beat in the same parts.
    pub span: u128,
}

impl Click {
    /// The frequency of the click in Hz.
    pub fn frequency(&self) -> (r: u32)
        ensures
            r == if self.accent {
                ACCENT_HZ
            } else {
                BEAT_HZ
            },
    {
        if self.accent {
            ACCENT_HZ
        } else {
            BEAT_HZ
        }
    }
}

/// Whether `tempo` is a number within 20 to 999 beats per minute. Such
/// encodings are positive, so their order is that of the numbers.
pub open spec fn is_tempo(tempo: u64) -> bool {
    BPM_MIN <= tempo <= BPM_MAX
}

/// The significand of a positive normal binary64 number as a whole number.
pub open spec fn significand(bits: u64) -> int {
    HIDDEN_BIT + bits % HIDDEN_BIT
}

/// The power of two that the significand is divided by: the number is
/// `significand(bits) / unit(bits)`.
pub open spec fn unit(bits: u64) -> int {
    pow2((EXPONENT_SHIFT - bits / HIDDEN_BIT) as nat) as int
}

/// The sample position measured in parts of which `beat_span` make a beat.
pub open spec fn beat_time(position: int, tempo: u64) -> int {
    position * significand(tempo)
}

/// The length of a beat in the parts of `beat_time`.
pub open spec fn beat_span(tempo: u64, sample_rate: int) -> int {
    60 * sample_rate * unit(tempo)
}

/// The beat that `position` falls into, beat 0 starting at position 0.
pub open spec fn beat_index(position: int, tempo: u64, sample_rate: int) -> int {
    beat_time(position, tempo) / beat_span(tempo, sample_rate)
}

/// How far `position` is into its beat, in parts of `beat_span`.
pub open spec fn beat_elapsed(position: int, tempo: u64, sample_rate: int) -> int {
    beat_time(position, tempo) % beat_span(tempo, sample_rate)
}

/// The click on the frame at `position`, if the metronome clicks there.
/// It clicks within the first hundredth of every beat, with an accent on
/// every beat whose index is a multiple of `numerator`. It is silent where
/// the sample rate is 0 or the tempo is no number within 20 to 999, and
/// without accent where `numerator` is 0.
pub open spec fn click(position: int, tempo: u64, sample_rate: int, numerator: int) -> Option<Click> {
    if sample_rate <= 0 || !is_tempo(tempo) {
        None
    } else if beat_elapsed(position, tempo, sample_rate) * CLICK_PARTS < beat_span(tempo, sample_rate) {
        Some(
            Click {
                accent: numerator > 0 && beat_index(position, tempo, sample_rate) % numerator == 0,
                elapsed: beat_elapsed(position, tempo, sample_rate) as u128,
                span: beat_span(tempo, sample_rate) as u128,
            },
        )
    } else {
        None
    }
}

/// The whole samples in a beat.
pub open spec fn beat_samples(tempo: u64, sample_rate: int) -> int {
    beat_span(tempo, sample_rate) / significand(tempo)
}

/// The whole samples in a tick, of which 960 make a beat.
pub open spec fn tick_samples(tempo: u64, sample_rate: int) -> int {
    beat_span(tempo, sample_rate) / (960 * significand(tempo))
}

/// The power of two that belongs to a tempo's exponent.
fn unit_of(tempo: u64) -> (r: u128)
    requires
        is_tempo(tempo),
    ensures
        r == unit(tempo),
        0x800_0000_0000 <= r <= 0x1_0000_0000_0000,
{
    let exponent: u64 = tempo / HIDDEN_BIT;
    proof {
        vstd::arithmetic::power2::lemma2_to64();
        vstd::arithmetic::div_mod::lemma_div_is_ordered(BPM_MIN as int, tempo as int, HIDDEN_BIT as int);
        vstd::arithmetic::div_mod::lemma_div_is_ordered(tempo as int, BPM_MAX as int, HIDDEN_BIT as int);
        assert(BPM_MIN as int / HIDDEN_BIT as int == 1027);
        assert(BPM_MAX as int / HIDDEN_BIT as int == 1032);
        vstd::arithmetic::power2::lemma_pow2_adds(32, 11);
        vstd::arithmetic::power2::lemma_pow2_adds(32, 12);
        vstd::arithmetic::power2::lemma_pow2_adds(32, 13);
        vstd::arithmetic::power2::lemma_pow2_adds(32, 14);
        vstd::arithmetic::power2::lemma_pow2_adds(32, 15);
        vstd::arithmetic::power2::lemma_pow2_adds(32, 16);
    }
    if exponent == 1027 {
        0x1_0000_0000_0000
    } else if exponent == 1028 {
        0x8000_0000_0000
    } else if exponent == 1029 {
        0x4000_0000_0000
    } else if exponent == 1030 {
        0x2000_0000_0000
    } else if exponent == 1031 {
        0x1000_0000_0000
    } else {
        0x800_0000_0000
    }
}

/// Multiples of `n` stay multiples under a change of sign.
proof fn lemma_multiple_negated(x: int, n: int)
    requires
        n > 0,
    ensures
        (x % n == 0) <==> ((-x) % n == 0),
{
    if x % n == 0 {
        vstd::arithmetic::div_mod::lemma_fundamental_div_mod(x, n);
        let c = x / n;
        assert(-x == (-c) * n + 0) by (nonlinear_arith)
            requires
                x == n * c + 0,
        ;
        vstd::arithmetic::div_mod::lemma_fundamental_div_mod_converse(-x, n, -c, 0);
    }
    if (-x) % n == 0 {
        vstd::arithmetic::div_mod::lemma_fundamental_div_mod(-x, n);
        let c = (-x) / n;
        assert(x == (-c) * n + 0) by (nonlinear_arith)
            requires
                -x == n * c + 0,
        ;
        vstd::arithmetic::div_mod::lemma_fundamental_div_mod_converse(x, n, -c, 0);
    }
}

/// The whole samples in a beat at `tempo`, or `None` where the tempo is no
/// number within 20 to 999 beats per minute.
pub fn samples_per_beat(tempo: Tempo, sample_rate: SampleRate) -> (r: Option<u64>)
    ensures
        r is Some <==> is_tempo(tempo.0),
        r matches Some(samples) ==> samples == beat_samples(tempo.0, sample_rate.0 as int),
{
    if tempo.0 < BPM_MIN || tempo.0 > BPM_MAX {
        return None;
    }
    let whole: u128 = (HIDDEN_BIT + tempo.0 % HIDDEN_BIT) as u128;
    let power: u128 = unit_of(tempo.0);
    let rate: u128 = sample_rate.0 as u128;
    assert(60 * rate * power <= 60 * 0xFFFF_FFFF * 0x1_0000_0000_0000) by (nonlinear_arith)
        requires
            0 <= rate <= 0xFFFF_FFFF,
            0 <= power <= 0x1_0000_0000_0000,
    ;
    let span: u128 = 60 * rate * power;
    let samples: u128 = span / whole;
    assert(samples <= 0xFFFF_FFFF_FFFF_FFFF) by {
        let most: int = 60int * 0xFFFF_FFFFint * 0x1_0000_0000_0000int;
        vstd::arithmetic::div_mod::lemma_div_is_ordered_by_denominator(span as int, HIDDEN_BIT as int, whole as int);
        vstd::arithmetic::div_mod::lemma_div_is_ordered(span as int, most, HIDDEN_BIT as int);
    }
    Some(samples as u64)
}

/// The whole samples in a tick at `tempo`, or `None` where the tempo is no
/// number within 20 to 999 beats per minute.
pub fn samples_per_tick(tempo: Tempo, sample_rate: SampleRate) -> (r: Option<u64>)
    ensures
        r is Some <==> is_tempo(tempo.0),
        r matches Some(samples) ==> samples == tick_samples(tempo.0, sample_rate.0 as int),
{
    if tempo.0 < BPM_MIN || tempo.0 > BPM_MAX {
        return None;
    }
    let whole: u128 = (HIDDEN_BIT + tempo.0 % HIDDEN_BIT) as u128;
    let power: u128 = unit_of(tempo.0);
    let rate: u128 = sample_rate.0 as u128;
    assert(60 * rate * power <= 60 * 0xFFFF_FFFF * 0x1_0000_0000_0000) by (nonlinear_arith)
        requires
            0 <= rate <= 0xFFFF_FFFF,
            0 <= power <= 0x1_0000_0000_0000,
    ;
    let span: u128 = 60 * rate * power;
    let per_tick: u128 = 960 * whole;
    let samples: u128 = span / per_tick;
    assert(samples <= 0xFFFF_FFFF_FFFF_FFFF) by {
        let most: int = 60int * 0xFFFF_FFFFint * 0x1_0000_0000_0000int;
        vstd::arithmetic::div_mod::lemma_div_is_ordered_by_denominator(
            span as int,
            HIDDEN_BIT as int,
            per_tick as int,
        );
        vstd::arithmetic::div_mod::lemma_div_is_ordered(span as int, most, HIDDEN_BIT as int);
    }
    Some(samples as u64)
}

/// The click on the frame at `position`, if the metronome clicks there.
pub fn click_at(
    position: SamplePosition,
    tempo: Tempo,
    sample_rate: SampleRate,
    time_signature: TimeSignature,
) -> (r: Option<Click>)
    ensures
        r == click(position.0 as int, tempo.0, sample_rate.0 as int, time_signature.numerator as int),
{
    if sample_rate.0 == 0 || tempo.0 < BPM_MIN || tempo.0 > BPM_MAX {
        return None;
    }
    let whole: u128 = (HIDDEN_BIT + tempo.0 % HIDDEN_BIT) as u128;
    let power: u128 = unit_of(tempo.0);
    let rate: u128 = sample_rate.0 as u128;
    assert(0 < 60 * rate * power <= 60 * 0xFFFF_FFFF * 0x1_0000_0000_0000) by (nonlinear_arith)
        requires
            0 < rate <= 0xFFFF_FFFF,
            0 < power <= 0x1_0000_0000_0000,
    ;
    let span: u128 = 60 * rate * power;
    let forward: bool = position.0 >= 0;
    let distance: u128 = if forward {
        position.0 as u128
    } else {
        (-(position.0 as i128)) as u128
    };
    assert(distance * whole <= 0x8000_0000_0000_0000 * 0x20_0000_0000_0000) by (nonlinear_arith)
        requires
            0 <= distance <= 0x8000_0000_0000_0000,
            0 <= whole <= 0x20_0000_0000_0000,
    ;
    let time: u128 = distance * whole;
    let beats: u128 = time / span;
    let rest: u128 = time % span;
    let ghost t = beat_time(position.0 as int, tempo.0);
    let ghost s = span as int;
    proof {
        vstd::arithmetic::div_mod::lemma_fundamental_div_mod(time as int, s);
        assert(t == if forward {
            time as int
        } else {
            -(time as int)
        }) by (nonlinear_arith)
            requires
                t == position.0 * whole,
                time == distance * whole,
                distance == if forward {
                    position.0 as int
                } else {
                    -(position.0 as int)
                },
        ;
        vstd::arithmetic::div_mod::lemma_div_pos_is_pos(time as int, s);
    }
    // The beat and the way into it, counted downwards for positions before 0.
    let whole_beat: bool = rest == 0;
    let steps: u128 = if forward || whole_beat {
        beats
    } else {
        beats + 1
    };
    let elapsed: u128 = if forward || whole_beat {
        rest
    } else {
        span - rest
    };
    let ghost index = if forward {
        steps as int
    } else {
        -(steps as int)
    };
    proof {
        assert(t == index * s + elapsed) by (nonlinear_arith)
            requires
                time == s * beats + rest,
                t == if forward {
                    time as int
                } else {
                    -(time as int)
                },
                index == if forward {
                    steps as int
                } else {
                    -(steps as int)
                },
                steps == if forward || whole_beat {
                    beats as int
                } else {
                    beats + 1
                },
                elapsed == if forward || whole_beat {
                    rest as int
                } else {
                    s - rest
                },
                whole_beat == (rest == 0),
        ;
        vstd::arithmetic::div_mod::lemma_fundamental_div_mod_converse(t, s, index, elapsed as int);
    }
    if elapsed * CLICK_PARTS < span {
        let bar: u128 = time_signature.numerator as u128;
        let accent: bool = bar > 0 && steps % bar == 0;
        proof {
            if bar > 0 {
                lemma_multiple_negated(steps as int, bar as int);
            }
        }
        Some(Click { accent, elapsed, span })
    } else {
        None
    }
}

} // verus!
