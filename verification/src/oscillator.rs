//! The oscillator: the raw periodic wave that every run starts from.
//!
//! The sine and the square follow the phase of `frequency` and `phase_shift`. The sawtooth
//! rises from minus to plus the amplitude once per cycle. The triangle is the wave
//! `(2 / pi) * asin(sin(pi * frequency * t))`: piecewise linear, starting at zero, with a
//! period of two cycles of `frequency`; the phase shift does not enter it or the sawtooth.

use vstd::prelude::*;
use crate::fixed::{ONE, scaled, negated, quotient, scale, negate, divide, lemma_quotient_monotone};
use crate::sine::{sine, sine_of, lemma_sine_range};
use crate::phase::{
    residue, cycle_steps, phase_at, residue_of, phase_of, cycle_steps_of, lemma_residue_periodic,
};
use crate::config::{WavGenerator, Waveform};

verus! {

/// A sine partial of the given amplitude at sample `index`.
pub open spec fn sine_wave(amplitude: i64, freq: i64, shift: i64, rate: u32, index: nat) -> i64
    recommends
        rate > 0,
{
    scaled(amplitude, sine(phase_at(freq, shift, rate, index)), ONE as int)
}

/// The square wave: the amplitude where the sine wave is positive, its negative elsewhere.
pub open spec fn square_wave(amplitude: i64, freq: i64, shift: i64, rate: u32, index: nat) -> i64
    recommends
        rate > 0,
{
    if sine_wave(amplitude, freq, shift, rate, index) > 0 {
        amplitude
    } else {
        negated(amplitude)
    }
}

/// The height of the unit triangle at sample `index`, between `-ONE` and `ONE`.
pub open spec fn triangle_shape(freq: i64, rate: u32, index: nat) -> int
    recommends
        rate > 0,
{
    let m = cycle_steps(rate);
    let r = residue(freq, index, 2 * m);
    let rise = if 2 * r <= m {
        2 * r
    } else if 2 * r <= 3 * m {
        2 * m - 2 * r
    } else {
        2 * r - 4 * m
    };
    quotient(rise * ONE, m)
}

/// The height of the unit sawtooth at sample `index`, from `-ONE` up to just below `ONE`.
pub open spec fn sawtooth_shape(freq: i64, rate: u32, index: nat) -> int
    recommends
        rate > 0,
{
    let m = cycle_steps(rate);
    quotient((2 * residue(freq, index, m) - m) * ONE, m)
}

/// The oscillator's output at sample `index`.
pub open spec fn oscillation(
    kind: Waveform,
    amplitude: i64,
    freq: i64,
    shift: i64,
    rate: u32,
    index: nat,
) -> i64
    recommends
        rate > 0,
{
    match kind {
        Waveform::Sine => sine_wave(amplitude, freq, shift, rate, index),
        Waveform::Square => square_wave(amplitude, freq, shift, rate, index),
        Waveform::Triangle => scaled(amplitude, triangle_shape(freq, rate, index), ONE as int),
        Waveform::Sawtooth => scaled(amplitude, sawtooth_shape(freq, rate, index), ONE as int),
    }
}

/// Both unit shapes stay between minus one and one.
pub proof fn lemma_shape_range(freq: i64, rate: u32, index: nat)
    requires
        rate > 0,
    ensures
        -ONE <= triangle_shape(freq, rate, index) <= ONE,
        -ONE <= sawtooth_shape(freq, rate, index) < ONE,
{
    let m = cycle_steps(rate);
    let r2 = residue(freq, index, 2 * m);
    let rise = if 2 * r2 <= m {
        2 * r2
    } else if 2 * r2 <= 3 * m {
        2 * m - 2 * r2
    } else {
        2 * r2 - 4 * m
    };
    lemma_unit_quotient(rise, m);
    let r = residue(freq, index, m);
    lemma_unit_quotient(2 * r - m, m);
    if 2 * r - m >= 0 {
        let n = (2 * r - m) * ONE;
        let o = ONE as int;
        assert(n < m * o) by (nonlinear_arith)
            requires
                n == (2 * r - m) * o,
                2 * r - m < m,
                o > 0,
        ;
        assert(n / m < o) by (nonlinear_arith)
            requires
                0 <= n < m * o,
                m > 0,
        ;
    }
}

/// A part of a whole, scaled to raw units, is at most one in size.
pub proof fn lemma_unit_quotient(part: int, whole: int)
    requires
        whole > 0,
        -whole <= part <= whole,
    ensures
        -ONE <= quotient(part * ONE, whole) <= ONE,
        -whole * ONE <= part * ONE <= whole * ONE,
{
    let o = ONE as int;
    assert(-whole * o <= part * o <= whole * o) by (nonlinear_arith)
        requires
            -whole <= part <= whole,
            o > 0,
    ;
    if part >= 0 {
        let n = part * o;
        assert(0 <= n / whole <= o) by (nonlinear_arith)
            requires
                0 <= n <= whole * o,
                whole > 0,
        ;
    } else {
        let n = -(part * o);
        assert(0 <= n / whole <= o) by (nonlinear_arith)
            requires
                0 <= n <= whole * o,
                whole > 0,
        ;
    }
}

/// A sine partial of the given amplitude at sample `index`.
pub fn sine_wave_at(amplitude: i64, freq: i64, shift: i64, rate: u32, index: usize) -> (r: i64)
    requires
        rate > 0,
    ensures
        r == sine_wave(amplitude, freq, shift, rate, index as nat),
{
    let s: i64 = sine_of(phase_of(freq, shift, rate, index));
    scale(amplitude, s, ONE)
}

/// The height of the unit triangle at sample `index`.
pub fn triangle_shape_at(freq: i64, rate: u32, index: usize) -> (r: i64)
    requires
        rate > 0,
    ensures
        r == triangle_shape(freq, rate, index as nat),
        -ONE <= r <= ONE,
{
    let steps: u64 = cycle_steps_of(rate);
    let m: i128 = steps as i128;
    let r: i128 = residue_of(freq, index, 2 * steps) as i128;
    let rise: i128 = if 2 * r <= m {
        2 * r
    } else if 2 * r <= 3 * m {
        2 * m - 2 * r
    } else {
        2 * r - 4 * m
    };
    proof {
        lemma_unit_quotient(rise as int, m as int);
        lemma_shape_range(freq, rate, index as nat);
    }
    divide(rise * (ONE as i128), m) as i64
}

/// The height of the unit sawtooth at sample `index`.
pub fn sawtooth_shape_at(freq: i64, rate: u32, index: usize) -> (r: i64)
    requires
        rate > 0,
    ensures
        r == sawtooth_shape(freq, rate, index as nat),
        -ONE <= r < ONE,
{
    let steps: u64 = cycle_steps_of(rate);
    let m: i128 = steps as i128;
    let r: i128 = residue_of(freq, index, steps) as i128;
    proof {
        lemma_unit_quotient(2 * r - m, m as int);
        lemma_shape_range(freq, rate, index as nat);
    }
    divide((2 * r - m) * (ONE as i128), m) as i64
}

/// The oscillator's output at sample `index`.
pub fn oscillation_at(
    kind: Waveform,
    amplitude: i64,
    freq: i64,
    shift: i64,
    rate: u32,
    index: usize,
) -> (r: i64)
    requires
        rate > 0,
    ensures
        r == oscillation(kind, amplitude, freq, shift, rate, index as nat),
{
    match kind {
        Waveform::Sine => sine_wave_at(amplitude, freq, shift, rate, index),
        Waveform::Square => {
            if sine_wave_at(amplitude, freq, shift, rate, index) > 0 {
                amplitude
            } else {
                negate(amplitude)
            }
        },
        Waveform::Triangle => scale(amplitude, triangle_shape_at(freq, rate, index), ONE),
        Waveform::Sawtooth => scale(amplitude, sawtooth_shape_at(freq, rate, index), ONE),
    }
}

impl WavGenerator {
    /// The oscillator's output at sample `index`.
    pub open spec fn tone_at(&self, index: nat) -> i64
        recommends
            self.sample_rate > 0,
    {
        oscillation(
            self.waveform(),
            self.amplitude,
            self.frequency,
            self.phase_shift,
            self.sample_rate,
            index,
        )
    }

    /// The oscillator's whole output: `length()` samples.
    pub open spec fn tone(&self) -> Seq<i64>
        recommends
            self.sample_rate > 0,
    {
        Seq::new(self.length(), |i: int| self.tone_at(i as nat))
    }

    /// Runs the oscillator over the whole duration.
    pub fn oscillate(&self) -> (waveform: Vec<i64>)
        requires
            self.sample_rate > 0,
        ensures
            waveform@ == self.tone(),
    {
        let count: usize = self.sample_count();
        let kind: Waveform = self.waveform_kind();
        let mut waveform: Vec<i64> = Vec::new();
        let mut i: usize = 0;
        while i < count
            invariant
                i <= count,
                count == self.length(),
                kind == self.waveform(),
                self.sample_rate > 0,
                waveform@.len() == i,
                forall|k: int| 0 <= k < i ==> waveform@[k] == self.tone_at(k as nat),
            decreases count - i,
        {
            let sample: i64 = oscillation_at(
                kind,
                self.amplitude,
                self.frequency,
                self.phase_shift,
                self.sample_rate,
                i,
            );
            waveform.push(sample);
            i += 1;
        }
        waveform
    }
}

/// A sine, square or sawtooth wave repeats after any number of samples in which the
/// frequency completes whole cycles: with `period * frequency` a multiple of `rate`,
/// sample `index + period` equals sample `index`.
pub proof fn lemma_oscillation_periodic(
    kind: Waveform,
    amplitude: i64,
    freq: i64,
    shift: i64,
    rate: u32,
    index: nat,
    period: nat,
)
    requires
        rate > 0,
        residue(freq, period, cycle_steps(rate)) == 0,
        kind == Waveform::Sine || kind == Waveform::Square || kind == Waveform::Sawtooth,
    ensures
        oscillation(kind, amplitude, freq, shift, rate, index + period) == oscillation(
            kind,
            amplitude,
            freq,
            shift,
            rate,
            index,
        ),
{
    lemma_residue_periodic(freq, index, period, cycle_steps(rate));
}

/// The oscillator's output repeats with every whole number of cycles that fits a whole
/// number of samples: a sine at frequency `f` and rate `r` has the period `r / f` samples
/// wherever that is a whole number.
pub proof fn lemma_tone_periodic(generator: &WavGenerator, period: nat, index: int)
    requires
        generator.sample_rate > 0,
        generator.waveform() != Waveform::Triangle,
        residue(generator.frequency, period, cycle_steps(generator.sample_rate)) == 0,
        0 <= index,
        index + period < generator.length(),
    ensures
        generator.tone()[index + period] == generator.tone()[index],
{
    lemma_oscillation_periodic(
        generator.waveform(),
        generator.amplitude,
        generator.frequency,
        generator.phase_shift,
        generator.sample_rate,
        index as nat,
        period,
    );
}

/// A square wave is at every sample the amplitude or its negative, whatever the
/// frequency and phase. The negative is exact for every amplitude but `i64::MIN`, whose
/// negative is clamped.
pub proof fn lemma_square_magnitude(amplitude: i64, freq: i64, shift: i64, rate: u32, index: nat)
    ensures
        ({
            let s = oscillation(Waveform::Square, amplitude, freq, shift, rate, index);
            s == amplitude || s == negated(amplitude)
        }),
        amplitude > i64::MIN ==> negated(amplitude) == -amplitude,
{
}

/// A value scaled by a share of at most one is no further from zero than the value.
pub proof fn lemma_scaled_share(x: i64, share: int)
    requires
        -ONE <= share <= ONE,
    ensures
        x >= 0 ==> -x <= scaled(x, share, ONE as int) <= x,
        x <= 0 ==> x <= scaled(x, share, ONE as int) <= -x,
{
    let v = x as int;
    let o = ONE as int;
    if v >= 0 {
        assert(-(v * o) <= v * share <= v * o) by (nonlinear_arith)
            requires
                v >= 0,
                -o <= share <= o,
        ;
        lemma_quotient_monotone(v * share, v * o, o);
        lemma_quotient_monotone(-(v * o), v * share, o);
        assert((v * o) / o == v) by (nonlinear_arith)
            requires
                o > 0,
        ;
    } else {
        let w = -v;
        assert(-(w * o) <= v * share <= w * o) by (nonlinear_arith)
            requires
                w == -v,
                w >= 0,
                -o <= share <= o,
        ;
        lemma_quotient_monotone(v * share, w * o, o);
        lemma_quotient_monotone(-(w * o), v * share, o);
        assert((w * o) / o == w) by (nonlinear_arith)
            requires
                o > 0,
        ;
    }
}

/// No waveform ever exceeds its amplitude: every sample lies between the amplitude and
/// its negative.
pub proof fn lemma_oscillation_bounded(
    kind: Waveform,
    amplitude: i64,
    freq: i64,
    shift: i64,
    rate: u32,
    index: nat,
)
    requires
        rate > 0,
        amplitude > i64::MIN,
    ensures
        ({
            let s = oscillation(kind, amplitude, freq, shift, rate, index);
            if amplitude >= 0 {
                -amplitude <= s <= amplitude
            } else {
                amplitude <= s <= -amplitude
            }
        }),
{
    lemma_sine_range(phase_at(freq, shift, rate, index));
    lemma_shape_range(freq, rate, index);
    lemma_scaled_share(amplitude, sine(phase_at(freq, shift, rate, index)));
    lemma_scaled_share(amplitude, triangle_shape(freq, rate, index));
    lemma_scaled_share(amplitude, sawtooth_shape(freq, rate, index));
}

/// An oscillator of amplitude zero is silent, whatever its waveform.
pub proof fn lemma_zero_amplitude_silent(kind: Waveform, freq: i64, shift: i64, rate: u32, index: nat)
    ensures
        oscillation(kind, 0, freq, shift, rate, index) == 0,
{
}

} // verus!
