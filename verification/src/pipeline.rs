//! The whole run: oscillator, offset, harmonics, noise, filters, fades, reverb and
//! normalizer, in that order, on one buffer.

use vstd::prelude::*;
use crate::fixed::{ONE, lemma_scaled_zero, lemma_scaled_by_zero};
use crate::oscillator::lemma_zero_amplitude_silent;
use crate::harmonics::{offset, overlay, lemma_offset_nothing, lemma_overlay_nothing};
use crate::filter::{low_passed_at, high_passed_at};
use crate::effects::{echoed_at, normalized, peak, lemma_fade_of_nothing};
use crate::noise::{within_unit, draw_series, no_noise};
use crate::config::{WavGenerator, frame_count};

verus! {

/// A signal of `length` samples that are all zero.
pub open spec fn silence(length: nat) -> Seq<i64> {
    Seq::new(length, |i: int| 0i64)
}

impl WavGenerator {
    /// The signal before any noise: the oscillator's output, offset, with the harmonics.
    pub open spec fn dry(&self) -> Seq<i64>
        recommends
            self.sample_rate > 0,
    {
        overlay(
            offset(self.tone(), self.dc_offset),
            self.partials(),
            self.phase_shift,
            self.sample_rate,
        )
    }

    /// What the stages after the noise make of a signal: low-pass, high-pass, fades, the
    /// reverb if its amount is positive, and the normalizer.
    pub open spec fn finished(&self, signal: Seq<i64>) -> Seq<i64> {
        let filtered = self.after_high_pass(self.after_low_pass(signal));
        let shaped = self.after_fades(filtered);
        let wet = if self.reverb_amount > 0 {
            self.after_reverb(shaped)
        } else {
            shaped
        };
        normalized(wet)
    }

    /// The generated signal, given the noise values that were drawn.
    pub open spec fn rendered(&self, draws: Seq<i64>) -> Seq<i64>
        recommends
            self.sample_rate > 0,
    {
        self.finished(self.noised(self.dry(), draws))
    }

    /// Generates the signal with the given noise values in place of random ones.
    pub fn render(&self, draws: &Vec<i64>) -> (waveform: Vec<i64>)
        requires
            self.renderable(),
            self.noisy() ==> draws@.len() >= self.length(),
        ensures
            waveform@ == self.rendered(draws@),
            waveform@.len() == self.length(),
    {
        let mut waveform: Vec<i64> = self.oscillate();
        if self.dc_offset != 0 {
            self.apply_dc_offset(&mut waveform);
        } else {
            proof {
                lemma_offset_nothing(waveform@);
            }
        }
        self.add_harmonics(&mut waveform);
        self.mix_noise(&mut waveform, draws);
        self.apply_low_pass_filter(&mut waveform);
        self.apply_high_pass_filter(&mut waveform);
        if self.fade_in > 0 || self.fade_out > 0 {
            self.apply_fades(&mut waveform);
        } else {
            proof {
                lemma_fade_of_nothing(waveform@);
            }
        }
        if self.reverb_amount > 0 {
            self.apply_reverb(&mut waveform);
        }
        self.normalize_channels(&mut waveform);
        waveform
    }

    /// Generates the signal and its descriptor.
    ///
    /// The noise is random, so the signal is the rendering of some noise values within the
    /// unit interval, one per sample; without noise it is determined.
    pub fn generate_waveform(&self) -> (out: (Vec<i64>, String))
        requires
            self.renderable(),
        ensures
            out.1@ == self.descriptor(),
            out.0@.len() == self.length(),
            exists|draws: Seq<i64>|
                draws.len() == self.length() && within_unit(draws) && #[trigger] self.rendered(draws)
                    == out.0@,
            !self.noisy() ==> out.0@ == self.rendered(Seq::empty()),
    {
        let draws: Vec<i64> = match self.noise_kind() {
            Some(color) => draw_series(color, self.sample_count()),
            None => Vec::new(),
        };
        let waveform: Vec<i64> = self.render(&draws);
        proof {
            let witness = if self.noisy() {
                draws@
            } else {
                no_noise(self.length())
            };
            assert(self.rendered(witness) == waveform@);
        }
        let suffix: String = self.describe();
        (waveform, suffix)
    }
}

/// A low-pass filter keeps silence silent.
pub proof fn lemma_low_pass_silence(length: nat, alpha: i64, k: int)
    requires
        0 <= k < length,
    ensures
        low_passed_at(silence(length), alpha, k) == 0,
    decreases k,
{
    if k > 0 {
        lemma_low_pass_silence(length, alpha, k - 1);
        lemma_scaled_by_zero(alpha, ONE as int);
    }
}

/// A high-pass filter keeps silence silent.
pub proof fn lemma_high_pass_silence(length: nat, alpha: i64, k: int)
    requires
        0 <= k < length,
    ensures
        high_passed_at(silence(length), alpha, k) == 0,
    decreases k,
{
    if k > 0 {
        lemma_high_pass_silence(length, alpha, k - 1);
        lemma_scaled_by_zero(alpha, ONE as int);
    }
}

/// A feedback delay keeps silence silent.
pub proof fn lemma_echo_silence(length: nat, delay: nat, amount: i64, k: int)
    requires
        0 <= k < length,
    ensures
        echoed_at(silence(length), delay, amount, k) == 0,
    decreases k,
{
    lemma_scaled_zero(amount as int, ONE as int);
    if delay > 0 && k >= delay {
        lemma_echo_silence(length, delay, amount, k - delay);
    }
}

/// Silence has no peak.
pub proof fn lemma_peak_of_silence(length: nat)
    ensures
        peak(silence(length)) == 0,
    decreases length,
{
    if length > 0 {
        assert(silence(length).drop_last() =~= silence((length - 1) as nat));
        lemma_peak_of_silence((length - 1) as nat);
    }
}

/// The normalizer leaves silence alone: there is no division by its peak of zero.
pub proof fn lemma_normalized_silence(length: nat)
    ensures
        normalized(silence(length)) == silence(length),
{
    lemma_peak_of_silence(length);
}

/// The stages after the noise keep silence silent.
pub proof fn lemma_finished_silence(generator: &WavGenerator, length: nat)
    ensures
        generator.finished(silence(length)) == silence(length),
{
    let quiet = silence(length);
    let low = generator.after_low_pass(quiet);
    assert(low =~= quiet) by {
        if let Some(cutoff) = generator.low_pass_filter {
            let alpha = crate::filter::low_pass_alpha(cutoff, generator.sample_rate);
            assert forall|k: int| 0 <= k < length implies low_passed_at(quiet, alpha, k) == 0 by {
                lemma_low_pass_silence(length, alpha, k);
            }
        }
    }
    let high = generator.after_high_pass(low);
    assert(high =~= quiet) by {
        if let Some(cutoff) = generator.high_pass_filter {
            let alpha = crate::filter::high_pass_alpha(cutoff, generator.sample_rate);
            assert forall|k: int| 0 <= k < length implies high_passed_at(quiet, alpha, k) == 0 by {
                lemma_high_pass_silence(length, alpha, k);
            }
        }
    }
    let shaped = generator.after_fades(high);
    assert(shaped =~= quiet) by {
        let rise = frame_count(generator.sample_rate, generator.fade_in) as int;
        let fall = frame_count(generator.sample_rate, generator.fade_out) as int;
        assert forall|k: int| 0 <= k < length implies #[trigger] shaped[k] == 0 by {
            if k < rise {
                lemma_scaled_zero(k, rise);
            }
            if fall > 0 {
                lemma_scaled_zero(length - k, fall);
            }
        }
    }
    let wet = if generator.reverb_amount > 0 {
        generator.after_reverb(shaped)
    } else {
        shaped
    };
    assert(wet =~= quiet) by {
        let delay = crate::effects::echo_delay(generator.sample_rate);
        assert forall|k: int| 0 <= k < length implies echoed_at(
            quiet,
            delay,
            generator.reverb_amount,
            k,
        ) == 0 by {
            lemma_echo_silence(length, delay, generator.reverb_amount, k);
        }
    }
    lemma_normalized_silence(length);
}

/// With an amplitude of zero, no offset, no harmonics and no noise the generated signal
/// is silence: every sample is zero when the effects begin and when they are done.
pub proof fn lemma_silence(generator: &WavGenerator, draws: Seq<i64>)
    requires
        generator.amplitude == 0,
        generator.dc_offset == 0,
        generator.partials().len() == 0,
        !generator.noisy(),
    ensures
        generator.noised(generator.dry(), draws) == silence(generator.length()),
        generator.rendered(draws) == silence(generator.length()),
{
    let length = generator.length();
    let tone = generator.tone();
    assert(tone =~= silence(length)) by {
        assert forall|i: int| 0 <= i < length implies #[trigger] tone[i] == 0 by {
            lemma_zero_amplitude_silent(
                generator.waveform(),
                generator.frequency,
                generator.phase_shift,
                generator.sample_rate,
                i as nat,
            );
        }
    }
    lemma_offset_nothing(tone);
    assert(generator.partials() =~= Seq::<(i64, i64)>::empty());
    lemma_overlay_nothing(tone, generator.phase_shift, generator.sample_rate);
    lemma_finished_silence(generator, length);
}

} // verus!
