//! The two one-pole filters.
//!
//! Both keep the first sample and work forward in place. Their coefficient follows from the
//! cutoff and the sample rate: with `dt = 1 / rate` and `rc = 1 / (2 pi cutoff)` the low-pass
//! uses `dt / (rc + dt)` and the high-pass `rc / (rc + dt)`. Each is evaluated here as one
//! exact fraction and cut once. An empty buffer has no first sample and is left empty.

use vstd::prelude::*;
use crate::fixed::{ONE, clamp, sum, product, quotient, plus, times, saturate, divide};
use crate::phase::TAU;
use crate::config::{WavGenerator, cutoff_unusable};

verus! {

/// The common denominator of both coefficients: `rate + 2 pi cutoff`, in units of `ONE^-2`.
pub open spec fn pole_denominator(cutoff: i64, rate: u32) -> int {
    rate * ONE * ONE + TAU * cutoff
}

/// The low-pass coefficient `dt / (rc + dt)`, raw.
pub open spec fn low_pass_alpha(cutoff: i64, rate: u32) -> i64
    recommends
        cutoff > 0,
{
    clamp(quotient(TAU * cutoff * ONE, pole_denominator(cutoff, rate)))
}

/// The high-pass coefficient `rc / (rc + dt)`, raw.
pub open spec fn high_pass_alpha(cutoff: i64, rate: u32) -> i64
    recommends
        cutoff > 0,
{
    clamp(quotient(rate * ONE * ONE * ONE, pole_denominator(cutoff, rate)))
}

/// Sample `k` of the low-passed signal: the first sample as it is, every later one
/// `alpha` times the sum of the raw sample and the filtered one before it.
pub open spec fn low_passed_at(signal: Seq<i64>, alpha: i64, k: int) -> i64
    recommends
        0 <= k < signal.len(),
    decreases k,
{
    if k <= 0 {
        signal[0]
    } else {
        product(alpha, sum(signal[k], low_passed_at(signal, alpha, k - 1)))
    }
}

/// The low-passed signal.
pub open spec fn low_passed(signal: Seq<i64>, alpha: i64) -> Seq<i64> {
    Seq::new(signal.len(), |k: int| low_passed_at(signal, alpha, k))
}

/// Sample `k` of the high-passed signal: the first sample as it is, every later one
/// `alpha` times the filtered sample before it plus the step of the raw signal.
pub open spec fn high_passed_at(signal: Seq<i64>, alpha: i64, k: int) -> i64
    recommends
        0 <= k < signal.len(),
    decreases k,
{
    if k <= 0 {
        signal[0]
    } else {
        product(alpha, clamp(high_passed_at(signal, alpha, k - 1) + signal[k] - signal[k - 1]))
    }
}

/// The high-passed signal.
pub open spec fn high_passed(signal: Seq<i64>, alpha: i64) -> Seq<i64> {
    Seq::new(signal.len(), |k: int| high_passed_at(signal, alpha, k))
}

/// For a positive cutoff the denominator is positive and both fractions fit the wide type.
pub proof fn lemma_pole_bounds(cutoff: i64, rate: u32)
    requires
        cutoff > 0,
    ensures
        0 < TAU * cutoff <= 6_283_185_307 * 0x7FFF_FFFF_FFFF_FFFF,
        0 <= rate * ONE * ONE <= 0xFFFF_FFFF * 1_000_000_000_000_000_000,
        0 < pole_denominator(cutoff, rate),
        TAU * cutoff * ONE == (TAU * cutoff) * 1_000_000_000,
        rate * ONE * ONE * ONE == (rate * ONE * ONE) * 1_000_000_000,
{
}

/// Computes the low-pass coefficient.
pub fn low_pass_alpha_of(cutoff: i64, rate: u32) -> (alpha: i64)
    requires
        cutoff > 0,
    ensures
        alpha == low_pass_alpha(cutoff, rate),
{
    proof {
        lemma_pole_bounds(cutoff, rate);
    }
    let span: i128 = 6_283_185_307 * (cutoff as i128);
    let base: i128 = (rate as i128) * 1_000_000_000_000_000_000;
    saturate(divide(span * 1_000_000_000, base + span))
}

/// Computes the high-pass coefficient.
pub fn high_pass_alpha_of(cutoff: i64, rate: u32) -> (alpha: i64)
    requires
        cutoff > 0,
    ensures
        alpha == high_pass_alpha(cutoff, rate),
{
    proof {
        lemma_pole_bounds(cutoff, rate);
    }
    let span: i128 = 6_283_185_307 * (cutoff as i128);
    let base: i128 = (rate as i128) * 1_000_000_000_000_000_000;
    saturate(divide(base * 1_000_000_000, base + span))
}

/// Low-passes the buffer in place with the given coefficient.
pub fn low_pass(waveform: &mut Vec<i64>, alpha: i64)
    ensures
        final(waveform)@ == low_passed(old(waveform)@, alpha),
{
    let n: usize = waveform.len();
    if n == 0 {
        return ;
    }
    let mut previous: i64 = waveform[0];
    let mut i: usize = 1;
    while i < n
        invariant
            1 <= i <= n,
            n == waveform@.len(),
            n == old(waveform)@.len(),
            previous == low_passed_at(old(waveform)@, alpha, i - 1),
            forall|k: int| 0 <= k < i ==> waveform@[k] == low_passed_at(old(waveform)@, alpha, k),
            forall|k: int| i <= k < n ==> waveform@[k] == old(waveform)@[k],
        decreases n - i,
    {
        let filtered: i64 = times(alpha, plus(waveform[i], previous));
        waveform.set(i, filtered);
        previous = filtered;
        i += 1;
    }
}

/// High-passes the buffer in place with the given coefficient.
pub fn high_pass(waveform: &mut Vec<i64>, alpha: i64)
    ensures
        final(waveform)@ == high_passed(old(waveform)@, alpha),
{
    let n: usize = waveform.len();
    if n == 0 {
        return ;
    }
    let mut previous_raw: i64 = waveform[0];
    let mut previous_out: i64 = waveform[0];
    let mut i: usize = 1;
    while i < n
        invariant
            1 <= i <= n,
            n == waveform@.len(),
            n == old(waveform)@.len(),
            previous_raw == old(waveform)@[i - 1],
            previous_out == high_passed_at(old(waveform)@, alpha, i - 1),
            forall|k: int| 0 <= k < i ==> waveform@[k] == high_passed_at(old(waveform)@, alpha, k),
            forall|k: int| i <= k < n ==> waveform@[k] == old(waveform)@[k],
        decreases n - i,
    {
        let current: i64 = waveform[i];
        let step: i64 = saturate(previous_out as i128 + current as i128 - previous_raw as i128);
        let filtered: i64 = times(alpha, step);
        waveform.set(i, filtered);
        previous_raw = current;
        previous_out = filtered;
        i += 1;
    }
}

impl WavGenerator {
    /// The buffer after the low-pass stage: filtered if a cutoff is set, else unchanged.
    pub open spec fn after_low_pass(&self, signal: Seq<i64>) -> Seq<i64> {
        match self.low_pass_filter {
            Some(cutoff) => low_passed(signal, low_pass_alpha(cutoff, self.sample_rate)),
            None => signal,
        }
    }

    /// The buffer after the high-pass stage: filtered if a cutoff is set, else unchanged.
    pub open spec fn after_high_pass(&self, signal: Seq<i64>) -> Seq<i64> {
        match self.high_pass_filter {
            Some(cutoff) => high_passed(signal, high_pass_alpha(cutoff, self.sample_rate)),
            None => signal,
        }
    }

    /// Applies the low-pass filter, if one is configured.
    pub fn apply_low_pass_filter(&self, waveform: &mut Vec<i64>)
        requires
            !cutoff_unusable(self.low_pass_filter),
        ensures
            final(waveform)@ == self.after_low_pass(old(waveform)@),
    {
        if let Some(cutoff) = self.low_pass_filter {
            let alpha: i64 = low_pass_alpha_of(cutoff, self.sample_rate);
            low_pass(waveform, alpha);
        }
    }

    /// Applies the high-pass filter, if one is configured.
    pub fn apply_high_pass_filter(&self, waveform: &mut Vec<i64>)
        requires
            !cutoff_unusable(self.high_pass_filter),
        ensures
            final(waveform)@ == self.after_high_pass(old(waveform)@),
    {
        if let Some(cutoff) = self.high_pass_filter {
            let alpha: i64 = high_pass_alpha_of(cutoff, self.sample_rate);
            high_pass(waveform, alpha);
        }
    }
}

} // verus!
