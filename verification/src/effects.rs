//! The fades, the feedback delay and the peak normalizer.

use vstd::prelude::*;
use crate::fixed::{
    ONE, sum, product, scaled, plus, times, scale, scale_by_count, lemma_scaled_zero,
    lemma_scaled_by_zero, lemma_scaled_whole, lemma_quotient_monotone,
};
use crate::config::{WavGenerator, frame_count, frames};

verus! {

/// Sample `k` after the fades over a signal of `total` samples.
///
/// The first `fade_in` samples are scaled by `k / fade_in`, a ramp from zero up. The last
/// `fade_out` samples are scaled by `(total - k) / fade_out`, a ramp down that would reach
/// zero one sample past the end. A fade longer than the signal is cut off at the signal's
/// bounds: only the part of its ramp that falls on existing samples is applied.
pub open spec fn faded_at(sample: i64, k: int, total: int, fade_in: int, fade_out: int) -> i64 {
    let risen = if k < fade_in {
        scaled(sample, k, fade_in)
    } else {
        sample
    };
    if k + fade_out >= total && fade_out > 0 {
        scaled(risen, total - k, fade_out)
    } else {
        risen
    }
}

/// The signal after both fades.
pub open spec fn faded(signal: Seq<i64>, fade_in: nat, fade_out: nat) -> Seq<i64> {
    Seq::new(
        signal.len(),
        |k: int| faded_at(signal[k], k, signal.len() as int, fade_in as int, fade_out as int),
    )
}

/// Sample `k` after the feedback delay: every sample from `delay` on gains `amount` times
/// the finished sample `delay` places before it, so echoes of echoes build up.
pub open spec fn echoed_at(signal: Seq<i64>, delay: nat, amount: i64, k: int) -> i64
    recommends
        0 <= k < signal.len(),
    decreases k,
{
    if delay == 0 {
        sum(signal[k], product(signal[k], amount))
    } else if k < delay {
        signal[k]
    } else {
        sum(signal[k], product(echoed_at(signal, delay, amount, k - delay), amount))
    }
}

/// The signal after the feedback delay.
pub open spec fn echoed(signal: Seq<i64>, delay: nat, amount: i64) -> Seq<i64> {
    Seq::new(signal.len(), |k: int| echoed_at(signal, delay, amount, k))
}

/// The delay of the echo at `rate` samples per second: a tenth of a second.
pub open spec fn echo_delay(rate: u32) -> nat {
    frame_count(rate, 100_000_000)
}

/// The signed peak: the largest sample, or zero if no sample is positive.
pub open spec fn peak(signal: Seq<i64>) -> int
    decreases signal.len(),
{
    if signal.len() == 0 {
        0
    } else {
        let rest = peak(signal.drop_last());
        if signal.last() > rest {
            signal.last() as int
        } else {
            rest
        }
    }
}

/// The signal scaled so that its signed peak becomes `ONE`. A signal without a positive
/// sample, an empty one included, has no peak to scale by and stays as it is.
pub open spec fn normalized(signal: Seq<i64>) -> Seq<i64> {
    if peak(signal) <= 0 {
        signal
    } else {
        Seq::new(signal.len(), |k: int| scaled(signal[k], ONE as int, peak(signal)))
    }
}

/// The peak is not negative, bounds every sample, and is zero or one of the samples.
pub proof fn lemma_peak_bounds(signal: Seq<i64>)
    ensures
        0 <= peak(signal) <= i64::MAX,
        forall|k: int| 0 <= k < signal.len() ==> signal[k] <= peak(signal),
        peak(signal) > 0 ==> exists|k: int| 0 <= k < signal.len() && signal[k] == peak(signal),
    decreases signal.len(),
{
    if signal.len() > 0 {
        let front = signal.drop_last();
        lemma_peak_bounds(front);
        assert forall|k: int| 0 <= k < signal.len() implies signal[k] <= peak(signal) by {
            if k < front.len() {
                assert(front[k] == signal[k]);
            }
        }
        if peak(signal) > 0 && signal.last() <= peak(front) {
            let k = choose|k: int| 0 <= k < front.len() && front[k] == peak(front);
            assert(signal[k] == peak(signal));
        }
    }
}

/// A bound that is reached, and is not negative, is the peak.
pub proof fn lemma_peak_is(signal: Seq<i64>, top: int, at: int)
    requires
        0 <= top,
        forall|k: int| 0 <= k < signal.len() ==> signal[k] <= top,
        0 <= at < signal.len(),
        signal[at] == top,
    ensures
        peak(signal) == top,
{
    lemma_peak_bounds(signal);
}

/// After normalization the largest sample is exactly `ONE`, whenever the signal had a
/// positive sample to begin with.
pub proof fn lemma_normalized_peak(signal: Seq<i64>)
    requires
        peak(signal) > 0,
    ensures
        peak(normalized(signal)) == ONE,
        forall|k: int| 0 <= k < signal.len() ==> normalized(signal)[k] <= ONE,
        exists|k: int| 0 <= k < signal.len() && normalized(signal)[k] == ONE,
{
    lemma_peak_bounds(signal);
    let p = peak(signal);
    let out = normalized(signal);
    let at = choose|k: int| 0 <= k < signal.len() && signal[k] == p;
    lemma_scaled_whole(ONE, p);
    assert(out[at] == ONE);
    assert forall|k: int| 0 <= k < out.len() implies out[k] <= ONE by {
        let o = ONE as int;
        let s = signal[k] as int;
        assert(s * o <= p * o) by (nonlinear_arith)
            requires
                s <= p,
                o > 0,
        ;
        lemma_quotient_monotone(s * o, p * o, p);
    }
    lemma_peak_is(out, ONE as int, at);
}

/// With an amount of zero the feedback delay changes nothing.
pub proof fn lemma_echo_of_nothing(signal: Seq<i64>, delay: nat)
    ensures
        echoed(signal, delay, 0) == signal,
{
    assert forall|k: int| 0 <= k < signal.len() implies echoed_at(signal, delay, 0, k)
        == signal[k] by {
        lemma_echo_of_nothing_at(signal, delay, k);
    }
}

/// With an amount of zero every sample keeps its value, whatever came before it.
pub proof fn lemma_echo_of_nothing_at(signal: Seq<i64>, delay: nat, k: int)
    requires
        0 <= k < signal.len(),
    ensures
        echoed_at(signal, delay, 0, k) == signal[k],
{
    if delay == 0 {
        lemma_scaled_by_zero(signal[k], ONE as int);
    } else if k >= delay {
        lemma_scaled_by_zero(echoed_at(signal, delay, 0, k - delay), ONE as int);
    }
}

/// Without fade times the fades change nothing.
pub proof fn lemma_fade_of_nothing(signal: Seq<i64>)
    ensures
        faded(signal, 0, 0) == signal,
{
}

/// Scaling by a larger share moves a sample further from zero, or leaves it.
pub proof fn lemma_scaled_monotone(x: i64, a: int, b: int, den: int)
    requires
        0 <= a <= b,
        den > 0,
    ensures
        x >= 0 ==> 0 <= scaled(x, a, den) <= scaled(x, b, den),
        x <= 0 ==> 0 >= scaled(x, a, den) >= scaled(x, b, den),
{
    let v = x as int;
    if v >= 0 {
        assert(0 <= v * a <= v * b) by (nonlinear_arith)
            requires
                v >= 0,
                0 <= a <= b,
        ;
        lemma_quotient_monotone(0, v * a, den);
        lemma_quotient_monotone(v * a, v * b, den);
    }
    if v <= 0 {
        assert(0 >= v * a >= v * b) by (nonlinear_arith)
            requires
                v <= 0,
                0 <= a <= b,
        ;
        lemma_quotient_monotone(v * a, 0, den);
        lemma_quotient_monotone(v * b, v * a, den);
    }
}

/// The fades never raise a sample: each stays between zero and what it was.
pub proof fn lemma_fade_never_amplifies(signal: Seq<i64>, fade_in: nat, fade_out: nat, k: int)
    requires
        0 <= k < signal.len(),
    ensures
        signal[k] >= 0 ==> 0 <= faded(signal, fade_in, fade_out)[k] <= signal[k],
        signal[k] <= 0 ==> 0 >= faded(signal, fade_in, fade_out)[k] >= signal[k],
        fade_in > 0 ==> faded(signal, fade_in, fade_out)[0] == 0,
{
    let total = signal.len() as int;
    let sample = signal[k];
    let risen = if k < fade_in {
        scaled(sample, k, fade_in as int)
    } else {
        sample
    };
    if k < fade_in {
        lemma_scaled_monotone(sample, 0, k, fade_in as int);
        lemma_scaled_monotone(sample, k, fade_in as int, fade_in as int);
        lemma_scaled_whole(sample, fade_in as int);
        lemma_scaled_by_zero(sample, fade_in as int);
    }
    if k + fade_out >= total && fade_out > 0 {
        lemma_scaled_monotone(risen, 0, total - k, fade_out as int);
        lemma_scaled_monotone(risen, total - k, fade_out as int, fade_out as int);
        lemma_scaled_whole(risen, fade_out as int);
        lemma_scaled_by_zero(risen, fade_out as int);
    }
    if fade_in > 0 {
        lemma_scaled_by_zero(signal[0], fade_in as int);
        if fade_out >= total {
            lemma_scaled_zero(total, fade_out as int);
        }
    }
}

/// A fade-in and a fade-out that together are as long as the signal shape every sample by
/// one ramp only, the fade-in up to its end and the fade-out from there on, and neither
/// ramp ever turns back: a level that stands one sample later comes out no nearer to zero
/// through the fade-in, and no further from zero through the fade-out.
pub proof fn lemma_fade_halves_monotone(level: i64, k: int, total: int, fade_in: nat, fade_out: nat)
    requires
        fade_in + fade_out == total,
        0 <= k,
        k + 1 < total,
    ensures
        k < fade_in ==> faded_at(level, k, total, fade_in as int, fade_out as int) == scaled(
            level,
            k,
            fade_in as int,
        ),
        k >= fade_in ==> faded_at(level, k, total, fade_in as int, fade_out as int) == scaled(
            level,
            total - k,
            fade_out as int,
        ),
        k + 1 < fade_in && level >= 0 ==> 0 <= faded_at(
            level,
            k,
            total,
            fade_in as int,
            fade_out as int,
        ) <= faded_at(level, k + 1, total, fade_in as int, fade_out as int),
        k + 1 < fade_in && level <= 0 ==> 0 >= faded_at(
            level,
            k,
            total,
            fade_in as int,
            fade_out as int,
        ) >= faded_at(level, k + 1, total, fade_in as int, fade_out as int),
        k >= fade_in && level >= 0 ==> faded_at(level, k, total, fade_in as int, fade_out as int)
            >= faded_at(level, k + 1, total, fade_in as int, fade_out as int) >= 0,
        k >= fade_in && level <= 0 ==> faded_at(level, k, total, fade_in as int, fade_out as int)
            <= faded_at(level, k + 1, total, fade_in as int, fade_out as int) <= 0,
{
    if k + 1 < fade_in {
        lemma_scaled_monotone(level, k, k + 1, fade_in as int);
    }
    if k >= fade_in {
        lemma_scaled_monotone(level, total - (k + 1), total - k, fade_out as int);
    }
}

impl WavGenerator {
    /// The buffer after the fade stage.
    pub open spec fn after_fades(&self, signal: Seq<i64>) -> Seq<i64> {
        faded(
            signal,
            frame_count(self.sample_rate, self.fade_in),
            frame_count(self.sample_rate, self.fade_out),
        )
    }

    /// The buffer after the reverb stage.
    pub open spec fn after_reverb(&self, signal: Seq<i64>) -> Seq<i64> {
        echoed(signal, echo_delay(self.sample_rate), self.reverb_amount)
    }

    /// Applies the fade-in and the fade-out, each once.
    pub fn apply_fades(&self, waveform: &mut Vec<i64>)
        ensures
            final(waveform)@ == self.after_fades(old(waveform)@),
    {
        let fade_in: usize = frames(self.sample_rate, self.fade_in);
        let fade_out: usize = frames(self.sample_rate, self.fade_out);
        let n: usize = waveform.len();
        let mut i: usize = 0;
        while i < n
            invariant
                i <= n,
                n == waveform@.len(),
                n == old(waveform)@.len(),
                forall|k: int|
                    0 <= k < i ==> waveform@[k] == faded_at(
                        old(waveform)@[k],
                        k,
                        n as int,
                        fade_in as int,
                        fade_out as int,
                    ),
                forall|k: int| i <= k < n ==> waveform@[k] == old(waveform)@[k],
            decreases n - i,
        {
            let mut sample: i64 = waveform[i];
            if i < fade_in {
                sample = scale_by_count(sample, i, fade_in);
            }
            if fade_out > 0 && fade_out >= n - i {
                sample = scale_by_count(sample, n - i, fade_out);
            }
            waveform.set(i, sample);
            i += 1;
        }
    }

    /// Applies the feedback delay of a tenth of a second with `reverb_amount` as its decay.
    pub fn apply_reverb(&self, waveform: &mut Vec<i64>)
        ensures
            final(waveform)@ == self.after_reverb(old(waveform)@),
    {
        let delay: usize = frames(self.sample_rate, 100_000_000);
        let amount: i64 = self.reverb_amount;
        let n: usize = waveform.len();
        if delay >= n {
            return ;
        }
        let mut i: usize = delay;
        while i < n
            invariant
                delay <= i <= n,
                n == waveform@.len(),
                n == old(waveform)@.len(),
                forall|k: int|
                    0 <= k < i ==> waveform@[k] == echoed_at(old(waveform)@, delay as nat, amount, k),
                forall|k: int| i <= k < n ==> waveform@[k] == old(waveform)@[k],
            decreases n - i,
        {
            let back: i64 = waveform[i - delay];
            let sample: i64 = plus(waveform[i], times(back, amount));
            waveform.set(i, sample);
            i += 1;
        }
    }

    /// Scales the buffer so that its largest sample becomes `ONE`; a buffer without a
    /// positive sample is left unchanged.
    pub fn normalize_channels(&self, waveform: &mut Vec<i64>)
        ensures
            final(waveform)@ == normalized(old(waveform)@),
    {
        let n: usize = waveform.len();
        let mut top: i64 = 0;
        let mut i: usize = 0;
        while i < n
            invariant
                i <= n,
                n == waveform@.len(),
                waveform@ == old(waveform)@,
                top == peak(waveform@.take(i as int)),
            decreases n - i,
        {
            proof {
                assert(waveform@.take(i + 1).drop_last() =~= waveform@.take(i as int));
            }
            if waveform[i] > top {
                top = waveform[i];
            }
            i += 1;
        }
        assert(waveform@.take(n as int) =~= waveform@);
        if top <= 0 {
            return ;
        }
        let mut j: usize = 0;
        while j < n
            invariant
                j <= n,
                n == waveform@.len(),
                n == old(waveform)@.len(),
                top == peak(old(waveform)@),
                top > 0,
                forall|k: int|
                    0 <= k < j ==> waveform@[k] == scaled(old(waveform)@[k], ONE as int, top as int),
                forall|k: int| j <= k < n ==> waveform@[k] == old(waveform)@[k],
            decreases n - j,
        {
            let sample: i64 = scale(waveform[j], ONE, top);
            waveform.set(j, sample);
            j += 1;
        }
    }
}

} // verus!
