//! The constant offset and the additive sine partials.
//!
//! All partials of one sample are summed exactly before the sum is added to the sample and
//! clamped once, so the order in which the harmonics are listed cannot change a sample.

use vstd::prelude::*;
use crate::fixed::{clamp, sum, plus, saturate};
use crate::oscillator::{sine_wave, sine_wave_at};
use crate::config::WavGenerator;

verus! {

/// Every sample raised by `dc`.
pub open spec fn offset(signal: Seq<i64>, dc: i64) -> Seq<i64> {
    Seq::new(signal.len(), |i: int| sum(signal[i], dc))
}

/// The exact sum of all partials at sample `index`.
pub open spec fn partial_sum(partials: Seq<(i64, i64)>, shift: i64, rate: u32, index: nat) -> int
    recommends
        rate > 0,
    decreases partials.len(),
{
    if partials.len() == 0 {
        0
    } else {
        partial_sum(partials.drop_last(), shift, rate, index) + sine_wave(
            partials.last().1,
            partials.last().0,
            shift,
            rate,
            index,
        )
    }
}

/// The signal with all partials added.
pub open spec fn overlay(signal: Seq<i64>, partials: Seq<(i64, i64)>, shift: i64, rate: u32) -> Seq<i64>
    recommends
        rate > 0,
{
    Seq::new(signal.len(), |i: int| clamp(signal[i] + partial_sum(partials, shift, rate, i as nat)))
}

/// No partials add nothing.
pub proof fn lemma_overlay_nothing(signal: Seq<i64>, shift: i64, rate: u32)
    ensures
        overlay(signal, Seq::empty(), shift, rate) =~= signal,
{
}

/// An offset of zero changes nothing.
pub proof fn lemma_offset_nothing(signal: Seq<i64>)
    ensures
        offset(signal, 0) =~= signal,
{
}

/// The partials of two lists, one after the other, sum to the two lists' sums.
pub proof fn lemma_partial_sum_joined(
    left: Seq<(i64, i64)>,
    right: Seq<(i64, i64)>,
    shift: i64,
    rate: u32,
    index: nat,
)
    ensures
        partial_sum(left + right, shift, rate, index) == partial_sum(left, shift, rate, index)
            + partial_sum(right, shift, rate, index),
    decreases right.len(),
{
    if right.len() > 0 {
        assert((left + right).drop_last() =~= left + right.drop_last());
        lemma_partial_sum_joined(left, right.drop_last(), shift, rate, index);
    }
}

/// Two lists of harmonics give the same signal whichever of them comes first.
pub proof fn lemma_overlay_order(
    signal: Seq<i64>,
    left: Seq<(i64, i64)>,
    right: Seq<(i64, i64)>,
    shift: i64,
    rate: u32,
)
    ensures
        overlay(signal, left + right, shift, rate) == overlay(signal, right + left, shift, rate),
{
    assert forall|index: nat|
        partial_sum(left + right, shift, rate, index) == partial_sum(
            right + left,
            shift,
            rate,
            index,
        ) by {
        lemma_partial_sum_joined(left, right, shift, rate, index);
        lemma_partial_sum_joined(right, left, shift, rate, index);
    }
}

/// Two harmonics give the same signal in either order.
pub proof fn lemma_overlay_commutes(
    signal: Seq<i64>,
    first: (i64, i64),
    second: (i64, i64),
    shift: i64,
    rate: u32,
)
    ensures
        overlay(signal, seq![first, second], shift, rate) == overlay(
            signal,
            seq![second, first],
            shift,
            rate,
        ),
{
    assert(seq![first] + seq![second] =~= seq![first, second]);
    assert(seq![second] + seq![first] =~= seq![second, first]);
    lemma_overlay_order(signal, seq![first], seq![second], shift, rate);
}

/// The exact sum of all partials at one sample.
fn partial_total(partials: &Vec<(i64, i64)>, shift: i64, rate: u32, index: usize) -> (total: i128)
    requires
        rate > 0,
    ensures
        total == partial_sum(partials@, shift, rate, index as nat),
{
    let mut total: i128 = 0;
    let mut k: usize = 0;
    while k < partials.len()
        invariant
            k <= partials.len(),
            rate > 0,
            total == partial_sum(partials@.take(k as int), shift, rate, index as nat),
            -0x8000_0000_0000_0000 * k <= total <= 0x8000_0000_0000_0000 * k,
        decreases partials.len() - k,
    {
        let pair: (i64, i64) = partials[k];
        let term: i64 = sine_wave_at(pair.1, pair.0, shift, rate, index);
        proof {
            let next = partials@.take(k + 1);
            assert(next.drop_last() =~= partials@.take(k as int));
        }
        total = total + term as i128;
        k += 1;
    }
    assert(partials@.take(k as int) =~= partials@);
    total
}

impl WavGenerator {
    /// Adds the constant `dc_offset` to every sample.
    pub fn apply_dc_offset(&self, waveform: &mut Vec<i64>)
        ensures
            final(waveform)@ == offset(old(waveform)@, self.dc_offset),
    {
        let n: usize = waveform.len();
        let mut i: usize = 0;
        while i < n
            invariant
                i <= n,
                n == waveform@.len(),
                n == old(waveform)@.len(),
                forall|k: int| 0 <= k < i ==> waveform@[k] == sum(old(waveform)@[k], self.dc_offset),
                forall|k: int| i <= k < n ==> waveform@[k] == old(waveform)@[k],
            decreases n - i,
        {
            let raised: i64 = plus(waveform[i], self.dc_offset);
            waveform.set(i, raised);
            i += 1;
        }
    }

    /// The phase shift is part of the oscillator and of every harmonic, so there is nothing
    /// left to apply to a finished buffer: the samples stay as they are.
    pub fn apply_phase_shift(&self, waveform: &mut Vec<i64>)
        ensures
            final(waveform)@ == old(waveform)@,
    {
    }

    /// Adds every harmonic, a sine partial at the shared phase shift, to the buffer.
    pub fn add_harmonics(&self, waveform: &mut Vec<i64>)
        requires
            self.sample_rate > 0,
        ensures
            final(waveform)@ == overlay(
                old(waveform)@,
                self.partials(),
                self.phase_shift,
                self.sample_rate,
            ),
    {
        match &self.harmonics {
            Some(list) => {
                let n: usize = waveform.len();
                let mut i: usize = 0;
                while i < n
                    invariant
                        i <= n,
                        n == waveform@.len(),
                        n == old(waveform)@.len(),
                        self.sample_rate > 0,
                        list@ == self.partials(),
                        forall|k: int|
                            0 <= k < i ==> waveform@[k] == clamp(
                                old(waveform)@[k] + partial_sum(
                                    list@,
                                    self.phase_shift,
                                    self.sample_rate,
                                    k as nat,
                                ),
                            ),
                        forall|k: int| i <= k < n ==> waveform@[k] == old(waveform)@[k],
                    decreases n - i,
                {
                    let total: i128 = partial_total(list, self.phase_shift, self.sample_rate, i);
                    let bounded: i128 = if total > 0x1_0000_0000_0000_0000 {
                        0x1_0000_0000_0000_0000
                    } else if total < -0x1_0000_0000_0000_0000 {
                        -0x1_0000_0000_0000_0000
                    } else {
                        total
                    };
                    let mixed: i64 = saturate(waveform[i] as i128 + bounded);
                    waveform.set(i, mixed);
                    i += 1;
                }
                assert(waveform@ =~= overlay(
                    old(waveform)@,
                    self.partials(),
                    self.phase_shift,
                    self.sample_rate,
                ));
            },
            None => {
                proof {
                    lemma_overlay_nothing(old(waveform)@, self.phase_shift, self.sample_rate);
                }
            },
        }
    }
}

} // verus!
