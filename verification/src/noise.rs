//! White and pink noise.
//!
//! Random numbers come from the `rand` crate and nothing is known of them but their range.
//! Everything that is done with them is a function of the numbers drawn: `PinkNoise::advance`
//! and `WavGenerator::mix_noise` take the draws as arguments and are exact, while
//! `PinkNoise::next` and `WavGenerator::add_noise` draw and then call them.

use vstd::prelude::*;
use rand::Rng;
use crate::fixed::{ONE, sum, product, quotient, plus, times, divide};
use crate::config::{WavGenerator, NoiseColor};

verus! {

/// The number of rows of the pink noise generator.
pub const ROWS: usize = 16;

/// The thread-local random number generator of `rand`.
#[verifier::external_type_specification]
#[verifier::external_body]
pub struct ExThreadRng(rand::rngs::ThreadRng);

/// `rand::thread_rng` hands out the calling thread's generator; nothing is claimed of it.
pub assume_specification[ rand::thread_rng ]() -> (rng: rand::rngs::ThreadRng);

/// `Rng::gen_range` on the half-open range `low..high` of `i64`: the value drawn lies in the
/// range. The range must not be empty, or the call would panic.
#[verifier::external_body]
fn draw_between(rng: &mut rand::rngs::ThreadRng, low: i64, high: i64) -> (r: i64)
    requires
        low < high,
    ensures
        low <= r < high,
{
    rng.gen_range(low..high)
}

/// `rand::random` for a `u32`: any value may come back.
#[verifier::external_body]
fn random_word() -> (w: u32) {
    rand::random::<u32>()
}

/// The value in `-ONE .. ONE` that a random word stands for: the word as a fraction of
/// 2^32, doubled, less one.
pub open spec fn unit_from_word(word: u32) -> int {
    word * 2 * ONE / 0x1_0000_0000 - ONE
}

/// Maps a random word evenly onto `-ONE .. ONE`.
pub fn unit_of_word(word: u32) -> (r: i64)
    ensures
        r == unit_from_word(word),
        -ONE <= r < ONE,
{
    let wide: u64 = (word as u64) * 2_000_000_000;
    (wide / 0x1_0000_0000) as i64 - 1_000_000_000
}

/// Whether a call that finds the counter at `calls` draws row `row` afresh: the very first
/// call draws every row, any other call the rows whose bit is set in the counter.
pub open spec fn refreshed(calls: u64, row: u64) -> bool {
    calls == 0 || (calls >> row) & 1 == 1
}

/// The rows after a call: the refreshed ones taken from `fresh`, the others kept.
pub open spec fn refreshed_rows(rows: Seq<i64>, calls: u64, fresh: Seq<i64>) -> Seq<i64> {
    Seq::new(
        rows.len(),
        |r: int|
            if refreshed(calls, r as u64) {
                fresh[r]
            } else {
                rows[r]
            },
    )
}

/// The exact sum of the rows.
pub open spec fn total(rows: Seq<i64>) -> int
    decreases rows.len(),
{
    if rows.len() == 0 {
        0
    } else {
        total(rows.drop_last()) + rows.last()
    }
}

/// The mean of the rows, cut toward zero.
pub open spec fn mean(rows: Seq<i64>) -> int
    recommends
        rows.len() > 0,
{
    quotient(total(rows), rows.len() as int)
}

/// Whether every value lies between minus one and one.
pub open spec fn within_unit(values: Seq<i64>) -> bool {
    forall|i: int| 0 <= i < values.len() ==> -ONE <= #[trigger] values[i] <= ONE
}

/// The counter after one more call; it starts over after 2^64 calls.
pub open spec fn next_calls(calls: u64) -> u64 {
    if calls == u64::MAX {
        0
    } else {
        (calls + 1) as u64
    }
}

/// The sum of values within the unit interval is within as many units.
pub proof fn lemma_total_bound(rows: Seq<i64>)
    requires
        within_unit(rows),
    ensures
        -ONE * rows.len() <= total(rows) <= ONE * rows.len(),
    decreases rows.len(),
{
    if rows.len() > 0 {
        lemma_total_bound(rows.drop_last());
    }
}

/// The mean of values within the unit interval is within it too.
pub proof fn lemma_mean_bound(rows: Seq<i64>)
    requires
        within_unit(rows),
        rows.len() > 0,
    ensures
        -ONE <= mean(rows) <= ONE,
{
    lemma_total_bound(rows);
    let t = total(rows);
    let n = rows.len() as int;
    let o = ONE as int;
    if t >= 0 {
        assert(t / n <= o) by (nonlinear_arith)
            requires
                0 <= t <= o * n,
                n > 0,
        ;
        assert(0 <= t / n) by (nonlinear_arith)
            requires
                0 <= t,
                n > 0,
        ;
    } else {
        let u = -t;
        assert(u / n <= o) by (nonlinear_arith)
            requires
                0 <= u <= o * n,
                n > 0,
        ;
        assert(0 <= u / n) by (nonlinear_arith)
            requires
                0 <= u,
                n > 0,
        ;
    }
}

/// A pink noise generator after Voss and McCartney: sixteen rows of random values, of which
/// row `r` is redrawn on every 2^r-th call or so, and whose mean is the output.
#[derive(Debug)]
pub struct PinkNoise {
    rows: Vec<i64>,
    index: u64,
}

impl PinkNoise {
    /// The current row values.
    pub closed spec fn rows(&self) -> Seq<i64> {
        self.rows@
    }

    /// The number of calls made so far.
    pub closed spec fn calls(&self) -> u64 {
        self.index
    }

    /// There are sixteen rows, each within the unit interval.
    pub open spec fn wf(&self) -> bool {
        &&& self.rows().len() == ROWS
        &&& within_unit(self.rows())
    }

    /// A generator that has not been called: all rows at zero.
    pub fn new() -> (g: PinkNoise)
        ensures
            g.wf(),
            g.calls() == 0,
            g.rows() == Seq::new(ROWS as nat, |r: int| 0i64),
    {
        let mut rows: Vec<i64> = Vec::new();
        let mut r: usize = 0;
        while r < ROWS
            invariant
                r <= ROWS,
                rows@.len() == r,
                forall|k: int| 0 <= k < r ==> rows@[k] == 0,
            decreases ROWS - r,
        {
            rows.push(0);
            r += 1;
        }
        PinkNoise { rows, index: 0 }
    }

    /// How many calls have been made, up to the counter's wrap.
    pub fn call_count(&self) -> (n: u64)
        ensures
            n == self.calls(),
    {
        self.index
    }

    /// One call with the random values given: row `r` takes `fresh[r]` if it is due, the
    /// output is the mean of the rows after that, and the counter moves on.
    pub fn advance(&mut self, fresh: &Vec<i64>) -> (out: i64)
        requires
            old(self).wf(),
            fresh@.len() == ROWS,
            within_unit(fresh@),
        ensures
            final(self).wf(),
            final(self).rows() == refreshed_rows(old(self).rows(), old(self).calls(), fresh@),
            final(self).calls() == next_calls(old(self).calls()),
            out == mean(final(self).rows()),
            -ONE <= out <= ONE,
    {
        let ghost before = self.rows@;
        let calls: u64 = self.index;
        let mut bits: u64 = calls;
        let mut sum: i128 = 0;
        let mut r: usize = 0;
        assert(calls >> 0 == calls) by (bit_vector);
        while r < ROWS
            invariant
                r <= ROWS,
                calls == self.index,
                self.rows@.len() == ROWS,
                before.len() == ROWS,
                fresh@.len() == ROWS,
                within_unit(fresh@),
                within_unit(before),
                bits == calls >> (r as u64),
                forall|k: int|
                    0 <= k < r ==> self.rows@[k] == if refreshed(calls, k as u64) {
                        fresh@[k]
                    } else {
                        before[k]
                    },
                forall|k: int| r <= k < ROWS ==> self.rows@[k] == before[k],
                sum == total(self.rows@.take(r as int)),
                -1_000_000_000 * r <= sum <= 1_000_000_000 * r,
            decreases ROWS - r,
        {
            let ghost kept = self.rows@;
            if calls == 0 || bits & 1 == 1 {
                self.rows.set(r, fresh[r]);
            }
            proof {
                assert(self.rows@.take(r as int) =~= kept.take(r as int));
                assert(-ONE <= before[r as int] <= ONE);
                let now = self.rows@.take(r + 1);
                assert(now.drop_last() =~= self.rows@.take(r as int));
                let w: u64 = r as u64;
                assert((calls >> w) >> 1 == calls >> ((w + 1) as u64)) by (bit_vector)
                    requires
                        w < 16,
                ;
            }
            sum = sum + self.rows[r] as i128;
            bits = bits >> 1;
            r += 1;
        }
        proof {
            assert(self.rows@.take(ROWS as int) =~= self.rows@);
            lemma_mean_bound(self.rows@);
        }
        self.index = if calls == u64::MAX {
            0
        } else {
            calls + 1
        };
        divide(sum, ROWS as i128) as i64
    }

    /// Draws the random values for one call: a fresh one for every row that is due, zero
    /// for the rows that are kept and so take no value.
    fn draw_rows(&self) -> (fresh: Vec<i64>)
        ensures
            fresh@.len() == ROWS,
            within_unit(fresh@),
    {
        let calls: u64 = self.index;
        let mut bits: u64 = calls;
        let mut fresh: Vec<i64> = Vec::new();
        let mut r: usize = 0;
        while r < ROWS
            invariant
                r <= ROWS,
                fresh@.len() == r,
                within_unit(fresh@),
            decreases ROWS - r,
        {
            let value: i64 = if calls == 0 || bits & 1 == 1 {
                unit_of_word(random_word())
            } else {
                0
            };
            fresh.push(value);
            bits = bits >> 1;
            r += 1;
        }
        fresh
    }

    /// One call with random values of its own: for some sixteen values within the unit
    /// interval this is `advance` on them.
    pub fn next(&mut self) -> (out: i64)
        requires
            old(self).wf(),
        ensures
            final(self).wf(),
            final(self).calls() == next_calls(old(self).calls()),
            exists|fresh: Seq<i64>|
                fresh.len() == ROWS && within_unit(fresh) && #[trigger] refreshed_rows(
                    old(self).rows(),
                    old(self).calls(),
                    fresh,
                ) == final(self).rows(),
            out == mean(final(self).rows()),
            -ONE <= out <= ONE,
    {
        let fresh: Vec<i64> = self.draw_rows();
        self.advance(&fresh)
    }
}

/// Draws `count` values of white noise, each within the unit interval.
pub fn white_series(count: usize) -> (draws: Vec<i64>)
    ensures
        draws@.len() == count,
        within_unit(draws@),
{
    let mut rng: rand::rngs::ThreadRng = rand::thread_rng();
    let mut draws: Vec<i64> = Vec::new();
    let mut i: usize = 0;
    while i < count
        invariant
            i <= count,
            draws@.len() == i,
            within_unit(draws@),
        decreases count - i,
    {
        let value: i64 = draw_between(&mut rng, -1_000_000_000, 1_000_000_000);
        draws.push(value);
        i += 1;
    }
    draws
}

/// Draws `count` values of pink noise, each within the unit interval, from a generator
/// made for this one series.
pub fn pink_series(count: usize) -> (draws: Vec<i64>)
    ensures
        draws@.len() == count,
        within_unit(draws@),
{
    let mut pink: PinkNoise = PinkNoise::new();
    let mut draws: Vec<i64> = Vec::new();
    let mut i: usize = 0;
    while i < count
        invariant
            i <= count,
            draws@.len() == i,
            within_unit(draws@),
            pink.wf(),
        decreases count - i,
    {
        let value: i64 = pink.next();
        draws.push(value);
        i += 1;
    }
    draws
}

/// Draws the noise values for `count` samples: one value within the unit interval for
/// each sample if the colour is white or pink, none otherwise.
pub fn draw_series(color: NoiseColor, count: usize) -> (draws: Vec<i64>)
    ensures
        within_unit(draws@),
        color != NoiseColor::Silent ==> draws@.len() == count,
{
    match color {
        NoiseColor::White => white_series(count),
        NoiseColor::Pink => pink_series(count),
        NoiseColor::Silent => Vec::new(),
    }
}

/// Noise values for a signal that takes none: all zero.
pub open spec fn no_noise(length: nat) -> Seq<i64> {
    Seq::new(length, |i: int| 0i64)
}

impl WavGenerator {
    /// Whether noise is added: a colour is named and it is white or pink.
    pub open spec fn noisy(&self) -> bool {
        self.noise() == Some(NoiseColor::White) || self.noise() == Some(NoiseColor::Pink)
    }

    /// The signal with the noise `draws` added at `noise_volume`; unchanged if no noise is
    /// to be added.
    pub open spec fn noised(&self, signal: Seq<i64>, draws: Seq<i64>) -> Seq<i64> {
        if self.noisy() {
            Seq::new(signal.len(), |i: int| sum(signal[i], product(draws[i], self.noise_volume)))
        } else {
            signal
        }
    }

    /// Adds the given noise values, scaled by `noise_volume`, sample by sample.
    pub fn mix_noise(&self, waveform: &mut Vec<i64>, draws: &Vec<i64>)
        requires
            self.noisy() ==> draws@.len() >= old(waveform)@.len(),
        ensures
            final(waveform)@ == self.noised(old(waveform)@, draws@),
    {
        let noisy: bool = match self.noise_kind() {
            Some(NoiseColor::White) => true,
            Some(NoiseColor::Pink) => true,
            _ => false,
        };
        if !noisy {
            return ;
        }
        let n: usize = waveform.len();
        let mut i: usize = 0;
        while i < n
            invariant
                i <= n,
                n == waveform@.len(),
                n == old(waveform)@.len(),
                draws@.len() >= n,
                forall|k: int|
                    0 <= k < i ==> waveform@[k] == sum(
                        old(waveform)@[k],
                        product(draws@[k], self.noise_volume),
                    ),
                forall|k: int| i <= k < n ==> waveform@[k] == old(waveform)@[k],
            decreases n - i,
        {
            let sample: i64 = plus(waveform[i], times(draws[i], self.noise_volume));
            waveform.set(i, sample);
            i += 1;
        }
    }

    /// Adds white or pink noise at `noise_volume`: for some noise values within the unit
    /// interval, one per sample, this is `mix_noise` on them.
    pub fn add_noise(&self, waveform: &mut Vec<i64>)
        ensures
            exists|draws: Seq<i64>|
                draws.len() == old(waveform)@.len() && within_unit(draws) && #[trigger] self.noised(
                    old(waveform)@,
                    draws,
                ) == final(waveform)@,
    {
        match self.noise_kind() {
            Some(color) => {
                let draws: Vec<i64> = draw_series(color, waveform.len());
                self.mix_noise(waveform, &draws);
                proof {
                    let witness = if color == NoiseColor::Silent {
                        no_noise(old(waveform)@.len())
                    } else {
                        draws@
                    };
                    assert(self.noised(old(waveform)@, witness) == waveform@);
                }
            },
            None => {
                assert(self.noised(old(waveform)@, no_noise(old(waveform)@.len())) == waveform@);
            },
        }
    }
}

} // verus!
