//! The level of an amplitude in decibels, `20 * log10(amplitude)`, in hundredths.
//!
//! The amplitude is first brought between one and ten by powers of ten, which gives the
//! whole part of its logarithm. The fraction follows bit by bit: squaring doubles the
//! logarithm, so a square of ten or more shows a one bit, and is brought back below ten.

use vstd::prelude::*;
use crate::sine::FINE;

verus! {

/// The number of fraction bits that are worked out.
pub const DEPTH: u8 = 32;

/// How often `size` must be multiplied by ten to reach at least `FINE`.
pub open spec fn lifts(size: nat) -> nat
    decreases
            (if size < FINE {
                FINE - size
            } else {
                0
            }),
{
    if size == 0 || size >= FINE {
        0
    } else {
        1 + lifts(size * 10)
    }
}

/// `size` multiplied by ten until it is at least `FINE`.
pub open spec fn lifted(size: nat) -> nat
    decreases
            (if size < FINE {
                FINE - size
            } else {
                0
            }),
{
    if size == 0 || size >= FINE {
        size
    } else {
        lifted(size * 10)
    }
}

/// The first `depth` bits of the fraction of the decimal logarithm of `mantissa / FINE`,
/// as a number below 2^32 that stands for a fraction of 2^32.
pub open spec fn log_fraction(mantissa: nat, depth: nat) -> nat
    decreases depth,
{
    if depth == 0 {
        0
    } else {
        let square = mantissa * mantissa / (FINE as nat);
        if square >= 10 * FINE {
            (0x1_0000_0000 + log_fraction(square / 10, (depth - 1) as nat)) / 2
        } else {
            log_fraction(square, (depth - 1) as nat) / 2
        }
    }
}

/// The level of a positive raw amplitude in hundredths of a decibel, to the nearest.
pub open spec fn centibels(amplitude: i64) -> int
    recommends
        amplitude > 0,
{
    let size = amplitude as nat;
    let whole = 9 - lifts(size);
    let part = log_fraction(lifted(size), DEPTH as nat);
    (2000 * (whole * 0x1_0000_0000 + part) + 0x8000_0000) / 0x1_0000_0000
}

/// Ten to the power of `steps`.
pub open spec fn power_of_ten(steps: nat) -> nat
    decreases steps,
{
    if steps == 0 {
        1
    } else {
        10 * power_of_ten((steps - 1) as nat)
    }
}

/// A size that `steps` multiplications by ten bring to `FINE` is lifted in at most as many.
pub proof fn lemma_lifts_bound(size: nat, steps: nat)
    requires
        0 < size,
        size * power_of_ten(steps) >= FINE,
    ensures
        lifts(size) <= steps,
    decreases steps,
{
    if size < FINE {
        if steps == 0 {
            assert(size * 1 == size);
        } else {
            let rest = power_of_ten((steps - 1) as nat);
            assert((size * 10) * rest == size * (10 * rest)) by (nonlinear_arith);
            lemma_lifts_bound(size * 10, (steps - 1) as nat);
        }
    }
}

/// Lifting takes at most eighteen steps and ends between `FINE` and ten times `FINE`.
pub proof fn lemma_lifted_range(size: nat)
    requires
        0 < size < 10 * FINE,
    ensures
        FINE <= lifted(size) < 10 * FINE,
        lifts(size) <= 18,
    decreases
            (if size < FINE {
                FINE - size
            } else {
                0
            }),
{
    if size < FINE {
        lemma_lifted_range(size * 10);
    }
    assert(power_of_ten(18) == FINE) by {
        reveal_with_fuel(power_of_ten, 19);
    }
    assert(size * power_of_ten(18) >= FINE) by (nonlinear_arith)
        requires
            size >= 1,
            power_of_ten(18) == FINE,
    ;
    lemma_lifts_bound(size, 18);
}

/// The fraction bits stay below 2^32, and the square of a mantissa below a hundred.
pub proof fn lemma_log_fraction_range(mantissa: nat, depth: nat)
    requires
        FINE <= mantissa < 10 * FINE,
    ensures
        log_fraction(mantissa, depth) < 0x1_0000_0000,
        FINE <= mantissa * mantissa / (FINE as nat) < 100 * FINE,
        mantissa * mantissa < 100 * FINE * FINE,
    decreases depth,
{
    let f = FINE as int;
    let m = mantissa as int;
    assert(f * f <= m * m < 100 * f * f) by (nonlinear_arith)
        requires
            f <= m < 10 * f,
            f > 0,
    ;
    let p = m * m;
    assert(f <= p / f < 100 * f) by (nonlinear_arith)
        requires
            f * f <= p < 100 * f * f,
            f > 0,
    ;
    if depth > 0 {
        let square = mantissa * mantissa / (FINE as nat);
        if square >= 10 * FINE {
            lemma_log_fraction_range(square / 10, (depth - 1) as nat);
        } else {
            lemma_log_fraction_range(square, (depth - 1) as nat);
        }
    }
}

/// Lifts a size to a mantissa and counts the steps.
fn lift(size: u64) -> (r: (u64, u8))
    requires
        0 < size < 10 * FINE,
    ensures
        r.0 == lifted(size as nat),
        r.1 == lifts(size as nat),
        FINE <= r.0 < 10 * FINE,
        r.1 <= 18,
    decreases
            (if size < FINE {
                FINE - size
            } else {
                0
            }),
{
    proof {
        lemma_lifted_range(size as nat);
    }
    if size >= FINE {
        (size, 0)
    } else {
        let r: (u64, u8) = lift(size * 10);
        (r.0, r.1 + 1)
    }
}

/// Works out the fraction bits of the logarithm of a mantissa.
fn fraction_bits(mantissa: u64, depth: u8) -> (bits: u64)
    requires
        FINE <= mantissa < 10 * FINE,
    ensures
        bits == log_fraction(mantissa as nat, depth as nat),
        bits < 0x1_0000_0000,
    decreases depth,
{
    proof {
        lemma_log_fraction_range(mantissa as nat, depth as nat);
    }
    if depth == 0 {
        0
    } else {
        let square: u128 = (mantissa as u128) * (mantissa as u128) / (FINE as u128);
        if square >= 10 * (FINE as u128) {
            (0x1_0000_0000 + fraction_bits((square / 10) as u64, depth - 1)) / 2
        } else {
            fraction_bits(square as u64, depth - 1) / 2
        }
    }
}

/// The level of a positive raw amplitude in hundredths of a decibel.
pub fn centibels_of(amplitude: i64) -> (level: i64)
    requires
        amplitude > 0,
    ensures
        level == centibels(amplitude),
        -18_000 <= level <= 20_000,
{
    let lifted: (u64, u8) = lift(amplitude as u64);
    let part: u64 = fraction_bits(lifted.0, DEPTH);
    let whole: i128 = 9 - (lifted.1 as i128);
    let wide: i128 = 2000 * (whole * 0x1_0000_0000 + part as i128) + 0x8000_0000;
    proof {
        vstd::arithmetic::div_mod::lemma_hoist_over_denominator(wide as int, 18_000, 0x1_0000_0000);
    }
    let raised: i128 = wide + 18_000 * 0x1_0000_0000;
    (raised / 0x1_0000_0000 - 18_000) as i64
}

} // verus!
