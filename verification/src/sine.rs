//! A fixed-point sine over binary angles.
//!
//! An angle is a `u32` that counts 2^-32 turns, so angle arithmetic wraps exactly where the
//! sine repeats. The first eighth of a turn is evaluated by the sine series and the second by
//! the cosine series of the complementary angle, both in nested form, where every intermediate
//! value lies between zero and one; the other quadrants follow by symmetry.

use vstd::prelude::*;
use crate::fixed::ONE;

verus! {

/// A quarter of a turn.
pub const QUADRANT: u32 = 0x4000_0000;

/// Half a turn.
pub const HALF_TURN: u32 = 0x8000_0000;

/// The scale of the series' intermediate values: 10^18 stands for 1.0.
pub const FINE: u64 = 1_000_000_000_000_000_000;

/// A quarter of the circle's circumference, pi / 2, in units of 1 / `FINE`.
pub const HALF_PI: u64 = 1_570_796_326_794_896_619;

/// `1 - (square * inner) / divisor`, one bracket of a nested alternating series.
pub open spec fn series_step(square: int, divisor: int, inner: int) -> int {
    FINE - (square * inner / (FINE as int)) / divisor
}

/// The sine series through the term of degree 13, for an arc `y` of at most 1.0.
pub open spec fn sine_series(y: int) -> int {
    let s = y * y / (FINE as int);
    y * series_step(
        s,
        6,
        series_step(
            s,
            20,
            series_step(s, 42, series_step(s, 72, series_step(s, 110, series_step(s, 156, FINE as int)))),
        ),
    ) / (FINE as int)
}

/// The cosine series through the term of degree 12, for an arc `y` of at most 1.0.
pub open spec fn cosine_series(y: int) -> int {
    let s = y * y / (FINE as int);
    series_step(
        s,
        2,
        series_step(
            s,
            12,
            series_step(s, 30, series_step(s, 56, series_step(s, 90, series_step(s, 132, FINE as int)))),
        ),
    )
}

/// The arc length that belongs to `x` out of `QUADRANT` parts of a quarter turn.
pub open spec fn arc(x: int) -> int {
    x * HALF_PI / (QUADRANT as int)
}

/// The sine of `x / QUADRANT` quarter turns, for `0 <= x <= QUADRANT`, in raw units.
pub open spec fn quadrant_sine(x: int) -> int {
    if x <= QUADRANT / 2 {
        sine_series(arc(x)) / (ONE as int)
    } else {
        cosine_series(arc(QUADRANT - x)) / (ONE as int)
    }
}

/// The sine of a binary angle, in raw units between `-ONE` and `ONE`.
pub open spec fn sine(phase: u32) -> int {
    let q = phase / QUADRANT;
    let x = phase % QUADRANT;
    if q == 0 {
        quadrant_sine(x as int)
    } else if q == 1 {
        quadrant_sine(QUADRANT - x)
    } else if q == 2 {
        -quadrant_sine(x as int)
    } else {
        -quadrant_sine(QUADRANT - x)
    }
}

/// A bracket of a nested series stays between zero and one.
pub proof fn lemma_series_step_range(square: int, divisor: int, inner: int)
    requires
        0 <= square <= FINE,
        0 <= inner <= FINE,
        1 <= divisor,
    ensures
        0 <= square * inner <= FINE * FINE,
        0 <= series_step(square, divisor, inner) <= FINE,
{
    let f = FINE as int;
    assert(0 <= square * inner <= f * f) by (nonlinear_arith)
        requires
            0 <= square <= f,
            0 <= inner <= f,
    ;
    let p = square * inner;
    assert(0 <= p / f <= f) by (nonlinear_arith)
        requires
            0 <= p <= f * f,
            f > 0,
    ;
    let q = p / f;
    assert(0 <= q / divisor <= q) by (nonlinear_arith)
        requires
            0 <= q,
            1 <= divisor,
    ;
}

/// The arc of at most half a quadrant is less than one.
pub proof fn lemma_arc_range(x: int)
    requires
        0 <= x <= QUADRANT / 2,
    ensures
        0 <= x * HALF_PI <= 0x2000_0000 * HALF_PI,
        0 <= arc(x) <= FINE,
        arc(x) * arc(x) <= FINE * FINE,
        0 <= arc(x) * arc(x) / (FINE as int) <= FINE,
{
    let h = HALF_PI as int;
    assert(0 <= x * h <= 0x2000_0000 * h) by (nonlinear_arith)
        requires
            0 <= x <= 0x2000_0000,
            h >= 0,
    ;
    let y = arc(x);
    let f = FINE as int;
    assert(0 <= y * y <= f * f) by (nonlinear_arith)
        requires
            0 <= y <= f,
    ;
    let p = y * y;
    assert(0 <= p / f <= f) by (nonlinear_arith)
        requires
            0 <= p <= f * f,
            f > 0,
    ;
}

/// Both series stay between zero and one on the arcs they are used for.
pub proof fn lemma_series_range(y: int)
    requires
        0 <= y <= FINE,
    ensures
        0 <= sine_series(y) <= FINE,
        0 <= cosine_series(y) <= FINE,
{
    let f = FINE as int;
    assert(0 <= y * y <= f * f) by (nonlinear_arith)
        requires
            0 <= y <= f,
    ;
    let p = y * y;
    assert(0 <= p / f <= f) by (nonlinear_arith)
        requires
            0 <= p <= f * f,
            f > 0,
    ;
    let s = p / f;
    lemma_series_step_range(s, 156, f);
    let a5 = series_step(s, 156, f);
    lemma_series_step_range(s, 110, a5);
    let a4 = series_step(s, 110, a5);
    lemma_series_step_range(s, 72, a4);
    let a3 = series_step(s, 72, a4);
    lemma_series_step_range(s, 42, a3);
    let a2 = series_step(s, 42, a3);
    lemma_series_step_range(s, 20, a2);
    let a1 = series_step(s, 20, a2);
    lemma_series_step_range(s, 6, a1);
    let a0 = series_step(s, 6, a1);
    assert(0 <= y * a0 <= f * f) by (nonlinear_arith)
        requires
            0 <= y <= f,
            0 <= a0 <= f,
    ;
    let t = y * a0;
    assert(0 <= t / f <= f) by (nonlinear_arith)
        requires
            0 <= t <= f * f,
            f > 0,
    ;
    lemma_series_step_range(s, 132, f);
    let b5 = series_step(s, 132, f);
    lemma_series_step_range(s, 90, b5);
    let b4 = series_step(s, 90, b5);
    lemma_series_step_range(s, 56, b4);
    let b3 = series_step(s, 56, b4);
    lemma_series_step_range(s, 30, b3);
    let b2 = series_step(s, 30, b3);
    lemma_series_step_range(s, 12, b2);
    let b1 = series_step(s, 12, b2);
    lemma_series_step_range(s, 2, b1);
}

/// Within a quadrant the sine lies between zero and one.
pub proof fn lemma_quadrant_sine_range(x: int)
    requires
        0 <= x <= QUADRANT,
    ensures
        0 <= quadrant_sine(x) <= ONE,
{
    if x <= QUADRANT / 2 {
        lemma_arc_range(x);
        lemma_series_range(arc(x));
    } else {
        lemma_arc_range(QUADRANT - x);
        lemma_series_range(arc(QUADRANT - x));
    }
}

/// The sine never leaves the interval from minus one to one.
pub proof fn lemma_sine_range(phase: u32)
    ensures
        -ONE <= sine(phase) <= ONE,
{
    let x = (phase % QUADRANT) as int;
    lemma_quadrant_sine_range(x);
    lemma_quadrant_sine_range(QUADRANT - x);
}

/// Half a turn later the sine has the opposite sign and the same size.
pub proof fn lemma_sine_half_turn(phase: u32)
    ensures
        sine(phase.wrapping_add(HALF_TURN)) == -sine(phase),
{
}

/// The sine is the same at equal distances before and after a quarter turn.
pub proof fn lemma_sine_mirror(phase: u32)
    requires
        phase <= HALF_TURN,
    ensures
        sine((HALF_TURN - phase) as u32) == sine(phase),
{
    let mirrored = (HALF_TURN - phase) as u32;
    if phase == 0 {
        assert(quadrant_sine(0) == 0) by {
            assert(arc(0) == 0);
            assert(sine_series(0) == 0);
        }
    } else if phase < QUADRANT {
        assert(mirrored / QUADRANT == 1);
        assert(mirrored % QUADRANT == QUADRANT - phase);
    } else if phase == QUADRANT {
        assert(mirrored == QUADRANT);
    } else if phase < HALF_TURN {
        assert(mirrored / QUADRANT == 0);
        assert(phase / QUADRANT == 1);
        assert(phase % QUADRANT == phase - QUADRANT);
    } else {
        assert(mirrored == 0);
        assert(quadrant_sine(0) == 0) by {
            assert(arc(0) == 0);
            assert(sine_series(0) == 0);
        }
    }
}

/// The sine is zero at no turn and at half a turn, one at a quarter and minus one at three.
pub proof fn lemma_sine_landmarks()
    ensures
        sine(0) == 0,
        sine(QUADRANT) == ONE,
        sine(HALF_TURN) == 0,
        sine(0xC000_0000) == -ONE,
{
    assert(arc(0) == 0);
}

/// One bracket of a nested series.
fn step(square: u64, divisor: u64, inner: u64) -> (r: u64)
    requires
        square <= FINE,
        inner <= FINE,
        1 <= divisor,
    ensures
        r == series_step(square as int, divisor as int, inner as int),
        r <= FINE,
{
    proof {
        lemma_series_step_range(square as int, divisor as int, inner as int);
    }
    let wide: u128 = (square as u128) * (inner as u128);
    let part: u64 = ((wide / (FINE as u128)) as u64) / divisor;
    FINE - part
}

/// The square of an arc of at most one, in units of 1 / `FINE`.
fn squared(y: u64) -> (s: u64)
    requires
        y <= FINE,
    ensures
        s == y * y / (FINE as int),
        s <= FINE,
{
    proof {
        let f = FINE as int;
        let yy = y as int;
        assert(0 <= yy * yy <= f * f) by (nonlinear_arith)
            requires
                0 <= yy <= f,
        ;
        let p = yy * yy;
        assert(0 <= p / f <= f) by (nonlinear_arith)
            requires
                0 <= p <= f * f,
                f > 0,
        ;
    }
    let wide: u128 = (y as u128) * (y as u128);
    (wide / (FINE as u128)) as u64
}

/// Evaluates the sine of a position inside one quadrant.
fn quadrant_value(x: u32) -> (r: i64)
    requires
        x <= QUADRANT,
    ensures
        r == quadrant_sine(x as int),
        0 <= r <= ONE,
{
    proof {
        lemma_quadrant_sine_range(x as int);
    }
    if x <= QUADRANT / 2 {
        proof {
            lemma_arc_range(x as int);
            lemma_series_range(arc(x as int));
        }
        let y: u64 = (((x as u128) * (HALF_PI as u128)) / (QUADRANT as u128)) as u64;
        let s: u64 = squared(y);
        let a5: u64 = step(s, 156, FINE);
        let a4: u64 = step(s, 110, a5);
        let a3: u64 = step(s, 72, a4);
        let a2: u64 = step(s, 42, a3);
        let a1: u64 = step(s, 20, a2);
        let a0: u64 = step(s, 6, a1);
        proof {
            let f = FINE as int;
            let yy = y as int;
            let aa = a0 as int;
            assert(0 <= yy * aa <= f * f) by (nonlinear_arith)
                requires
                    0 <= yy <= f,
                    0 <= aa <= f,
            ;
        }
        let wide: u128 = (y as u128) * (a0 as u128);
        let fine: u64 = (wide / (FINE as u128)) as u64;
        (fine / (ONE as u64)) as i64
    } else {
        let z: u32 = QUADRANT - x;
        proof {
            lemma_arc_range(z as int);
            lemma_series_range(arc(z as int));
        }
        let y: u64 = (((z as u128) * (HALF_PI as u128)) / (QUADRANT as u128)) as u64;
        let s: u64 = squared(y);
        let b5: u64 = step(s, 132, FINE);
        let b4: u64 = step(s, 90, b5);
        let b3: u64 = step(s, 56, b4);
        let b2: u64 = step(s, 30, b3);
        let b1: u64 = step(s, 12, b2);
        let b0: u64 = step(s, 2, b1);
        (b0 / (ONE as u64)) as i64
    }
}

/// Evaluates the sine of a binary angle.
pub fn sine_of(phase: u32) -> (r: i64)
    ensures
        r == sine(phase),
        -ONE <= r <= ONE,
{
    let q: u32 = phase / QUADRANT;
    let x: u32 = phase % QUADRANT;
    if q == 0 {
        quadrant_value(x)
    } else if q == 1 {
        quadrant_value(QUADRANT - x)
    } else if q == 2 {
        -quadrant_value(x)
    } else {
        -quadrant_value(QUADRANT - x)
    }
}

} // verus!
