//! Where in its cycle an oscillation stands at a given sample.
//!
//! A frequency `freq` (raw, cycles per second) sampled `rate` times a second has completed
//! `freq * index / (rate * ONE)` cycles at sample `index`. Only the fractional part of that
//! number matters, and it is found exactly, by modular arithmetic, before anything is rounded.

use vstd::prelude::*;
use vstd::arithmetic::div_mod::{lemma_mul_mod_noop_general, lemma_add_mod_noop};
use crate::fixed::{ONE, quotient, divide, modulo, lemma_product_bound};

verus! {

/// A full turn of a binary angle.
pub const TURN: u64 = 0x1_0000_0000;

/// The circumference of the unit circle, 2 pi, in raw units.
pub const TAU: i64 = 6_283_185_307;

/// `freq * index` reduced into `0 .. modulus`.
pub open spec fn residue(freq: i64, index: nat, modulus: int) -> int
    recommends
        modulus > 0,
{
    (freq * index) % modulus
}

/// The number of residue steps that make one cycle at sample rate `rate`.
pub open spec fn cycle_steps(rate: u32) -> int {
    rate * ONE
}

/// The binary angle of the fraction of a cycle completed at sample `index`.
pub open spec fn cycle_phase(freq: i64, rate: u32, index: nat) -> int
    recommends
        rate > 0,
{
    residue(freq, index, cycle_steps(rate)) * TURN / cycle_steps(rate)
}

/// The binary angle of a phase shift given in radians (raw).
pub open spec fn shift_phase(shift: i64) -> int {
    quotient(shift * TURN, TAU as int) % (TURN as int)
}

/// The binary angle of a sine partial at sample `index`.
pub open spec fn phase_at(freq: i64, shift: i64, rate: u32, index: nat) -> u32
    recommends
        rate > 0,
{
    ((cycle_phase(freq, rate, index) + shift_phase(shift)) % (TURN as int)) as u32
}

/// A residue repeats whenever the index advances by a whole number of cycles.
pub proof fn lemma_residue_periodic(freq: i64, index: nat, period: nat, modulus: int)
    requires
        modulus > 0,
        residue(freq, period, modulus) == 0,
    ensures
        residue(freq, index + period, modulus) == residue(freq, index, modulus),
{
    let a = freq * index;
    let b = freq * period;
    assert(freq * (index + period) == a + b) by (nonlinear_arith)
        requires
            a == freq * index,
            b == freq * period,
    ;
    lemma_add_mod_noop(a, b, modulus);
    assert((a % modulus + 0) % modulus == a % modulus) by {
        vstd::arithmetic::div_mod::lemma_mod_twice(a, modulus);
    }
}

/// The cycle phase is a binary angle.
pub proof fn lemma_cycle_phase_range(freq: i64, rate: u32, index: nat)
    requires
        rate > 0,
    ensures
        0 <= residue(freq, index, cycle_steps(rate)) < cycle_steps(rate),
        0 <= cycle_phase(freq, rate, index) < TURN,
{
    let m = cycle_steps(rate);
    let r = residue(freq, index, m);
    let t = TURN as int;
    assert(0 <= r * t < m * t) by (nonlinear_arith)
        requires
            0 <= r < m,
            t > 0,
    ;
    let p = r * t;
    assert(0 <= p / m < t) by (nonlinear_arith)
        requires
            0 <= p < m * t,
            m > 0,
    ;
}

/// The number of residue steps that make one cycle at sample rate `rate`.
pub fn cycle_steps_of(rate: u32) -> (m: u64)
    ensures
        m == cycle_steps(rate),
        m == rate * 1_000_000_000,
        m <= 4_294_967_295_000_000_000,
{
    (rate as u64) * 1_000_000_000
}

/// Reduces `freq * index` modulo `modulus` without forming the product.
pub fn residue_of(freq: i64, index: usize, modulus: u64) -> (r: u64)
    requires
        0 < modulus <= 0x8000_0000_0000_0000,
    ensures
        r == residue(freq, index as nat, modulus as int),
        r < modulus,
{
    let m: i128 = modulus as i128;
    let f: i128 = modulo(freq as i128, m);
    let i: i128 = (index as i128) % m;
    proof {
        assert(0 <= f * i < 0x8000_0000_0000_0000 * 0x8000_0000_0000_0000) by (nonlinear_arith)
            requires
                0 <= f < 0x8000_0000_0000_0000,
                0 <= i < 0x8000_0000_0000_0000,
        ;
        lemma_mul_mod_noop_general(freq as int, index as int, m as int);
    }
    let r: i128 = (f * i) % m;
    r as u64
}

/// The binary angle of the fraction of a cycle completed at sample `index`.
pub fn cycle_phase_of(freq: i64, rate: u32, index: usize) -> (p: u32)
    requires
        rate > 0,
    ensures
        p == cycle_phase(freq, rate, index as nat),
{
    proof {
        lemma_cycle_phase_range(freq, rate, index as nat);
    }
    let m: u64 = cycle_steps_of(rate);
    let r: u64 = residue_of(freq, index, m);
    let wide: u128 = (r as u128) * (TURN as u128);
    (wide / (m as u128)) as u32
}

/// The binary angle of a phase shift given in radians (raw).
pub fn shift_phase_of(shift: i64) -> (p: u32)
    ensures
        p == shift_phase(shift),
{
    proof {
        lemma_product_bound(shift as int, TURN as int);
    }
    let wide: i128 = (shift as i128) * (TURN as i128);
    let turns: i128 = divide(wide, TAU as i128);
    modulo(turns, TURN as i128) as u32
}

/// The binary angle of a sine partial at sample `index`.
pub fn phase_of(freq: i64, shift: i64, rate: u32, index: usize) -> (p: u32)
    requires
        rate > 0,
    ensures
        p == phase_at(freq, shift, rate, index as nat),
{
    proof {
        lemma_cycle_phase_range(freq, rate, index as nat);
    }
    let a: u64 = cycle_phase_of(freq, rate, index) as u64;
    let b: u64 = shift_phase_of(shift) as u64;
    ((a + b) % TURN) as u32
}

} // verus!
