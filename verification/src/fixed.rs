//! Saturating decimal fixed-point arithmetic.
//!
//! A quantity `q` is held in an `i64` as `q * ONE`, so one raw unit is a billionth.
//! Every operation computes its exact integer result first, cuts a quotient toward zero,
//! and then clamps into the range of `i64`; nothing wraps and nothing panics.

use vstd::prelude::*;

verus! {

/// The raw value that stands for 1.0.
pub const ONE: i64 = 1_000_000_000;

/// The nearest `i64` to `x`.
pub open spec fn clamp(x: int) -> i64 {
    if x < i64::MIN {
        i64::MIN
    } else if x > i64::MAX {
        i64::MAX
    } else {
        x as i64
    }
}

/// `n / d` with the quotient cut toward zero, for a positive divisor.
pub open spec fn quotient(n: int, d: int) -> int
    recommends
        d > 0,
{
    if n >= 0 {
        n / d
    } else {
        -((-n) / d)
    }
}

/// Saturating sum of two raw values.
pub open spec fn sum(a: i64, b: i64) -> i64 {
    clamp(a + b)
}

/// `x * num / den`, cut toward zero and clamped.
pub open spec fn scaled(x: i64, num: int, den: int) -> i64
    recommends
        den > 0,
{
    clamp(quotient(x * num, den))
}

/// Saturating fixed-point product of two raw values.
pub open spec fn product(a: i64, b: i64) -> i64 {
    scaled(a, b as int, ONE as int)
}

/// Saturating negation: only `i64::MIN` has no exact negative.
pub open spec fn negated(a: i64) -> i64 {
    clamp(-a)
}

/// Clamps a wide intermediate result into an `i64`.
pub fn saturate(x: i128) -> (r: i64)
    ensures
        r == clamp(x as int),
{
    if x < i64::MIN as i128 {
        i64::MIN
    } else if x > i64::MAX as i128 {
        i64::MAX
    } else {
        x as i64
    }
}

/// Divides by a positive number and cuts the quotient toward zero.
pub fn divide(n: i128, d: i128) -> (q: i128)
    requires
        d > 0,
        n > i128::MIN,
    ensures
        q == quotient(n as int, d as int),
{
    if n >= 0 {
        n / d
    } else {
        let m: i128 = -n;
        let p: i128 = m / d;
        -p
    }
}

/// The remainder of the floored division by a positive number: never negative.
pub fn modulo(n: i128, m: i128) -> (r: i128)
    requires
        m > 0,
        n > i128::MIN,
    ensures
        r == (n as int) % (m as int),
        0 <= r < m,
{
    if n >= 0 {
        n % m
    } else {
        let a: i128 = (-n) % m;
        proof {
            lemma_remainder_of_negative(-n as int, m as int);
        }
        if a == 0 {
            0
        } else {
            m - a
        }
    }
}

/// Saturating sum.
pub fn plus(a: i64, b: i64) -> (r: i64)
    ensures
        r == sum(a, b),
{
    saturate(a as i128 + b as i128)
}

/// Saturating negation.
pub fn negate(a: i64) -> (r: i64)
    ensures
        r == negated(a),
{
    saturate(-(a as i128))
}

/// `x * num / den` for a positive `den`, cut toward zero and clamped.
pub fn scale(x: i64, num: i64, den: i64) -> (r: i64)
    requires
        den > 0,
    ensures
        r == scaled(x, num as int, den as int),
{
    proof {
        lemma_product_bound(x as int, num as int);
    }
    let wide: i128 = (x as i128) * (num as i128);
    saturate(divide(wide, den as i128))
}

/// `x * num / den` for counts `num` and `den`, cut toward zero and clamped.
pub fn scale_by_count(x: i64, num: usize, den: usize) -> (r: i64)
    requires
        den > 0,
    ensures
        r == scaled(x, num as int, den as int),
{
    proof {
        let a = x as int;
        let b = num as int;
        assert(-0x8000_0000_0000_0000 * 0xFFFF_FFFF_FFFF_FFFF <= a * b <= 0x8000_0000_0000_0000
            * 0xFFFF_FFFF_FFFF_FFFF) by (nonlinear_arith)
            requires
                -0x8000_0000_0000_0000 <= a <= 0x8000_0000_0000_0000,
                0 <= b <= 0xFFFF_FFFF_FFFF_FFFF,
        ;
    }
    let wide: i128 = (x as i128) * (num as i128);
    saturate(divide(wide, den as i128))
}

/// Saturating fixed-point product.
pub fn times(a: i64, b: i64) -> (r: i64)
    ensures
        r == product(a, b),
{
    scale(a, b, ONE)
}

/// The floored remainder of `-a` is the complement of that of `a`.
pub proof fn lemma_remainder_of_negative(a: int, m: int)
    requires
        m > 0,
    ensures
        (-a) % m == if a % m == 0 {
            0
        } else {
            m - a % m
        },
{
    vstd::arithmetic::div_mod::lemma_fundamental_div_mod(a, m);
    let q = a / m;
    let r = a % m;
    if r == 0 {
        assert(-a == (-q) * m + 0) by (nonlinear_arith)
            requires
                a == m * q + r,
                r == 0,
        ;
        vstd::arithmetic::div_mod::lemma_fundamental_div_mod_converse(-a, m, -q, 0);
    } else {
        assert(-a == (-q - 1) * m + (m - r)) by (nonlinear_arith)
            requires
                a == m * q + r,
        ;
        vstd::arithmetic::div_mod::lemma_fundamental_div_mod_converse(-a, m, -q - 1, m - r);
    }
}

/// Scaling zero gives zero.
pub proof fn lemma_scaled_zero(num: int, den: int)
    requires
        den > 0,
    ensures
        scaled(0, num, den) == 0,
{
}

/// Scaling by zero gives zero.
pub proof fn lemma_scaled_by_zero(x: i64, den: int)
    requires
        den > 0,
    ensures
        scaled(x, 0, den) == 0,
{
}

/// Scaling by a ratio of one changes nothing.
pub proof fn lemma_scaled_whole(x: i64, den: int)
    requires
        den > 0,
    ensures
        scaled(x, den, den) == x,
{
    let a = x as int;
    if a >= 0 {
        assert((a * den) / den == a) by (nonlinear_arith)
            requires
                den > 0,
        ;
    } else {
        assert(-(a * den) == (-a) * den) by (nonlinear_arith);
        assert(((-a) * den) / den == -a) by (nonlinear_arith)
            requires
                den > 0,
        ;
    }
}

/// The quotient toward zero grows with its numerator.
pub proof fn lemma_quotient_monotone(a: int, b: int, d: int)
    requires
        d > 0,
        a <= b,
    ensures
        quotient(a, d) <= quotient(b, d),
{
    if a >= 0 {
        vstd::arithmetic::div_mod::lemma_div_is_ordered(a, b, d);
    } else if b < 0 {
        vstd::arithmetic::div_mod::lemma_div_is_ordered(-b, -a, d);
    } else {
        vstd::arithmetic::div_mod::lemma_div_pos_is_pos(-a, d);
        vstd::arithmetic::div_mod::lemma_div_pos_is_pos(b, d);
    }
}

/// The product of two `i64` values fits well inside an `i128`.
pub proof fn lemma_product_bound(a: int, b: int)
    requires
        i64::MIN <= a <= i64::MAX,
        i64::MIN <= b <= i64::MAX,
    ensures
        -0x4000_0000_0000_0000_0000_0000_0000_0000 <= a * b <= 0x4000_0000_0000_0000_0000_0000_0000_0000,
{
    assert(-0x4000_0000_0000_0000_0000_0000_0000_0000 <= a * b <= 0x4000_0000_0000_0000_0000_0000_0000_0000)
        by (nonlinear_arith)
        requires
            -0x8000_0000_0000_0000 <= a <= 0x8000_0000_0000_0000,
            -0x8000_0000_0000_0000 <= b <= 0x8000_0000_0000_0000,
    ;
}

} // verus!
