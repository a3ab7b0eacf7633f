//! Q32 fixed-point arithmetic: the constants, the rounding conventions and
//! the saturating multiply/divide helpers that the synthesis core is built
//! on. A Q32 value stores a real number scaled by `SCALE` (2^32), so `SCALE`
//! itself is 1.0, `SCALE / 2` is 0.5, and so on.

use vstd::arithmetic::div_mod::{
    lemma_div_is_ordered, lemma_div_multiples_vanish, lemma_div_pos_is_pos,
    lemma_fundamental_div_mod, lemma_mod_bound,
};
use vstd::arithmetic::mul::lemma_mul_inequality;
use vstd::prelude::*;

verus! {

/// One unit (1.0) in Q32 fixed point: 2^32.
pub const SCALE: i64 = 4294967296;

/// The circle constant pi in Q32 (floor of pi * 2^32).
pub const PI_FP: i64 = 13493037704;

/// 2 * pi in Q32, kept exactly twice `PI_FP` so that a half period splits evenly.
pub const TWO_PI_FP: i64 = 26986075408;

/// 0.9 in Q32: the symmetric clipping threshold applied before bit-crushing.
pub const CLIP_FP: i64 = 3865470566;

/// Saturation bound of a phase accumulator, 2^62. An unsynced operator lets
/// its phase grow without wrapping; past this bound the accumulator pins,
/// the fixed-point counterpart of floating-point precision running out.
pub const PHASE_MAX: i64 = 4611686018427387904;

/// Largest operator frequency the core accepts, 2^50 in Q32 (2^18 Hz).
pub const FREQ_MAX: i64 = 1125899906842624;

/// Largest amplitude or modulation ratio the core accepts, 2^40 in Q32 (256.0).
pub const GAIN_MAX: i64 = 1099511627776;

/// Largest magnitude of an external modulation input, 2^34 in Q32 (4.0).
pub const MOD_IN_MAX: i64 = 17179869184;

/// Absolute value.
pub open spec fn abs_i(x: int) -> int {
    if x < 0 {
        -x
    } else {
        x
    }
}

/// Division truncating toward zero (the sign convention of Rust's `/` on
/// signed integers), for a positive divisor.
pub open spec fn tdiv(a: int, b: int) -> int
    recommends
        b >= 1,
{
    if a >= 0 {
        a / b
    } else {
        -((-a) / b)
    }
}

/// Remainder with the sign of the dividend (the convention of Rust's `%` on
/// signed integers), for a positive divisor.
pub open spec fn tmod(a: int, b: int) -> int
    recommends
        b >= 1,
{
    if a >= 0 {
        a % b
    } else {
        -((-a) % b)
    }
}

/// Ceiling division for a non-negative dividend and positive divisor.
pub open spec fn div_ceil(a: int, b: int) -> int
    recommends
        a >= 0,
        b >= 1,
{
    (a + b - 1) / b
}

/// The smaller of two integers.
pub open spec fn min_i(a: int, b: int) -> int {
    if a < b {
        a
    } else {
        b
    }
}

/// `x` forced into `[lo, hi]`.
pub open spec fn clamp_i(x: int, lo: int, hi: int) -> int
    recommends
        lo <= hi,
{
    if x < lo {
        lo
    } else if x > hi {
        hi
    } else {
        x
    }
}

/// Ceiling division overshoots a true quotient by less than one step:
/// `a <= div_ceil(a, b) * b < a + b`.
pub proof fn lemma_div_ceil_bounds(a: int, b: int)
    requires
        a >= 0,
        b >= 1,
    ensures
        div_ceil(a, b) * b >= a,
        div_ceil(a, b) >= 0,
        a >= 1 ==> div_ceil(a, b) >= 1,
{
    let n: int = a + b - 1;
    lemma_fundamental_div_mod(n, b);
    lemma_mod_bound(n, b);
    lemma_div_pos_is_pos(n, b);
    assert(b * (n / b) == n - n % b);
    assert(div_ceil(a, b) * b == b * (n / b)) by {
        assert(div_ceil(a, b) == n / b);
        assert((n / b) * b == b * (n / b)) by (nonlinear_arith);
    }
    if a >= 1 && div_ceil(a, b) < 1 {
        assert(div_ceil(a, b) == 0);
        assert(div_ceil(a, b) * b == 0) by (nonlinear_arith)
            requires
                div_ceil(a, b) == 0,
        ;
    }
}

/// A count of steps that covers a duration: `k >= div_ceil(d, dt)` steps of
/// size `dt` add up to at least `d`.
pub proof fn lemma_steps_cover(k: int, d: int, dt: int)
    requires
        d >= 0,
        dt >= 1,
        k >= div_ceil(d, dt),
    ensures
        k * dt >= d,
{
    lemma_div_ceil_bounds(d, dt);
    lemma_mul_inequality(div_ceil(d, dt), k, dt);
}

/// The absolute value of a product is the product of the absolute values.
pub proof fn lemma_abs_mul(a: int, b: int)
    ensures
        abs_i(a * b) == abs_i(a) * abs_i(b),
{
    if a >= 0 && b >= 0 {
        assert(a * b >= 0) by (nonlinear_arith)
            requires
                a >= 0,
                b >= 0,
        ;
    } else if a < 0 && b >= 0 {
        assert(a * b <= 0 && -(a * b) == (-a) * b) by (nonlinear_arith)
            requires
                a < 0,
                b >= 0,
        ;
    } else if a >= 0 && b < 0 {
        assert(a * b <= 0 && -(a * b) == a * (-b)) by (nonlinear_arith)
            requires
                a >= 0,
                b < 0,
        ;
    } else {
        assert(a * b >= 0 && a * b == (-a) * (-b)) by (nonlinear_arith)
            requires
                a < 0,
                b < 0,
        ;
    }
}

/// Truncating division shrinks magnitudes: `|tdiv(a, d)| <= m / d` whenever
/// `|a| <= m`.
pub proof fn lemma_tdiv_bound(a: int, d: int, m: int)
    requires
        d >= 1,
        abs_i(a) <= m,
    ensures
        -(m / d) <= tdiv(a, d) <= m / d,
{
    lemma_div_pos_is_pos(m, d);
    if a >= 0 {
        lemma_div_pos_is_pos(a, d);
        lemma_div_is_ordered(a, m, d);
    } else {
        lemma_div_pos_is_pos(-a, d);
        lemma_div_is_ordered(-a, m, d);
    }
}

/// One envelope step in Q32: the ceiling of `dt * num / den`, saturated at
/// `SCALE`. Rounding up means a positive-rate stage always makes progress.
pub open spec fn rate(dt: int, num: int, den: int) -> int
    recommends
        dt >= 1,
        0 <= num <= SCALE,
        den >= 1,
{
    min_i(SCALE as int, div_ceil(dt * num, den))
}

/// Computes `rate(dt, num, den)`: the saturated ceiling of `dt * num / den`.
pub fn rate_step(dt: i64, num: i64, den: i64) -> (r: i64)
    requires
        dt >= 1,
        0 <= num <= SCALE,
        den >= 1,
    ensures
        r == rate(dt as int, num as int, den as int),
        0 <= r <= SCALE,
{
    proof {
        vstd::arithmetic::mul::lemma_mul_upper_bound(
            dt as int,
            i64::MAX as int,
            num as int,
            SCALE as int,
        );
    }
    let p: u128 = (dt as u128) * (num as u128);
    let d: u128 = den as u128;
    let q: u128 = (p + d - 1) / d;
    proof {
        assert(p == dt * num);
        assert(q == div_ceil(dt * num, den as int));
        lemma_div_ceil_bounds(dt * num, den as int);
    }
    if q >= SCALE as u128 {
        SCALE
    } else {
        q as i64
    }
}

/// Computes `tdiv(a * b, SCALE)`, the truncating Q32 product, for operands
/// whose product stays within `PHASE_MAX * SCALE`.
pub fn muldiv_scale(a: i64, b: i64) -> (r: i64)
    requires
        -(PHASE_MAX as int) * (SCALE as int) <= (a as int) * (b as int) <= (PHASE_MAX as int) * (
        SCALE as int),
    ensures
        r == tdiv((a as int) * (b as int), SCALE as int),
        -PHASE_MAX <= r <= PHASE_MAX,
{
    let p: i128 = (a as i128) * (b as i128);
    proof {
        lemma_div_multiples_vanish(PHASE_MAX as int, SCALE as int);
    }
    if p >= 0 {
        let q: u128 = (p as u128) / (SCALE as u128);
        proof {
            lemma_div_is_ordered(p as int, (PHASE_MAX as int) * (SCALE as int), SCALE as int);
            lemma_div_pos_is_pos(p as int, SCALE as int);
        }
        q as i64
    } else {
        let m: u128 = ((-p) as u128) / (SCALE as u128);
        proof {
            lemma_div_is_ordered(-p as int, (PHASE_MAX as int) * (SCALE as int), SCALE as int);
            lemma_div_pos_is_pos(-p as int, SCALE as int);
        }
        -(m as i64)
    }
}

/// Computes `tdiv(a * b * c, SCALE * SCALE)`, the truncating product of three
/// Q32 factors, for `a * b` within `PHASE_MAX * SCALE` and `c` within one unit.
pub fn mul3_div_scale2(a: i64, b: i64, c: i64) -> (r: i64)
    requires
        -(PHASE_MAX as int) * (SCALE as int) <= (a as int) * (b as int) <= (PHASE_MAX as int) * (
        SCALE as int),
        -SCALE <= c <= SCALE,
    ensures
        r == tdiv((a as int) * (b as int) * (c as int), (SCALE as int) * (SCALE as int)),
        -PHASE_MAX <= r <= PHASE_MAX,
{
    let ab: i128 = (a as i128) * (b as i128);
    proof {
        assert(abs_i(ab as int * c as int) <= (PHASE_MAX as int) * (SCALE as int) * (SCALE as int))
            by {
            lemma_abs_mul(ab as int, c as int);
            assert(abs_i(ab as int) * abs_i(c as int) <= (PHASE_MAX as int) * (SCALE as int) * (
            SCALE as int)) by (nonlinear_arith)
                requires
                    0 <= abs_i(ab as int) <= (PHASE_MAX as int) * (SCALE as int),
                    0 <= abs_i(c as int) <= SCALE as int,
            ;
        }
        lemma_div_multiples_vanish(PHASE_MAX as int, (SCALE as int) * (SCALE as int));
        assert((PHASE_MAX as int) * ((SCALE as int) * (SCALE as int)) == (PHASE_MAX as int) * (
        SCALE as int) * (SCALE as int)) by (nonlinear_arith);
    }
    let p: i128 = ab * (c as i128);
    let s2: u128 = (SCALE as u128) * (SCALE as u128);
    if p >= 0 {
        let q: u128 = (p as u128) / s2;
        proof {
            lemma_div_is_ordered(
                p as int,
                (PHASE_MAX as int) * (SCALE as int) * (SCALE as int),
                (SCALE as int) * (SCALE as int),
            );
            lemma_div_pos_is_pos(p as int, (SCALE as int) * (SCALE as int));
        }
        q as i64
    } else {
        let m: u128 = ((-p) as u128) / s2;
        proof {
            lemma_div_is_ordered(
                -p as int,
                (PHASE_MAX as int) * (SCALE as int) * (SCALE as int),
                (SCALE as int) * (SCALE as int),
            );
            lemma_div_pos_is_pos(-p as int, (SCALE as int) * (SCALE as int));
        }
        -(m as i64)
    }
}

/// Computes `tmod(p, TWO_PI_FP)`: the phase reduced to one signed period, with
/// the sign of the dividend, as hard sync applies it.
pub fn tmod_two_pi(p: i64) -> (r: i64)
    requires
        -PHASE_MAX <= p <= PHASE_MAX,
    ensures
        r == tmod(p as int, TWO_PI_FP as int),
        -TWO_PI_FP < r < TWO_PI_FP,
{
    proof {
        lemma_mod_bound(p as int, TWO_PI_FP as int);
        lemma_mod_bound(-p as int, TWO_PI_FP as int);
    }
    if p >= 0 {
        ((p as u64) % (TWO_PI_FP as u64)) as i64
    } else {
        -((((-p) as u64) % (TWO_PI_FP as u64)) as i64)
    }
}

} // verus!
