//! Fixed-point sine. The phase is reduced to one period and a quadratic
//! half-wave (the parabola `4 x (pi - x) / pi^2`) approximates the first half
//! period; the second half is the same arc negated. The result never leaves
//! `[-SCALE, SCALE]`, which is what keeps every sample the core produces
//! bounded.

use crate::fixed::{PHASE_MAX, PI_FP, SCALE, TWO_PI_FP};
use vstd::arithmetic::div_mod::{
    lemma_div_is_ordered, lemma_div_multiples_vanish, lemma_div_pos_is_pos, lemma_mod_bound,
};
use vstd::arithmetic::mul::lemma_mul_inequality;
use vstd::prelude::*;

verus! {

/// The phase reduced to `[0, TWO_PI_FP)`: the Euclidean remainder modulo one
/// period.
pub open spec fn phase_mod_two_pi(p: int) -> int {
    if p >= 0 {
        p % (TWO_PI_FP as int)
    } else if (-p) % (TWO_PI_FP as int) == 0 {
        0
    } else {
        TWO_PI_FP - ((-p) % (TWO_PI_FP as int))
    }
}

/// The half-wave parabola `4 x (PI_FP - x) * SCALE / PI_FP^2` on `[0, PI_FP]`:
/// zero at both ends, one unit at the crest.
pub open spec fn half_sine(x: int) -> int {
    4 * x * (PI_FP - x) * (SCALE as int) / ((PI_FP as int) * (PI_FP as int))
}

/// The sine of a Q32 phase: the half-wave parabola on the first half period,
/// mirrored and negated on the second.
pub open spec fn spec_sin(p: int) -> int {
    let r = phase_mod_two_pi(p);
    if r <= PI_FP {
        half_sine(r)
    } else {
        -half_sine(r - PI_FP)
    }
}

/// On its half period the parabola stays within `[0, SCALE]`.
pub proof fn lemma_half_sine_bounds(x: int)
    requires
        0 <= x <= PI_FP,
    ensures
        0 <= half_sine(x) <= SCALE,
{
    let p: int = PI_FP as int;
    let s: int = SCALE as int;
    assert(0 <= 4 * x * (p - x) && 4 * x * (p - x) <= p * p) by (nonlinear_arith)
        requires
            0 <= x <= p,
    ;
    lemma_mul_inequality(4 * x * (p - x), p * p, s);
    lemma_div_pos_is_pos(4 * x * (p - x) * s, p * p);
    assert(4 * x * (p - x) * s >= 0) by (nonlinear_arith)
        requires
            4 * x * (p - x) >= 0,
            s >= 0,
    ;
    lemma_div_is_ordered(4 * x * (p - x) * s, p * p * s, p * p);
    lemma_div_multiples_vanish(s, p * p);
    assert((p * p) * s == p * p * s) by (nonlinear_arith);
}

/// The sine of any phase stays within one unit.
pub proof fn lemma_sin_bounds(p: int)
    ensures
        -SCALE <= spec_sin(p) <= SCALE,
{
    lemma_mod_bound(p, TWO_PI_FP as int);
    lemma_mod_bound(-p, TWO_PI_FP as int);
    let r = phase_mod_two_pi(p);
    if r <= PI_FP {
        lemma_half_sine_bounds(r);
    } else {
        lemma_half_sine_bounds(r - PI_FP);
    }
}

/// Computes `spec_sin`: reduce the phase to one period, evaluate the
/// half-wave parabola, negate it on the second half.
pub fn sin_fp(p: i64) -> (r: i64)
    requires
        -PHASE_MAX <= p <= PHASE_MAX,
    ensures
        r == spec_sin(p as int),
        -SCALE <= r <= SCALE,
{
    proof {
        lemma_mod_bound(p as int, TWO_PI_FP as int);
        lemma_mod_bound(-p as int, TWO_PI_FP as int);
    }
    let rm: i64 = if p >= 0 {
        ((p as u64) % (TWO_PI_FP as u64)) as i64
    } else {
        let m: u64 = ((-p) as u64) % (TWO_PI_FP as u64);
        if m == 0 {
            0
        } else {
            (TWO_PI_FP as u64 - m) as i64
        }
    };
    proof {
        assert(rm == phase_mod_two_pi(p as int));
        assert(0 <= rm < TWO_PI_FP);
    }
    let x: i64 = if rm <= PI_FP {
        rm
    } else {
        rm - PI_FP
    };
    proof {
        assert(0 <= x <= PI_FP);
        lemma_half_sine_bounds(x as int);
        let pi: int = PI_FP as int;
        let s: int = SCALE as int;
        assert(0 <= 4 * (x as int) * (pi - x) && 4 * (x as int) * (pi - x) <= pi * pi)
            by (nonlinear_arith)
            requires
                0 <= x as int <= pi,
        ;
        lemma_mul_inequality(4 * (x as int) * (pi - x), pi * pi, s);
    }
    let num: u128 = 4 * (x as u128) * ((PI_FP as u128) - (x as u128)) * (SCALE as u128);
    let den: u128 = (PI_FP as u128) * (PI_FP as u128);
    let q: u128 = num / den;
    proof {
        assert(num == 4 * (x as int) * ((PI_FP as int) - (x as int)) * (SCALE as int));
        assert(q == half_sine(x as int));
    }
    if rm <= PI_FP {
        q as i64
    } else {
        -(q as i64)
    }
}

} // verus!
