//! One FM voice stage: a phase-accumulating oscillator with its own
//! envelope, linear frequency modulation from an external input, phase
//! self-feedback, optional hard sync, output clipping and bit-crushing.
//!
//! All parameters and signals are Q32 fixed point. The phase accumulator is
//! left unwrapped unless hard sync is on; it saturates at `PHASE_MAX`, the
//! fixed-point counterpart of floating-point precision running out at large
//! magnitudes. The feedback term is taken from the raw phase accumulator, not
//! from the previous output sample: a deliberately simplified feedback model,
//! kept as given.

use crate::envelope::{env_wf, spec_advance, Envelope};
use crate::fixed::{
    clamp_i, lemma_tdiv_bound, mul3_div_scale2, muldiv_scale, tdiv, tmod, tmod_two_pi,
    CLIP_FP, FREQ_MAX, GAIN_MAX, MOD_IN_MAX, PHASE_MAX, SCALE, TWO_PI_FP,
};
use crate::trig::{sin_fp, spec_sin};
use vstd::arithmetic::div_mod::{
    lemma_div_multiples_vanish_fancy, lemma_fundamental_div_mod, lemma_mod_bound,
};
use vstd::arithmetic::power2::{lemma2_to64, lemma_pow2_adds, lemma_pow2_pos, pow2};
use vstd::bits::{lemma_u64_pow2_no_overflow, lemma_u64_shl_is_mul};
use vstd::prelude::*;

verus! {

/// One FM operator. Every parameter may be rewritten at any time by a
/// controller; `phase` and `envelope` are the voice's own running state.
#[derive(Clone, Copy, PartialEq, Eq, Structural, Debug)]
pub struct Operator {
    /// Base frequency, Q32 Hz, in `[1, FREQ_MAX]`.
    pub freq: i64,
    /// Amplitude gain, Q32, in `[0, GAIN_MAX]`.
    pub amp: i64,
    /// Modulation ratio (multiplier on the base frequency), Q32, in `[1, GAIN_MAX]`.
    pub ratio: i64,
    /// Self-feedback fraction, Q32, in `[0, SCALE]`.
    pub feedback: i64,
    /// Whether the phase is wrapped to one period each sample (hard sync).
    pub sync: bool,
    /// Quantization depth in bits, in `[1, 32]`.
    pub bit_depth: u8,
    /// Phase accumulator, Q32 radians, within `[-PHASE_MAX, PHASE_MAX]`.
    pub phase: i64,
    /// The envelope shaping this operator's amplitude.
    pub envelope: Envelope,
}

/// A well-formed operator: every parameter in its documented range, the
/// phase within its saturation bound, and a well-formed envelope.
pub open spec fn op_wf(op: Operator) -> bool {
    &&& 1 <= op.freq <= FREQ_MAX
    &&& 0 <= op.amp <= GAIN_MAX
    &&& 1 <= op.ratio <= GAIN_MAX
    &&& 0 <= op.feedback <= SCALE
    &&& 1 <= op.bit_depth <= 32
    &&& -PHASE_MAX <= op.phase <= PHASE_MAX
    &&& env_wf(op.envelope)
}

/// The quantization step of a bit depth: `2^(32 - bd)` in raw Q32 units,
/// that is `2^-bd` as a real number.
pub open spec fn qstep(bd: int) -> int
    recommends
        1 <= bd <= 32,
{
    pow2((32 - bd) as nat) as int
}

/// Division rounding to the nearest multiple, halves away from zero.
pub open spec fn rnd_div(a: int, s: int) -> int
    recommends
        s >= 1,
{
    if a >= 0 {
        (a + s / 2) / s
    } else {
        -((-a + s / 2) / s)
    }
}

/// Bit-crushing: round to the nearest multiple of the quantization step,
/// then clamp to one unit either side.
pub open spec fn spec_crush(x: int, bd: int) -> int
    recommends
        1 <= bd <= 32,
{
    clamp_i(rnd_div(x, qstep(bd)) * qstep(bd), -(SCALE as int), SCALE as int)
}

/// The effective instantaneous frequency under linear FM: the ratio-scaled
/// base plus the modulation input scaled by the base.
pub open spec fn spec_eff_freq(op: Operator, m: int) -> int {
    tdiv(op.freq * op.ratio, SCALE as int) + tdiv(m * op.freq, SCALE as int)
}

/// The phase increment of one sample: `2 pi * effective frequency * dt`.
pub open spec fn spec_phase_step(op: Operator, dt: i64, m: int) -> int {
    tdiv(
        (TWO_PI_FP as int) * spec_eff_freq(op, m) * (dt as int),
        (SCALE as int) * (SCALE as int),
    )
}

/// The self-feedback term: the feedback fraction of the raw phase.
pub open spec fn spec_feedback(op: Operator) -> int {
    tdiv(op.feedback * op.phase, SCALE as int)
}

/// The next phase: accumulate increment and feedback, saturate at
/// `PHASE_MAX`, and wrap to one signed period when hard sync is on.
pub open spec fn spec_phase_next(op: Operator, dt: i64, m: int) -> int {
    let raw = op.phase + spec_phase_step(op, dt, m) + spec_feedback(op);
    let sat = clamp_i(raw, -(PHASE_MAX as int), PHASE_MAX as int);
    if op.sync {
        tmod(sat, TWO_PI_FP as int)
    } else {
        sat
    }
}

/// One full sample step of an operator: the updated operator and the sample
/// it emits. The envelope advances by `dt`; the output is
/// `amp * level * sin(phase)` clipped to 0.9 and bit-crushed.
pub open spec fn spec_sample(op: Operator, dt: i64, m: i64) -> (Operator, i64) {
    let ph = spec_phase_next(op, dt, m as int);
    let env = spec_advance(op.envelope, dt);
    let raw = tdiv(op.amp * env.level * spec_sin(ph), (SCALE as int) * (SCALE as int));
    let clipped = clamp_i(raw, -(CLIP_FP as int), CLIP_FP as int);
    let out = spec_crush(clipped, op.bit_depth as int);
    (Operator { phase: ph as i64, envelope: env, ..op }, out as i64)
}

impl Operator {
    /// A fresh operator with phase zero and the given parameters, owning the
    /// given envelope.
    pub fn new(
        freq: i64,
        amp: i64,
        env: Envelope,
        ratio: i64,
        feedback: i64,
        sync: bool,
        bit_depth: u8,
    ) -> (op: Operator)
        ensures
            op.freq == freq,
            op.amp == amp,
            op.envelope == env,
            op.ratio == ratio,
            op.feedback == feedback,
            op.sync == sync,
            op.bit_depth == bit_depth,
            op.phase == 0,
    {
        Operator { freq, amp, ratio, feedback, sync, bit_depth, phase: 0, envelope: env }
    }

    /// Wraps a phase to one signed period when hard sync is on; passes it
    /// through unchanged otherwise.
    pub fn hard_sync(&self, phase: i64) -> (r: i64)
        requires
            -PHASE_MAX <= phase <= PHASE_MAX,
        ensures
            r == if self.sync {
                tmod(phase as int, TWO_PI_FP as int)
            } else {
                phase as int
            },
            -PHASE_MAX <= r <= PHASE_MAX,
    {
        if self.sync {
            tmod_two_pi(phase)
        } else {
            phase
        }
    }

    /// Bit-crushes one sample: rounds it to the nearest multiple of the
    /// quantization step of `bit_depth`, then clamps it to one unit.
    pub fn crush(&self, sample: i64) -> (r: i64)
        requires
            1 <= self.bit_depth <= 32,
            -PHASE_MAX <= sample <= PHASE_MAX,
        ensures
            r == spec_crush(sample as int, self.bit_depth as int),
            -SCALE <= r <= SCALE,
    {
        let sh: u64 = 32u64 - (self.bit_depth as u64);
        proof {
            lemma_u64_pow2_no_overflow(sh as nat);
            lemma_u64_shl_is_mul(1u64, sh);
            lemma_pow2_pos(sh as nat);
        }
        let step: u64 = 1u64 << sh;
        let half: u64 = step / 2;
        proof {
            assert(step == qstep(self.bit_depth as int));
            assert(half == qstep(self.bit_depth as int) / 2);
        }
        if sample >= 0 {
            let n: u128 = (sample as u128) + (half as u128);
            let q: u128 = n / (step as u128);
            proof {
                lemma_fundamental_div_mod(n as int, step as int);
                lemma_mod_bound(n as int, step as int);
            }
            let y: u128 = q * (step as u128);
            proof {
                assert(y == n - (n as int) % (step as int));
                assert(q == rnd_div(sample as int, qstep(self.bit_depth as int)));
            }
            if y > SCALE as u128 {
                SCALE
            } else {
                y as i64
            }
        } else {
            let n: u128 = ((-sample) as u128) + (half as u128);
            let q: u128 = n / (step as u128);
            proof {
                lemma_fundamental_div_mod(n as int, step as int);
                lemma_mod_bound(n as int, step as int);
            }
            let y: u128 = q * (step as u128);
            proof {
                assert(y == n - (n as int) % (step as int));
                assert(-(q as int) == rnd_div(sample as int, qstep(self.bit_depth as int)));
                assert(-(q as int) * qstep(self.bit_depth as int) == -(y as int))
                    by (nonlinear_arith)
                    requires
                        y == q * qstep(self.bit_depth as int),
                ;
            }
            if y > SCALE as u128 {
                -SCALE
            } else {
                -(y as i64)
            }
        }
    }

    /// Renders one sample: updates the phase from the modulation input and
    /// self-feedback, advances the envelope, and emits the clipped,
    /// bit-crushed oscillator output. Exactly one step of `spec_sample`.
    pub fn sample(&mut self, dt: i64, modulation: i64) -> (out: i64)
        requires
            op_wf(*old(self)),
            1 <= dt <= SCALE,
            -MOD_IN_MAX <= modulation <= MOD_IN_MAX,
        ensures
            *final(self) == spec_sample(*old(self), dt, modulation).0,
            out == spec_sample(*old(self), dt, modulation).1,
            op_wf(*final(self)),
            -SCALE <= out <= SCALE,
    {
        proof {
            assert(0 <= self.freq * self.ratio <= (FREQ_MAX as int) * (GAIN_MAX as int))
                by (nonlinear_arith)
                requires
                    1 <= self.freq <= FREQ_MAX,
                    1 <= self.ratio <= GAIN_MAX,
            ;
            lemma_tdiv_bound(
                self.freq * self.ratio,
                SCALE as int,
                (FREQ_MAX as int) * (GAIN_MAX as int),
            );
        }
        let t1: i64 = muldiv_scale(self.freq, self.ratio);
        proof {
            assert(-(MOD_IN_MAX as int) * (FREQ_MAX as int) <= modulation * self.freq <= (
            MOD_IN_MAX as int) * (FREQ_MAX as int)) by (nonlinear_arith)
                requires
                    -MOD_IN_MAX <= modulation <= MOD_IN_MAX,
                    1 <= self.freq <= FREQ_MAX,
            ;
            lemma_tdiv_bound(
                modulation * self.freq,
                SCALE as int,
                (MOD_IN_MAX as int) * (FREQ_MAX as int),
            );
        }
        let t2: i64 = muldiv_scale(modulation, self.freq);
        let eff: i64 = t1 + t2;
        proof {
            assert(-(PHASE_MAX as int) * (SCALE as int) <= (TWO_PI_FP as int) * (eff as int) <= (
            PHASE_MAX as int) * (SCALE as int)) by (nonlinear_arith)
                requires
                    -380000000000000000 <= eff as int <= 380000000000000000,
            ;
        }
        let dphi: i64 = mul3_div_scale2(TWO_PI_FP, eff, dt);
        proof {
            assert(-(SCALE as int) * (PHASE_MAX as int) <= self.feedback * self.phase <= (
            SCALE as int) * (PHASE_MAX as int)) by (nonlinear_arith)
                requires
                    0 <= self.feedback <= SCALE,
                    -PHASE_MAX <= self.phase <= PHASE_MAX,
            ;
        }
        let fb: i64 = muldiv_scale(self.feedback, self.phase);
        let sum: i128 = (self.phase as i128) + (dphi as i128) + (fb as i128);
        let satv: i64 = if sum > PHASE_MAX as i128 {
            PHASE_MAX
        } else if sum < -(PHASE_MAX as i128) {
            -PHASE_MAX
        } else {
            sum as i64
        };
        let ghost prev = *self;
        self.phase = self.hard_sync(satv);
        proof {
            assert(self.phase == spec_phase_next(prev, dt, modulation as int));
        }
        self.envelope.advance(dt);
        let s: i64 = sin_fp(self.phase);
        proof {
            assert(-(GAIN_MAX as int) * (SCALE as int) <= self.amp * (s as int) <= (
            GAIN_MAX as int) * (SCALE as int)) by (nonlinear_arith)
                requires
                    0 <= self.amp <= GAIN_MAX,
                    -SCALE <= s as int <= SCALE,
            ;
        }
        let raw: i64 = mul3_div_scale2(self.amp, s, self.envelope.level);
        proof {
            assert((self.amp as int) * (s as int) * (self.envelope.level as int) == (
            self.amp as int) * (self.envelope.level as int) * (s as int)) by (nonlinear_arith);
        }
        let clipped: i64 = if raw > CLIP_FP {
            CLIP_FP
        } else if raw < -CLIP_FP {
            -CLIP_FP
        } else {
            raw
        };
        let out: i64 = self.crush(clipped);
        proof {
            assert(*self == spec_sample(prev, dt, modulation).0);
            assert(out == spec_sample(prev, dt, modulation).1);
        }
        out
    }
}

/// Bit-crushing is idempotent: crushing an already crushed sample changes
/// nothing, whatever the sample and bit depth.
pub proof fn lemma_crush_idempotent(x: int, bd: int)
    requires
        1 <= bd <= 32,
    ensures
        spec_crush(spec_crush(x, bd), bd) == spec_crush(x, bd),
{
    let s: int = qstep(bd);
    lemma_pow2_pos((32 - bd) as nat);
    lemma_pow2_adds(bd as nat, (32 - bd) as nat);
    lemma2_to64();
    assert(pow2(32) == SCALE);
    assert((pow2(bd as nat) as int) * s == SCALE) by {
        assert(pow2(bd as nat) * pow2((32 - bd) as nat) == pow2(32));
    }
    assert(s / 2 < s) by {
        lemma_fundamental_div_mod(s, 2);
        lemma_mod_bound(s, 2);
    }
    let k: int = rnd_div(x, s);
    let y0: int = k * s;
    let y: int = spec_crush(x, bd);
    let m: int = if y0 > SCALE {
        pow2(bd as nat) as int
    } else if y0 < -SCALE {
        -(pow2(bd as nat) as int)
    } else {
        k
    };
    assert(y == m * s) by {
        if y0 > SCALE {
        } else if y0 < -SCALE {
            assert(-((pow2(bd as nat) as int) * s) == (-(pow2(bd as nat) as int)) * s)
                by (nonlinear_arith);
        }
    }
    assert(-SCALE <= y <= SCALE);
    assert(rnd_div(y, s) == m) by {
        if m >= 0 {
            assert(m * s >= 0) by (nonlinear_arith)
                requires
                    m >= 0,
                    s >= 1,
            ;
            assert(s * m == m * s) by (nonlinear_arith);
            lemma_div_multiples_vanish_fancy(m, s / 2, s);
        } else {
            assert(m * s < 0) by (nonlinear_arith)
                requires
                    m < 0,
                    s >= 1,
            ;
            assert(-(m * s) == (-m) * s && s * (-m) == (-m) * s) by (nonlinear_arith);
            lemma_div_multiples_vanish_fancy(-m, s / 2, s);
        }
    }
}

} // verus!
