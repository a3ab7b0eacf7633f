//! The four-stage (attack/decay/sustain/release) level generator that shapes
//! one operator's amplitude over a note's lifetime.
//!
//! Levels and the sustain fraction are Q32 values in `[0, SCALE]`; durations
//! and time steps are Q32 seconds. Each stage's per-step increment rounds up
//! (`rate`), so every advance in a moving stage makes progress and a stage
//! completes within `div_ceil(duration, dt)` steps.

use crate::fixed::{
    div_ceil, lemma_div_ceil_bounds, lemma_steps_cover, min_i, rate, rate_step, SCALE,
};
use vstd::arithmetic::mul::{lemma_mul_inequality, lemma_mul_inequality_converse};
use vstd::prelude::*;

verus! {

/// The stage an envelope is in. `Idle` means the voice is silent and
/// `advance` does nothing.
#[derive(Clone, Copy, PartialEq, Eq, Structural, Debug)]
pub enum Stage {
    Attack,
    Decay,
    Sustain,
    Release,
    Idle,
}

/// One ADSR envelope. The four parameters may be rewritten at any time by a
/// controller; the next `advance` uses the new values. `level`, `stage` and
/// `active` are the generator's own state.
#[derive(Clone, Copy, PartialEq, Eq, Structural, Debug)]
pub struct Envelope {
    /// Attack duration, Q32 seconds, at least one tick.
    pub attack: i64,
    /// Decay duration, Q32 seconds, at least one tick.
    pub decay: i64,
    /// Sustain level fraction, Q32 in `[0, SCALE]`.
    pub sustain: i64,
    /// Release duration, Q32 seconds, at least one tick.
    pub release: i64,
    /// Current stage.
    pub stage: Stage,
    /// Current output level, Q32 in `[0, SCALE]`.
    pub level: i64,
    /// Whether the envelope is sounding; exactly when `stage` is not `Idle`.
    pub active: bool,
}

/// The controller-settable parameters are in range: positive durations and a
/// sustain fraction within one unit.
pub open spec fn params_wf(e: Envelope) -> bool {
    &&& 1 <= e.attack
    &&& 1 <= e.decay
    &&& 1 <= e.release
    &&& 0 <= e.sustain <= SCALE
}

/// A well-formed envelope: parameters in range, level within one unit, and
/// `active` synchronised with the stage.
pub open spec fn env_wf(e: Envelope) -> bool {
    &&& params_wf(e)
    &&& 0 <= e.level <= SCALE
    &&& (e.active <==> e.stage != Stage::Idle)
}

/// What `note_on` does: restart from level zero in `Attack`.
pub open spec fn spec_note_on(e: Envelope) -> Envelope {
    Envelope { stage: Stage::Attack, level: 0, active: true, ..e }
}

/// What `note_off` does: force an active envelope into `Release` without
/// touching its level; a no-op on an idle envelope.
pub open spec fn spec_note_off(e: Envelope) -> Envelope {
    if e.active {
        Envelope { stage: Stage::Release, ..e }
    } else {
        e
    }
}

/// One `advance(dt)` step of the stage machine.
///
/// Attack raises the level by `rate(dt, SCALE, attack)` and clamps at one
/// unit, where it hands over to Decay; Decay lowers it by
/// `rate(dt, SCALE - sustain, decay)` and clamps at the sustain level, where
/// it hands over to Sustain; Sustain holds; Release lowers it by
/// `rate(dt, sustain, release)` and clamps at zero, where the envelope goes
/// idle. An idle envelope is untouched.
pub open spec fn spec_advance(e: Envelope, dt: i64) -> Envelope
    recommends
        env_wf(e),
        dt >= 1,
{
    if !e.active {
        e
    } else {
        match e.stage {
            Stage::Attack => {
                let lvl: int = min_i(
                    SCALE as int,
                    e.level + rate(dt as int, SCALE as int, e.attack as int),
                );
                if lvl == SCALE {
                    Envelope { stage: Stage::Decay, level: SCALE, ..e }
                } else {
                    Envelope { level: lvl as i64, ..e }
                }
            },
            Stage::Decay => {
                let dec: int = rate(dt as int, SCALE - e.sustain, e.decay as int);
                if e.level - dec <= e.sustain {
                    Envelope { stage: Stage::Sustain, level: e.sustain, ..e }
                } else {
                    Envelope { level: (e.level - dec) as i64, ..e }
                }
            },
            Stage::Sustain => e,
            Stage::Release => {
                let dec: int = rate(dt as int, e.sustain as int, e.release as int);
                if e.level - dec <= 0 {
                    Envelope { stage: Stage::Idle, level: 0, active: false, ..e }
                } else {
                    Envelope { level: (e.level - dec) as i64, ..e }
                }
            },
            Stage::Idle => e,
        }
    }
}

/// `n` advance steps of size `dt` in a row.
pub open spec fn spec_advance_n(e: Envelope, dt: i64, n: nat) -> Envelope
    decreases n,
{
    if n == 0 {
        e
    } else {
        spec_advance(spec_advance_n(e, dt, (n - 1) as nat), dt)
    }
}

impl Envelope {
    /// A fresh, idle envelope with the given parameters.
    pub fn new(attack: i64, decay: i64, sustain: i64, release: i64) -> (e: Envelope)
        ensures
            e.attack == attack,
            e.decay == decay,
            e.sustain == sustain,
            e.release == release,
            e.stage == Stage::Idle,
            e.level == 0,
            !e.active,
    {
        Envelope { attack, decay, sustain, release, stage: Stage::Idle, level: 0, active: false }
    }

    /// Restarts the envelope from level zero in `Attack`. Re-triggering
    /// mid-cycle restarts it; the audible retrigger is intended.
    pub fn note_on(&mut self)
        ensures
            *final(self) == spec_note_on(*old(self)),
    {
        self.stage = Stage::Attack;
        self.level = 0;
        self.active = true;
    }

    /// Forces an active envelope into `Release` from any stage, keeping its
    /// level. A no-op when the envelope is idle: no re-activation.
    pub fn note_off(&mut self)
        ensures
            *final(self) == spec_note_off(*old(self)),
    {
        if self.active {
            self.stage = Stage::Release;
        }
    }

    /// Advances the envelope by `dt` Q32 seconds: exactly one step of
    /// `spec_advance`. Well-formedness is preserved and the parameters are
    /// never touched.
    pub fn advance(&mut self, dt: i64)
        requires
            dt >= 1,
            env_wf(*old(self)),
        ensures
            *final(self) == spec_advance(*old(self), dt),
            env_wf(*final(self)),
    {
        if !self.active {
            return ;
        }
        match self.stage {
            Stage::Attack => {
                let inc: i64 = rate_step(dt, SCALE, self.attack);
                let lvl: i64 = self.level + inc;
                if lvl >= SCALE {
                    self.level = SCALE;
                    self.stage = Stage::Decay;
                } else {
                    self.level = lvl;
                }
            },
            Stage::Decay => {
                let dec: i64 = rate_step(dt, SCALE - self.sustain, self.decay);
                if self.level - dec <= self.sustain {
                    self.level = self.sustain;
                    self.stage = Stage::Sustain;
                } else {
                    self.level = self.level - dec;
                }
            },
            Stage::Sustain => {},
            Stage::Release => {
                let dec: i64 = rate_step(dt, self.sustain, self.release);
                if self.level - dec <= 0 {
                    self.level = 0;
                    self.stage = Stage::Idle;
                    self.active = false;
                } else {
                    self.level = self.level - dec;
                }
            },
            Stage::Idle => {},
        }
    }
}

/// One advance keeps the envelope well-formed and never touches the four
/// parameters.
pub proof fn lemma_advance_preserves(e: Envelope, dt: i64)
    requires
        env_wf(e),
        dt >= 1,
    ensures
        env_wf(spec_advance(e, dt)),
        spec_advance(e, dt).attack == e.attack,
        spec_advance(e, dt).decay == e.decay,
        spec_advance(e, dt).sustain == e.sustain,
        spec_advance(e, dt).release == e.release,
{
    lemma_rate_range(dt as int, SCALE as int, e.attack as int);
    lemma_rate_range(dt as int, SCALE - e.sustain, e.decay as int);
    lemma_rate_range(dt as int, e.sustain as int, e.release as int);
}

/// `rate` stays within `[0, SCALE]`, and is at least one when the numerator
/// is positive.
pub proof fn lemma_rate_range(dt: int, num: int, den: int)
    requires
        dt >= 1,
        0 <= num <= SCALE,
        den >= 1,
    ensures
        0 <= rate(dt, num, den) <= SCALE,
        num >= 1 ==> rate(dt, num, den) >= 1,
{
    assert(dt * num >= 0 && (num >= 1 ==> dt * num >= 1)) by (nonlinear_arith)
        requires
            dt >= 1,
            num >= 0,
    ;
    lemma_div_ceil_bounds(dt * num, den);
}

/// Enough steps of size `dt` to cover `den` add up to a full sweep: `k`
/// steps of `rate(dt, num, den)` reach at least `num`.
pub proof fn lemma_rate_covers(k: int, dt: int, num: int, den: int)
    requires
        dt >= 1,
        0 <= num <= SCALE,
        den >= 1,
        k >= div_ceil(den, dt),
    ensures
        k * rate(dt, num, den) >= num,
{
    lemma_div_ceil_bounds(den, dt);
    lemma_steps_cover(k, den, dt);
    let q: int = rate(dt, num, den);
    assert(dt * num >= 0) by (nonlinear_arith)
        requires
            dt >= 1,
            num >= 0,
    ;
    if div_ceil(dt * num, den) >= SCALE {
        assert(q == SCALE);
        lemma_mul_inequality(1, k, SCALE as int);
    } else {
        assert(q == div_ceil(dt * num, den));
        lemma_div_ceil_bounds(dt * num, den);
        assert(q * den >= dt * num);
        lemma_mul_inequality(dt * num, q * den, k);
        assert((dt * num) * k == (k * dt) * num) by (nonlinear_arith);
        lemma_mul_inequality(den, k * dt, num);
        assert((q * den) * k == (k * q) * den) by (nonlinear_arith);
        assert(den * num == num * den) by (nonlinear_arith);
        assert((k * dt) * num >= den * num);
        assert((k * q) * den >= num * den);
        lemma_mul_inequality_converse(num, k * q, den);
    }
}

/// An idle envelope is a fixed point of `advance`: level and stage are
/// untouched, whatever the step size.
pub proof fn lemma_idle_unmoved(e: Envelope, dt: i64)
    requires
        env_wf(e),
        dt >= 1,
        e.stage == Stage::Idle,
    ensures
        spec_advance(e, dt) == e,
{
}

/// An idle envelope stays untouched over any number of advances.
pub proof fn lemma_idle_unmoved_n(e: Envelope, dt: i64, n: nat)
    requires
        env_wf(e),
        dt >= 1,
        e.stage == Stage::Idle,
    ensures
        spec_advance_n(e, dt, n) == e,
    decreases n,
{
    if n > 0 {
        lemma_idle_unmoved_n(e, dt, (n - 1) as nat);
    }
}

/// During Attack the level only rises, strictly so below one unit, and the
/// stage hands over to Decay exactly when the level reaches one unit.
pub proof fn lemma_attack_step(e: Envelope, dt: i64)
    requires
        env_wf(e),
        dt >= 1,
        e.stage == Stage::Attack,
    ensures
        spec_advance(e, dt).level >= e.level,
        e.level < SCALE ==> spec_advance(e, dt).level > e.level,
        spec_advance(e, dt).stage == Stage::Attack || spec_advance(e, dt).stage == Stage::Decay,
        spec_advance(e, dt).stage == Stage::Decay <==> spec_advance(e, dt).level == SCALE,
{
    lemma_rate_range(dt as int, SCALE as int, e.attack as int);
}

/// During Decay the level only falls, never below the sustain level, strictly
/// so while above it, and the stage hands over to Sustain exactly at the
/// sustain level.
pub proof fn lemma_decay_step(e: Envelope, dt: i64)
    requires
        env_wf(e),
        dt >= 1,
        e.stage == Stage::Decay,
        e.level >= e.sustain,
    ensures
        spec_advance(e, dt).level <= e.level,
        spec_advance(e, dt).level >= e.sustain,
        e.level > e.sustain ==> spec_advance(e, dt).level < e.level,
        spec_advance(e, dt).stage == Stage::Decay || spec_advance(e, dt).stage == Stage::Sustain,
        spec_advance(e, dt).stage == Stage::Sustain ==> spec_advance(e, dt).level == e.sustain,
{
    lemma_rate_range(dt as int, SCALE - e.sustain, e.decay as int);
}

/// Sustain holds the level exactly: the envelope is a fixed point until a
/// `note_off`.
pub proof fn lemma_sustain_holds(e: Envelope, dt: i64)
    requires
        env_wf(e),
        dt >= 1,
        e.stage == Stage::Sustain,
    ensures
        spec_advance(e, dt) == e,
{
}

/// During Release the level only falls, strictly so while positive (for a
/// positive sustain fraction), and the envelope goes idle with level exactly
/// zero.
pub proof fn lemma_release_step(e: Envelope, dt: i64)
    requires
        env_wf(e),
        dt >= 1,
        e.stage == Stage::Release,
    ensures
        spec_advance(e, dt).level <= e.level,
        spec_advance(e, dt).stage == Stage::Release || spec_advance(e, dt).stage == Stage::Idle,
        spec_advance(e, dt).stage == Stage::Idle ==> spec_advance(e, dt).level == 0 && !spec_advance(
            e,
            dt,
        ).active,
        spec_advance(e, dt).stage == Stage::Release ==> spec_advance(e, dt).level >= 1,
        e.level > 0 && e.sustain >= 1 ==> spec_advance(e, dt).level < e.level,
{
    lemma_rate_range(dt as int, e.sustain as int, e.release as int);
}

/// An envelope in Attack leaves the stage within `div_ceil(attack, dt)`
/// steps: the level has reached one unit and decay has begun (or finished).
pub proof fn lemma_attack_completes(e: Envelope, dt: i64, n: nat)
    requires
        env_wf(e),
        dt >= 1,
        e.stage == Stage::Attack,
        n >= div_ceil(e.attack as int, dt as int),
    ensures
        spec_advance_n(e, dt, n).stage == Stage::Decay || spec_advance_n(e, dt, n).stage
            == Stage::Sustain,
{
    lemma_attack_run(e, dt, n);
    lemma_div_ceil_bounds(e.attack as int, dt as int);
    let r = spec_advance_n(e, dt, n);
    if r.stage == Stage::Attack {
        lemma_rate_covers(n as int, dt as int, SCALE as int, e.attack as int);
        assert(false);
    }
}

/// Invariant of a run that starts in Attack: while the stage is still Attack
/// the level has grown by exactly `k` increments and is still below one
/// unit; once it leaves, it is in Decay or Sustain.
proof fn lemma_attack_run(e: Envelope, dt: i64, k: nat)
    requires
        env_wf(e),
        dt >= 1,
        e.stage == Stage::Attack,
    ensures
        env_wf(spec_advance_n(e, dt, k)),
        spec_advance_n(e, dt, k).attack == e.attack,
        spec_advance_n(e, dt, k).sustain == e.sustain,
        spec_advance_n(e, dt, k).stage == Stage::Attack || spec_advance_n(e, dt, k).stage
            == Stage::Decay || spec_advance_n(e, dt, k).stage == Stage::Sustain,
        spec_advance_n(e, dt, k).stage == Stage::Attack ==> spec_advance_n(e, dt, k).level
            == e.level + k * rate(dt as int, SCALE as int, e.attack as int) && (k >= 1
            ==> spec_advance_n(e, dt, k).level < SCALE),
    decreases k,
{
    let inc: int = rate(dt as int, SCALE as int, e.attack as int);
    if k == 0 {
        assert(e.level + 0 * inc == e.level) by (nonlinear_arith);
    } else {
        lemma_attack_run(e, dt, (k - 1) as nat);
        let p = spec_advance_n(e, dt, (k - 1) as nat);
        lemma_advance_preserves(p, dt);
        lemma_rate_range(dt as int, SCALE as int, e.attack as int);
        if p.stage == Stage::Attack {
            assert(e.level + (k - 1) * inc + inc == e.level + k * inc) by (nonlinear_arith);
        }
    }
}

/// An envelope in Decay settles at the sustain level within
/// `div_ceil(decay, dt)` steps.
pub proof fn lemma_decay_completes(e: Envelope, dt: i64, n: nat)
    requires
        env_wf(e),
        dt >= 1,
        e.stage == Stage::Decay,
        n >= div_ceil(e.decay as int, dt as int),
    ensures
        spec_advance_n(e, dt, n).stage == Stage::Sustain,
        spec_advance_n(e, dt, n).level == e.sustain,
{
    lemma_decay_run(e, dt, n);
    lemma_div_ceil_bounds(e.decay as int, dt as int);
    let r = spec_advance_n(e, dt, n);
    if r.stage == Stage::Decay {
        lemma_rate_covers(n as int, dt as int, SCALE - e.sustain, e.decay as int);
        assert(false);
    }
}

/// Invariant of a run that starts in Decay: while the stage is still Decay
/// the level has dropped by exactly `k` decrements and is still above the
/// sustain level; once it leaves, it sits in Sustain at exactly that level.
proof fn lemma_decay_run(e: Envelope, dt: i64, k: nat)
    requires
        env_wf(e),
        dt >= 1,
        e.stage == Stage::Decay,
    ensures
        env_wf(spec_advance_n(e, dt, k)),
        spec_advance_n(e, dt, k).decay == e.decay,
        spec_advance_n(e, dt, k).sustain == e.sustain,
        spec_advance_n(e, dt, k).stage == Stage::Decay || spec_advance_n(e, dt, k).stage
            == Stage::Sustain,
        spec_advance_n(e, dt, k).stage == Stage::Decay ==> spec_advance_n(e, dt, k).level == e.level
            - k * rate(dt as int, SCALE - e.sustain, e.decay as int) && (k >= 1 ==> spec_advance_n(
            e,
            dt,
            k,
        ).level > e.sustain),
        spec_advance_n(e, dt, k).stage == Stage::Sustain ==> spec_advance_n(e, dt, k).level
            == e.sustain,
    decreases k,
{
    let dec: int = rate(dt as int, SCALE - e.sustain, e.decay as int);
    if k == 0 {
        assert(e.level - 0 * dec == e.level) by (nonlinear_arith);
        if e.level <= e.sustain {
        }
    } else {
        lemma_decay_run(e, dt, (k - 1) as nat);
        let p = spec_advance_n(e, dt, (k - 1) as nat);
        lemma_advance_preserves(p, dt);
        lemma_rate_range(dt as int, SCALE - e.sustain, e.decay as int);
        if p.stage == Stage::Decay {
            assert(e.level - (k - 1) * dec - dec == e.level - k * dec) by (nonlinear_arith);
        }
    }
}

/// Bounded termination of a release: from Release at or below the sustain
/// level, the envelope reaches exactly zero and goes inactive within
/// `div_ceil(release, dt)` steps.
pub proof fn lemma_release_completes(e: Envelope, dt: i64, n: nat)
    requires
        env_wf(e),
        dt >= 1,
        e.stage == Stage::Release,
        e.level <= e.sustain,
        n >= div_ceil(e.release as int, dt as int),
    ensures
        spec_advance_n(e, dt, n).stage == Stage::Idle,
        spec_advance_n(e, dt, n).level == 0,
        !spec_advance_n(e, dt, n).active,
{
    lemma_release_run(e, dt, n);
    lemma_div_ceil_bounds(e.release as int, dt as int);
    let r = spec_advance_n(e, dt, n);
    if r.stage == Stage::Release {
        lemma_rate_covers(n as int, dt as int, e.sustain as int, e.release as int);
        assert(false);
    }
}

/// Invariant of a run that starts in Release: while the stage is still
/// Release the level has dropped by exactly `k` decrements (and is positive
/// after at least one step); once it leaves, the envelope is idle at zero.
proof fn lemma_release_run(e: Envelope, dt: i64, k: nat)
    requires
        env_wf(e),
        dt >= 1,
        e.stage == Stage::Release,
    ensures
        env_wf(spec_advance_n(e, dt, k)),
        spec_advance_n(e, dt, k).release == e.release,
        spec_advance_n(e, dt, k).sustain == e.sustain,
        spec_advance_n(e, dt, k).stage == Stage::Release || spec_advance_n(e, dt, k).stage
            == Stage::Idle,
        spec_advance_n(e, dt, k).stage == Stage::Release ==> spec_advance_n(e, dt, k).level
            == e.level - k * rate(dt as int, e.sustain as int, e.release as int) && (k >= 1
            ==> spec_advance_n(e, dt, k).level >= 1),
        spec_advance_n(e, dt, k).stage == Stage::Idle ==> spec_advance_n(e, dt, k).level == 0
            && !spec_advance_n(e, dt, k).active,
    decreases k,
{
    let dec: int = rate(dt as int, e.sustain as int, e.release as int);
    if k == 0 {
        assert(e.level - 0 * dec == e.level) by (nonlinear_arith);
    } else {
        lemma_release_run(e, dt, (k - 1) as nat);
        let p = spec_advance_n(e, dt, (k - 1) as nat);
        lemma_advance_preserves(p, dt);
        lemma_rate_range(dt as int, e.sustain as int, e.release as int);
        if p.stage == Stage::Release {
            assert(e.level - (k - 1) * dec - dec == e.level - k * dec) by (nonlinear_arith);
        }
    }
}

} // verus!
