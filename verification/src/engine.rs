//! The synthesis engine: exactly four operators in a fixed serial modulation
//! chain, rendering blocks of Q32 samples at a fixed sample rate.
//!
//! Index 0 is the carrier; indices 1 to 3 are modulators. Each output slot
//! takes one sample from operator 3 (no incoming modulation), feeds it to
//! operator 2, that output to operator 1, and that to the carrier, whose
//! sample is written to the buffer. Note events fan out to all four
//! envelopes; the sample rate is fixed at construction.

use crate::envelope::{spec_note_off, spec_note_on, Envelope, Stage};
use crate::fixed::SCALE;
use crate::operator::{op_wf, spec_sample, Operator};
use vstd::arithmetic::div_mod::{
    lemma_div_is_ordered, lemma_div_is_ordered_by_denominator, lemma_div_multiples_vanish,
};
use vstd::pervasive::VecAdditionalExecFns;
use vstd::prelude::*;

verus! {

/// The monophonic four-operator synthesizer.
pub struct FMSynth {
    /// The four operators: index 0 the carrier, 1 to 3 the serial modulators.
    pub ops: Vec<Operator>,
    /// Sample rate in Hz (a plain integer), fixed at construction, in `[1, SCALE]`.
    pub sample_rate: i64,
}

/// A well-formed engine: exactly four well-formed operators and a positive
/// sample rate no larger than one Q32 unit.
pub open spec fn synth_wf(s: FMSynth) -> bool {
    &&& s.ops@.len() == 4
    &&& (forall|i: int| 0 <= i < 4 ==> op_wf(#[trigger] s.ops@[i]))
    &&& 1 <= s.sample_rate <= SCALE
}

/// `note_on` applied to one operator: only its envelope restarts.
pub open spec fn spec_op_note_on(op: Operator) -> Operator {
    Operator { envelope: spec_note_on(op.envelope), ..op }
}

/// `note_off` applied to one operator: only its envelope is released.
pub open spec fn spec_op_note_off(op: Operator) -> Operator {
    Operator { envelope: spec_note_off(op.envelope), ..op }
}

/// The sample period in Q32 seconds: `1 / sample_rate`, rounded down.
pub open spec fn spec_dt(sample_rate: i64) -> int {
    (SCALE as int) / (sample_rate as int)
}

/// One output slot of the chain: operator 3 samples with no modulation, its
/// output modulates operator 2, then 1, then the carrier; the carrier's
/// sample is the slot's value.
pub open spec fn spec_chain_step(ops: Seq<Operator>, dt: i64) -> (Seq<Operator>, i64)
    recommends
        ops.len() == 4,
{
    let r3 = spec_sample(ops[3], dt, 0);
    let r2 = spec_sample(ops[2], dt, r3.1);
    let r1 = spec_sample(ops[1], dt, r2.1);
    let r0 = spec_sample(ops[0], dt, r1.1);
    (seq![r0.0, r1.0, r2.0, r3.0], r0.1)
}

/// `n` output slots rendered in strictly increasing time order, each
/// depending only on the operator state left by the previous one.
pub open spec fn spec_render(ops: Seq<Operator>, dt: i64, n: nat) -> (Seq<Operator>, Seq<i64>)
    recommends
        ops.len() == 4,
    decreases n,
{
    if n == 0 {
        (ops, Seq::<i64>::empty())
    } else {
        let prev = spec_render(ops, dt, (n - 1) as nat);
        let step = spec_chain_step(prev.0, dt);
        (step.0, prev.1.push(step.1))
    }
}

/// Rendering zero slots is a no-op: the operators come out exactly as they
/// went in and nothing is produced.
pub proof fn lemma_render_zero(ops: Seq<Operator>, dt: i64)
    ensures
        spec_render(ops, dt, 0).0 == ops,
        spec_render(ops, dt, 0).1 == Seq::<i64>::empty(),
{
}

/// Rendering is block-size independent: a block of `m + n` slots leaves the
/// operators exactly where a block of `m` followed by a block of `n` does,
/// and produces the concatenation of the two outputs. Each slot depends only
/// on the operator state carried over from the previous one.
pub proof fn lemma_render_split(ops: Seq<Operator>, dt: i64, m: nat, n: nat)
    ensures
        spec_render(ops, dt, m + n).0 == spec_render(spec_render(ops, dt, m).0, dt, n).0,
        spec_render(ops, dt, m + n).1 == spec_render(ops, dt, m).1 + spec_render(
            spec_render(ops, dt, m).0,
            dt,
            n,
        ).1,
    decreases n,
{
    let mid = spec_render(ops, dt, m);
    if n == 0 {
        assert(spec_render(ops, dt, m).1 =~= mid.1 + spec_render(mid.0, dt, 0).1);
    } else {
        lemma_render_split(ops, dt, m, (n - 1) as nat);
        assert((m + n - 1) as nat == m + (n - 1) as nat);
        assert(spec_render(ops, dt, m + n).1 =~= mid.1 + spec_render(mid.0, dt, n).1);
    }
}

impl FMSynth {
    /// A fresh engine at the given sample rate, with the stock four-operator
    /// patch: a unison carrier and three synced modulators at rising ratios
    /// and falling bit depths, all sharing the same envelope settings.
    pub fn new(sample_rate: i64) -> (s: FMSynth)
        requires
            1 <= sample_rate <= SCALE,
        ensures
            synth_wf(s),
            s.sample_rate == sample_rate,
            s.ops@ == seq![
                default_carrier(),
                default_modulator1(),
                default_modulator2(),
                default_modulator3(),
            ],
    {
        let env: Envelope = Envelope::new(42949672, 214748364, 2576980377, 858993459);
        let mut ops: Vec<Operator> = Vec::new();
        ops.push(Operator::new(1889785610240, 4294967296, env, 4294967296, 0, false, 16));
        ops.push(Operator::new(944892805120, 3435973836, env, 6949257084, 214748364, true, 12));
        ops.push(Operator::new(472446402560, 2576980377, env, 10368051052, 429496729, true, 10));
        ops.push(Operator::new(236223201280, 1717986918, env, 16028817948, 644245094, true, 8));
        let s = FMSynth { ops, sample_rate };
        proof {
            assert(s.ops@ =~= seq![
                default_carrier(),
                default_modulator1(),
                default_modulator2(),
                default_modulator3(),
            ]);
        }
        s
    }

    /// Triggers the note: every operator's envelope restarts from zero in
    /// Attack. Nothing else changes; well-formedness is kept.
    pub fn note_on(&mut self)
        requires
            old(self).ops@.len() == 4,
        ensures
            final(self).ops@.len() == 4,
            forall|i: int|
                0 <= i < 4 ==> final(self).ops@[i] == spec_op_note_on(old(self).ops@[i]),
            final(self).sample_rate == old(self).sample_rate,
            synth_wf(*old(self)) ==> synth_wf(*final(self)),
    {
        let mut i: usize = 0;
        while i < 4
            invariant
                i <= 4,
                self.ops@.len() == 4,
                self.sample_rate == old(self).sample_rate,
                forall|j: int| 0 <= j < i ==> self.ops@[j] == spec_op_note_on(old(self).ops@[j]),
                forall|j: int| i <= j < 4 ==> self.ops@[j] == old(self).ops@[j],
            decreases 4 - i,
        {
            let mut o: Operator = self.ops[i];
            o.envelope.note_on();
            self.ops.set(i, o);
            i += 1;
        }
    }

    /// Releases the note: every active envelope is forced into Release,
    /// keeping its level; idle ones stay idle. Well-formedness is kept.
    pub fn note_off(&mut self)
        requires
            old(self).ops@.len() == 4,
        ensures
            final(self).ops@.len() == 4,
            forall|i: int|
                0 <= i < 4 ==> final(self).ops@[i] == spec_op_note_off(old(self).ops@[i]),
            final(self).sample_rate == old(self).sample_rate,
            synth_wf(*old(self)) ==> synth_wf(*final(self)),
    {
        let mut i: usize = 0;
        while i < 4
            invariant
                i <= 4,
                self.ops@.len() == 4,
                self.sample_rate == old(self).sample_rate,
                forall|j: int| 0 <= j < i ==> self.ops@[j] == spec_op_note_off(old(self).ops@[j]),
                forall|j: int| i <= j < 4 ==> self.ops@[j] == old(self).ops@[j],
            decreases 4 - i,
        {
            let mut o: Operator = self.ops[i];
            o.envelope.note_off();
            self.ops.set(i, o);
            i += 1;
        }
    }

    /// Fills the caller's buffer with one rendered block: one chain step per
    /// slot, in time order, exactly `spec_render` over the buffer's length.
    /// Every written sample lies within one unit; an empty buffer leaves the
    /// engine untouched.
    pub fn render_block(&mut self, out: &mut Vec<i64>)
        requires
            synth_wf(*old(self)),
        ensures
            synth_wf(*final(self)),
            final(self).sample_rate == old(self).sample_rate,
            final(out)@.len() == old(out)@.len(),
            final(self).ops@ == spec_render(
                old(self).ops@,
                spec_dt(old(self).sample_rate) as i64,
                old(out)@.len() as nat,
            ).0,
            final(out)@ == spec_render(
                old(self).ops@,
                spec_dt(old(self).sample_rate) as i64,
                old(out)@.len() as nat,
            ).1,
            forall|j: int|
                0 <= j < final(out)@.len() ==> -SCALE <= #[trigger] final(out)@[j] <= SCALE,
            old(out)@.len() == 0 ==> final(self).ops@ == old(self).ops@ && final(out)@ == old(
                out,
            )@,
    {
        proof {
            lemma_div_is_ordered(self.sample_rate as int, SCALE as int, self.sample_rate as int);
            lemma_div_multiples_vanish(1, self.sample_rate as int);
            lemma_div_is_ordered_by_denominator(SCALE as int, 1, self.sample_rate as int);
        }
        let dt: i64 = ((SCALE as u64) / (self.sample_rate as u64)) as i64;
        proof {
            assert(dt == spec_dt(old(self).sample_rate));
            assert(1 <= dt <= SCALE);
        }
        let len: usize = out.len();
        let mut i: usize = 0;
        while i < len
            invariant
                i <= len,
                out@.len() == len,
                self.ops@.len() == 4,
                forall|k: int| 0 <= k < 4 ==> op_wf(#[trigger] self.ops@[k]),
                self.sample_rate == old(self).sample_rate,
                1 <= dt <= SCALE,
                dt == spec_dt(old(self).sample_rate),
                self.ops@ == spec_render(old(self).ops@, dt, i as nat).0,
                out@.subrange(0, i as int) == spec_render(old(self).ops@, dt, i as nat).1,
                forall|j: int| 0 <= j < i ==> -SCALE <= #[trigger] out@[j] <= SCALE,
                forall|j: int| i <= j < len ==> out@[j] == old(out)@[j],
            decreases len - i,
        {
            let ghost pre = self.ops@;
            let mut o3: Operator = self.ops[3];
            let m3: i64 = o3.sample(dt, 0);
            self.ops.set(3, o3);
            let mut o2: Operator = self.ops[2];
            let m2: i64 = o2.sample(dt, m3);
            self.ops.set(2, o2);
            let mut o1: Operator = self.ops[1];
            let m1: i64 = o1.sample(dt, m2);
            self.ops.set(1, o1);
            let mut o0: Operator = self.ops[0];
            let s0: i64 = o0.sample(dt, m1);
            self.ops.set(0, o0);
            out.set(i, s0);
            proof {
                let step = spec_chain_step(pre, dt);
                assert(self.ops@ =~= step.0);
                assert(s0 == step.1);
                assert(spec_render(old(self).ops@, dt, (i + 1) as nat).0 == step.0);
                assert(out@.subrange(0, (i + 1) as int) =~= spec_render(
                    old(self).ops@,
                    dt,
                    i as nat,
                ).1.push(s0));
            }
            i += 1;
        }
        proof {
            assert(out@.subrange(0, len as int) =~= out@);
        }
    }
}

/// The stock carrier: 440 Hz, unit amplitude, unison ratio, no feedback, no
/// hard sync, 16-bit output, idle stock envelope.
pub open spec fn default_carrier() -> Operator {
    Operator {
        freq: 1889785610240,
        amp: 4294967296,
        ratio: 4294967296,
        feedback: 0,
        sync: false,
        bit_depth: 16,
        phase: 0,
        envelope: default_env(),
    }
}

/// The first modulator: 220 Hz, 0.8 gain, golden-ratio tuning, light
/// feedback, hard sync, 12-bit output.
pub open spec fn default_modulator1() -> Operator {
    Operator {
        freq: 944892805120,
        amp: 3435973836,
        ratio: 6949257084,
        feedback: 214748364,
        sync: true,
        bit_depth: 12,
        phase: 0,
        envelope: default_env(),
    }
}

/// The second modulator: 110 Hz, 0.6 gain, silver-ratio tuning, moderate
/// feedback, hard sync, 10-bit output.
pub open spec fn default_modulator2() -> Operator {
    Operator {
        freq: 472446402560,
        amp: 2576980377,
        ratio: 10368051052,
        feedback: 429496729,
        sync: true,
        bit_depth: 10,
        phase: 0,
        envelope: default_env(),
    }
}

/// The deepest modulator: 55 Hz, 0.4 gain, bronze-ratio tuning, the
/// strongest feedback, hard sync, 8-bit output.
pub open spec fn default_modulator3() -> Operator {
    Operator {
        freq: 236223201280,
        amp: 1717986918,
        ratio: 16028817948,
        feedback: 644245094,
        sync: true,
        bit_depth: 8,
        phase: 0,
        envelope: default_env(),
    }
}

/// The stock envelope: 10 ms attack, 50 ms decay, 0.6 sustain, 200 ms
/// release, idle.
pub open spec fn default_env() -> Envelope {
    Envelope {
        attack: 42949672,
        decay: 214748364,
        sustain: 2576980377,
        release: 858993459,
        stage: Stage::Idle,
        level: 0,
        active: false,
    }
}

} // verus!
