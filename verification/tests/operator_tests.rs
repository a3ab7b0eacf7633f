//! Behavior of one operator: quantization, the fixed-point sine, hard sync,
//! and the pure-tone rendering scenario.

use fm_synth::envelope::{Envelope, Stage};
use fm_synth::fixed::{CLIP_FP, PI_FP, SCALE, TWO_PI_FP};
use fm_synth::operator::Operator;
use fm_synth::trig::sin_fp;

const DT_44100: i64 = SCALE / 44100;

fn sustained_env() -> Envelope {
    let mut e = Envelope::new(SCALE, SCALE, SCALE, SCALE);
    e.sustain = SCALE;
    e.stage = Stage::Sustain;
    e.level = SCALE;
    e.active = true;
    e
}

fn pure_tone() -> Operator {
    // 440 Hz, unit amplitude, unison ratio, no feedback, no sync, 16 bits,
    // envelope held at full level.
    Operator::new(440 * SCALE, SCALE, sustained_env(), SCALE, 0, false, 16)
}

#[test]
fn crush_is_idempotent() {
    let op8 = Operator::new(SCALE, SCALE, Envelope::new(1, 1, 0, 1), SCALE, 0, false, 8);
    let op16 = Operator::new(SCALE, SCALE, Envelope::new(1, 1, 0, 1), SCALE, 0, false, 16);
    let probes: [i64; 9] = [
        0,
        1,
        -1,
        123456789,
        -987654321,
        SCALE,
        -SCALE,
        CLIP_FP,
        -CLIP_FP,
    ];
    for x in probes {
        let once8 = op8.crush(x);
        assert_eq!(op8.crush(once8), once8);
        let once16 = op16.crush(x);
        assert_eq!(op16.crush(once16), once16);
    }
}

#[test]
fn crush_rounds_to_quantization_step() {
    let op = Operator::new(SCALE, SCALE, Envelope::new(1, 1, 0, 1), SCALE, 0, false, 8);
    // The 8-bit step is 2^24 raw units; halves round away from zero.
    let step: i64 = 1 << 24;
    assert_eq!(op.crush(step / 2), step);
    assert_eq!(op.crush(step / 2 - 1), 0);
    assert_eq!(op.crush(-(step / 2)), -step);
    assert_eq!(op.crush(3 * step + 5), 3 * step);
}

#[test]
fn crush_clamps_to_one_unit() {
    let op = Operator::new(SCALE, SCALE, Envelope::new(1, 1, 0, 1), SCALE, 0, false, 8);
    assert_eq!(op.crush(2 * SCALE), SCALE);
    assert_eq!(op.crush(-2 * SCALE), -SCALE);
}

#[test]
fn sine_quarter_points_are_exact() {
    assert_eq!(sin_fp(0), 0);
    assert_eq!(sin_fp(PI_FP / 2), SCALE);
    assert_eq!(sin_fp(PI_FP), 0);
    assert_eq!(sin_fp(3 * (PI_FP / 2)), -SCALE);
    assert_eq!(sin_fp(TWO_PI_FP), 0);
    assert_eq!(sin_fp(-(PI_FP / 2)), -SCALE);
    assert_eq!(sin_fp(TWO_PI_FP + PI_FP / 2), SCALE);
}

#[test]
fn sine_stays_within_one_unit() {
    let mut p: i64 = -5 * TWO_PI_FP;
    while p < 5 * TWO_PI_FP {
        let s = sin_fp(p);
        assert!(-SCALE <= s && s <= SCALE);
        p += 777777777;
    }
}

#[test]
fn hard_sync_wraps_phase_only_when_enabled() {
    let env = Envelope::new(1, 1, 0, 1);
    let synced = Operator::new(SCALE, SCALE, env, SCALE, 0, true, 8);
    let free = Operator::new(SCALE, SCALE, env, SCALE, 0, false, 8);
    assert_eq!(synced.hard_sync(TWO_PI_FP + 5), 5);
    assert_eq!(synced.hard_sync(-(TWO_PI_FP + 5)), -5);
    assert_eq!(synced.hard_sync(7), 7);
    assert_eq!(free.hard_sync(TWO_PI_FP + 5), TWO_PI_FP + 5);
}

#[test]
fn pure_tone_first_sample_is_exact() {
    let mut op = pure_tone();
    let s = op.sample(DT_44100, 0);
    assert_eq!(s, 336003072);
    assert_eq!(op.phase, 269247308);
}

#[test]
fn pure_tone_period_has_zero_mean_and_headroom() {
    // One period of a 440 Hz tone at 44100 Hz is about 100 samples. The
    // rendered sequence has (near) zero mean and stays under the 0.9
    // clipping threshold plus one rounding step of the 16-bit quantizer.
    let mut op = pure_tone();
    let mut sum: i64 = 0;
    let headroom: i64 = CLIP_FP + (1 << 15);
    for _ in 0..100 {
        let s = op.sample(DT_44100, 0);
        assert!(-headroom <= s && s <= headroom);
        sum += s;
    }
    // Mean within 0.001 of zero (quantization and partial-period error).
    assert!(sum.abs() < SCALE / 10);
}

#[test]
fn sample_advances_envelope() {
    let env = Envelope::new(SCALE, SCALE, SCALE / 2, SCALE);
    let mut op = Operator::new(440 * SCALE, SCALE, env, SCALE, 0, false, 16);
    op.envelope.note_on();
    op.sample(429496729, 0);
    assert_eq!(op.envelope.level, 429496729);
    assert_eq!(op.envelope.stage, Stage::Attack);
}

#[test]
fn silent_envelope_gives_silent_output() {
    // An idle envelope contributes zero amplitude: the output is exactly 0.
    let mut op = Operator::new(440 * SCALE, SCALE, Envelope::new(1, 1, 0, 1), SCALE, 0, false, 16);
    for _ in 0..10 {
        assert_eq!(op.sample(DT_44100, 0), 0);
    }
}
