//! Behavior of the ADSR envelope: idleness, stage-wise monotonicity,
//! bounded release, and the stock attack scenario.

use fm_synth::envelope::{Envelope, Stage};
use fm_synth::fixed::SCALE;

const HALF: i64 = SCALE / 2;
const TENTH_SECOND: i64 = 429496729;

#[test]
fn idle_envelope_unmoved_by_advance() {
    let mut e = Envelope::new(SCALE, SCALE, HALF, SCALE);
    for dt in [1i64, 1000, TENTH_SECOND, SCALE, i64::MAX] {
        e.advance(dt);
        assert_eq!(e.level, 0);
        assert_eq!(e.stage, Stage::Idle);
        assert!(!e.active);
    }
}

#[test]
fn attack_decay_sustain_monotone() {
    let mut e = Envelope::new(SCALE, SCALE, HALF, SCALE);
    e.note_on();
    assert_eq!(e.level, 0);
    assert_eq!(e.stage, Stage::Attack);
    let mut reached_peak = false;
    let mut prev = e;
    for _ in 0..40 {
        e.advance(TENTH_SECOND);
        match prev.stage {
            Stage::Attack => {
                assert!(e.level >= prev.level);
                if prev.level < SCALE {
                    assert!(e.level > prev.level);
                }
                if e.stage == Stage::Decay {
                    assert_eq!(e.level, SCALE);
                    reached_peak = true;
                } else {
                    assert_eq!(e.stage, Stage::Attack);
                }
            }
            Stage::Decay => {
                assert!(e.level <= prev.level);
                assert!(e.level >= HALF);
                if e.stage == Stage::Sustain {
                    assert_eq!(e.level, HALF);
                } else {
                    assert_eq!(e.stage, Stage::Decay);
                }
            }
            Stage::Sustain => {
                assert_eq!(e.stage, Stage::Sustain);
                assert_eq!(e.level, HALF);
            }
            other => panic!("unexpected stage {:?}", other),
        }
        prev = e;
    }
    assert!(reached_peak);
    assert_eq!(e.stage, Stage::Sustain);
    assert_eq!(e.level, HALF);
}

#[test]
fn attack_steps_are_exact() {
    // With attack of one second, each tenth-of-a-second step raises the
    // level by exactly the step size (the ceiling rounding is exact here).
    let mut e = Envelope::new(SCALE, SCALE, HALF, SCALE);
    e.note_on();
    e.advance(TENTH_SECOND);
    assert_eq!(e.level, 429496729);
    e.advance(TENTH_SECOND);
    assert_eq!(e.level, 858993458);
}

#[test]
fn decay_and_release_steps_are_exact() {
    let mut e = Envelope::new(SCALE, SCALE, HALF, SCALE);
    e.note_on();
    for _ in 0..11 {
        e.advance(TENTH_SECOND);
    }
    assert_eq!(e.stage, Stage::Decay);
    assert_eq!(e.level, SCALE);
    // Decay rate: ceil(dt * (1 - sustain) / decay) with these values is
    // exactly 214748365 per step.
    e.advance(TENTH_SECOND);
    assert_eq!(e.level, SCALE - 214748365);
}

#[test]
fn release_reaches_zero_within_bound() {
    let mut e = Envelope::new(SCALE, SCALE, HALF, SCALE);
    e.note_on();
    for _ in 0..30 {
        e.advance(TENTH_SECOND);
    }
    assert_eq!(e.stage, Stage::Sustain);
    e.note_off();
    assert_eq!(e.stage, Stage::Release);
    assert_eq!(e.level, HALF);
    // Bounded termination: at most ceil(release / dt) = 11 steps.
    let mut steps = 0;
    let mut prev_level = e.level;
    while e.active {
        e.advance(TENTH_SECOND);
        steps += 1;
        assert!(e.level <= prev_level);
        prev_level = e.level;
        assert!(steps <= 11, "release did not finish within the bound");
    }
    assert_eq!(e.level, 0);
    assert_eq!(e.stage, Stage::Idle);
    assert!(!e.active);
}

#[test]
fn release_from_early_attack_terminates() {
    let mut e = Envelope::new(SCALE, SCALE, HALF, SCALE);
    e.note_on();
    for _ in 0..3 {
        e.advance(TENTH_SECOND);
    }
    assert!(e.level < HALF);
    e.note_off();
    let mut steps = 0;
    while e.active {
        e.advance(TENTH_SECOND);
        steps += 1;
        assert!(steps <= 11);
    }
    assert_eq!(e.level, 0);
    assert_eq!(e.stage, Stage::Idle);
}

#[test]
fn note_off_when_idle_is_noop() {
    let mut e = Envelope::new(SCALE, SCALE, HALF, SCALE);
    e.note_off();
    assert_eq!(e.stage, Stage::Idle);
    assert!(!e.active);
    e.advance(TENTH_SECOND);
    assert_eq!(e.level, 0);
    assert_eq!(e.stage, Stage::Idle);
}

#[test]
fn note_on_restarts_mid_cycle() {
    let mut e = Envelope::new(SCALE, SCALE, HALF, SCALE);
    e.note_on();
    for _ in 0..5 {
        e.advance(TENTH_SECOND);
    }
    assert!(e.level > 0);
    e.note_on();
    assert_eq!(e.level, 0);
    assert_eq!(e.stage, Stage::Attack);
    assert!(e.active);
}

#[test]
fn stock_attack_completes_by_tenth_call() {
    // The stock scenario: attack 10 ms, decay 50 ms, sustain 0.6,
    // release 200 ms (Q32), advanced ten times by one millisecond.
    let mut e = Envelope::new(42949672, 214748364, 2576980377, 858993459);
    e.note_on();
    let one_ms: i64 = 4294968;
    let mut calls = 0;
    for _ in 0..10 {
        e.advance(one_ms);
        calls += 1;
        if e.stage == Stage::Decay {
            break;
        }
    }
    assert_eq!(e.stage, Stage::Decay, "level must peak within ten calls");
    assert_eq!(calls, 10);
}
