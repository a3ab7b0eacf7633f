//! Behavior of the four-operator engine: note fan-out, zero-length renders,
//! block chaining, and the bounded full-chain scenario.

use fm_synth::engine::FMSynth;
use fm_synth::envelope::Stage;
use fm_synth::fixed::SCALE;

#[test]
fn new_engine_has_stock_patch() {
    let s = FMSynth::new(44100);
    assert_eq!(s.sample_rate, 44100);
    assert_eq!(s.ops.len(), 4);
    assert_eq!(s.ops[0].freq, 440 * SCALE);
    assert_eq!(s.ops[1].freq, 220 * SCALE);
    assert_eq!(s.ops[2].freq, 110 * SCALE);
    assert_eq!(s.ops[3].freq, 55 * SCALE);
    assert_eq!(s.ops[0].ratio, SCALE);
    assert!(!s.ops[0].sync);
    assert!(s.ops[1].sync && s.ops[2].sync && s.ops[3].sync);
    assert_eq!(s.ops[0].bit_depth, 16);
    assert_eq!(s.ops[3].bit_depth, 8);
    for op in &s.ops {
        assert_eq!(op.phase, 0);
        assert_eq!(op.envelope.stage, Stage::Idle);
        assert!(!op.envelope.active);
    }
}

#[test]
fn note_events_fan_out_to_all_envelopes() {
    let mut s = FMSynth::new(44100);
    s.note_on();
    for op in &s.ops {
        assert_eq!(op.envelope.stage, Stage::Attack);
        assert_eq!(op.envelope.level, 0);
        assert!(op.envelope.active);
    }
    s.note_off();
    for op in &s.ops {
        assert_eq!(op.envelope.stage, Stage::Release);
        assert!(op.envelope.active);
    }
}

#[test]
fn render_zero_length_leaves_state_unchanged() {
    let mut s = FMSynth::new(44100);
    s.note_on();
    let mut warmup = vec![0i64; 64];
    s.render_block(&mut warmup);
    let before: Vec<_> = s.ops.clone();
    let mut empty: Vec<i64> = Vec::new();
    s.render_block(&mut empty);
    assert!(empty.is_empty());
    assert_eq!(s.ops, before);
    assert_eq!(s.sample_rate, 44100);
}

#[test]
fn render_in_two_blocks_matches_one_block() {
    let mut a = FMSynth::new(44100);
    let mut b = FMSynth::new(44100);
    a.note_on();
    b.note_on();
    let mut whole = vec![0i64; 100];
    a.render_block(&mut whole);
    let mut first = vec![0i64; 50];
    let mut second = vec![0i64; 50];
    b.render_block(&mut first);
    b.render_block(&mut second);
    first.extend_from_slice(&second);
    assert_eq!(whole, first);
    assert_eq!(a.ops, b.ops);
}

#[test]
fn full_chain_block_stays_within_one_unit() {
    // The stock chain with every envelope forced to full level: a 1024-slot
    // block renders with every value in [-1, 1] (no value can escape the
    // clip-and-crush stage).
    let mut s = FMSynth::new(44100);
    for op in s.ops.iter_mut() {
        op.envelope.sustain = SCALE;
        op.envelope.level = SCALE;
        op.envelope.stage = Stage::Sustain;
        op.envelope.active = true;
    }
    let mut block = vec![0i64; 1024];
    s.render_block(&mut block);
    let mut nonzero = 0;
    for &v in &block {
        assert!(-SCALE <= v && v <= SCALE);
        if v != 0 {
            nonzero += 1;
        }
    }
    assert!(nonzero > 0, "a sounding chain must produce signal");
}

#[test]
fn silent_engine_renders_silence() {
    let mut s = FMSynth::new(44100);
    let mut block = vec![123i64; 32];
    s.render_block(&mut block);
    for &v in &block {
        assert_eq!(v, 0);
    }
}
