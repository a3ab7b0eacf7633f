//! A monophonic four-operator FM synthesis core.
//!
//! The whole signal path runs in Q32 fixed point (32 fractional bits): an
//! ADSR envelope per operator, a phase-accumulating oscillator with linear
//! frequency modulation, phase self-feedback, optional hard sync, output
//! clipping and bit-crushing, and a fixed serial chain of three modulators
//! feeding one carrier. Audio devices, controls and sample-format conversion
//! are left to the surrounding program; the core only takes note events and
//! fills caller-owned sample buffers.

pub mod engine;
pub mod envelope;
pub mod fixed;
pub mod operator;
pub mod trig;
