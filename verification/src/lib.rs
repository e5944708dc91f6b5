//! Core library of a software synthesizer and step sequencer.
//!
//! The crate holds the parts of the synthesizer that are plain data and
//! logic: the composition script parser, pitch and waveform tables, the
//! sequencer grid and its editing operations, the terminal widget state
//! machines, and the model of the state that the control thread shares
//! with the audio callback. Sample synthesis itself runs on `f32` audio
//! buffers and lives in the surrounding application.

pub mod dec;
pub mod dsl;
pub mod duration;
pub mod effects;
pub mod grid;
pub mod note;
pub mod num;
pub mod pitch;
pub mod sequence;
pub mod state;
pub mod text;
pub mod ui;
pub mod waveform;

use vstd::prelude::*;

verus! {

/// Samples per second used throughout the engine.
pub const SAMPLE_RATE: u64 = 44100;

/// Half the sample rate: the highest representable frequency.
pub const NYQUIST_FREQUENCY: u64 = 22050;

} // verus!
