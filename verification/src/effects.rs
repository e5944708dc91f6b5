//! Effect configurations: envelope, delay, flanger and low-frequency
//! oscillator settings, and the per-track chain that groups them.
//!
//! These are the plain settings a track or note carries; the sample-rate
//! arithmetic that applies them to `f32` audio runs in the application.

use crate::dec::Dec;
use crate::waveform::Waveform;
use vstd::prelude::*;

verus! {

/// One envelope segment: its length as a fraction of the note, and the
/// gain it ends at.
#[derive(Clone, Copy, Debug, PartialEq, Eq, Structural)]
pub struct EnvelopePair(pub Dec, pub Dec);

/// An attack-decay-sustain-release gain curve.
#[derive(Clone, Copy, Debug, PartialEq, Eq, Structural)]
pub struct Envelope {
    pub attack: EnvelopePair,
    pub decay: EnvelopePair,
    pub sustain: EnvelopePair,
    pub release: EnvelopePair,
}

/// A multi-tap feedback delay's settings.
#[derive(Clone, Copy, Debug, PartialEq, Eq, Structural)]
pub struct Delay {
    pub id: usize,
    pub mix: Dec,
    pub decay: Dec,
    pub interval_ms: Dec,
    pub duration_ms: Dec,
    pub num_repeats: usize,
    pub num_predelay_samples: usize,
    pub num_concurrent_sample_managers: usize,
}

/// A flanger's settings: its history window and mix level.
#[derive(Clone, Copy, Debug, PartialEq, Eq, Structural)]
pub struct Flanger {
    pub window_size: usize,
    pub mix: Dec,
}

/// A low-frequency oscillator's settings.
#[derive(Clone, Debug, PartialEq)]
pub struct LFO {
    pub frequency: Dec,
    pub amplitude: Dec,
    pub waveforms: Vec<Waveform>,
}

/// The effect chain a track applies to every note it plays.
#[derive(Clone, Debug, PartialEq)]
pub struct TrackEffects {
    pub envelopes: Vec<Envelope>,
    pub delays: Vec<Delay>,
    pub flangers: Vec<Flanger>,
    pub lfos: Vec<LFO>,
    /// Stereo position, negative for left: zero is centred.
    pub panning: Dec,
    pub num_channels: i8,
}

/// An effect chain that changes nothing: no effects, centred, one channel.
pub fn no_op_effects() -> (r: TrackEffects)
    ensures
        r.envelopes@.len() == 0,
        r.delays@.len() == 0,
        r.flangers@.len() == 0,
        r.lfos@.len() == 0,
        r.panning.micro == 0,
        r.num_channels == 1,
{
    TrackEffects {
        envelopes: Vec::new(),
        delays: Vec::new(),
        flangers: Vec::new(),
        lfos: Vec::new(),
        panning: Dec::zero(),
        num_channels: 1,
    }
}

} // verus!
