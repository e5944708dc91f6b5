//! The state the control thread shares with the audio callback, as plain
//! values.
//!
//! In the running engine every field of this state lives in its own
//! atomic cell, stored and loaded independently with no ordering between
//! fields; the application performs those loads and stores and hands the
//! plain values through here. The grid is flat: the cell of a track and
//! step stands at `track * 16 + step`. The audio callback owns the step
//! counter: it alone advances it, and the editor only reads it.

use crate::dec::Dec;
use crate::waveform::Waveform;
use vstd::prelude::*;

verus! {

/// One intent the editor sends towards the audio engine.
#[derive(Clone, Debug, PartialEq)]
pub enum ParameterUpdate {
    OscillatorFrequency(Dec),
    OscillatorVolume(Dec),
    OscillatorWaveform(Waveform),
    FilterCutoff(Dec),
    FilterResonance(Dec),
    EnvelopeAttack(Dec),
    EnvelopeDecay(Dec),
    EnvelopeSustain(Dec),
    EnvelopeRelease(Dec),
    SequencerStep { track: u8, step: u8, enabled: bool },
    TransportPlay,
    TransportStop,
    TempoChange(Dec),
}

/// The flat position of a track and step pair.
pub open spec fn flat_index(track: int, step: int) -> int {
    track * 16 + step
}

/// The shared state's value: transport, oscillator settings, and the
/// eight-by-sixteen sequencer grid.
#[derive(Clone, Debug, PartialEq)]
pub struct SequencerState {
    pub is_playing: bool,
    /// The step the callback is playing, below sixteen.
    pub current_step: usize,
    /// Beats per minute.
    pub tempo: Dec,
    /// Hertz.
    pub osc_frequency: Dec,
    pub osc_volume: Dec,
    pub osc_waveform: Waveform,
    /// Monotonic count of frames produced.
    pub sample_count: u64,
    /// Whether each cell sounds, at `track * 16 + step`.
    pub track_steps: Vec<bool>,
    /// Per-track volume.
    pub track_volumes: Vec<Dec>,
    /// Per-cell frequency in centihertz, at `track * 16 + step`.
    pub step_frequencies: Vec<u32>,
}

impl SequencerState {
    /// The shape the state always keeps: a full grid, eight volumes, and
    /// the step counter inside the cycle of sixteen.
    pub open spec fn wf(&self) -> bool {
        &&& self.track_steps@.len() == 128
        &&& self.track_volumes@.len() == 8
        &&& self.step_frequencies@.len() == 128
        &&& self.current_step < 16
    }

    /// The starting state: stopped at step zero, tempo one hundred and
    /// twenty, concert A at three quarters volume on a sine, every cell
    /// silent at middle C's octave-below frequency.
    pub fn new() -> (r: SequencerState)
        ensures
            r.wf(),
            !r.is_playing,
            r.current_step == 0,
            r.tempo.micro == 120_000_000,
            r.osc_frequency.micro == 440_000_000,
            r.osc_volume.micro == 750_000,
            r.osc_waveform == Waveform::Sine,
            r.sample_count == 0,
            forall|i: int| 0 <= i < 128 ==> !(#[trigger] r.track_steps@[i]),
            forall|i: int| 0 <= i < 8 ==> (#[trigger] r.track_volumes@[i]).micro == 800_000,
            forall|i: int| 0 <= i < 128 ==> (#[trigger] r.step_frequencies@[i]) == 26163,
    {
        let mut track_steps: Vec<bool> = Vec::new();
        let mut step_frequencies: Vec<u32> = Vec::new();
        let mut i: usize = 0;
        while i < 128
            invariant
                i <= 128,
                track_steps@.len() == i,
                step_frequencies@.len() == i,
                forall|j: int| 0 <= j < i ==> !(#[trigger] track_steps@[j]),
                forall|j: int| 0 <= j < i ==> (#[trigger] step_frequencies@[j]) == 26163,
            decreases 128 - i,
        {
            track_steps.push(false);
            step_frequencies.push(26163);
            i = i + 1;
        }
        let mut track_volumes: Vec<Dec> = Vec::new();
        let mut t: usize = 0;
        while t < 8
            invariant
                t <= 8,
                track_volumes@.len() == t,
                forall|j: int| 0 <= j < t ==> (#[trigger] track_volumes@[j]).micro == 800_000,
            decreases 8 - t,
        {
            track_volumes.push(Dec::from_micro(800_000));
            t = t + 1;
        }
        SequencerState {
            is_playing: false,
            current_step: 0,
            tempo: Dec::from_micro(120_000_000),
            osc_frequency: Dec::from_micro(440_000_000),
            osc_volume: Dec::from_micro(750_000),
            osc_waveform: Waveform::Sine,
            sample_count: 0,
            track_steps,
            track_volumes,
            step_frequencies,
        }
    }

    /// The flat position of a cell.
    pub fn step_index(track: usize, step: usize) -> (r: usize)
        requires
            track < 8,
            step < 16,
        ensures
            r == flat_index(track as int, step as int),
            r < 128,
    {
        track * 16 + step
    }

    /// Turns one cell on or off; every other cell keeps its value.
    pub fn set_step_enabled(&mut self, track: usize, step: usize, enabled: bool)
        requires
            old(self).wf(),
            track < 8,
            step < 16,
        ensures
            final(self).wf(),
            *final(self) == (SequencerState {
                track_steps: final(self).track_steps,
                ..*old(self)
            }),
            final(self).track_steps@ == old(self).track_steps@.update(
                flat_index(track as int, step as int),
                enabled,
            ),
    {
        let idx = Self::step_index(track, step);
        self.track_steps.set(idx, enabled);
    }

    /// Whether a cell sounds.
    pub fn step_enabled(&self, track: usize, step: usize) -> (r: bool)
        requires
            self.wf(),
            track < 8,
            step < 16,
        ensures
            r == self.track_steps@[flat_index(track as int, step as int)],
    {
        let idx = Self::step_index(track, step);
        self.track_steps[idx]
    }

    /// Sets one cell's frequency in centihertz; every other cell keeps
    /// its value.
    pub fn set_step_frequency(&mut self, track: usize, step: usize, centihz: u32)
        requires
            old(self).wf(),
            track < 8,
            step < 16,
        ensures
            final(self).wf(),
            *final(self) == (SequencerState {
                step_frequencies: final(self).step_frequencies,
                ..*old(self)
            }),
            final(self).step_frequencies@ == old(self).step_frequencies@.update(
                flat_index(track as int, step as int),
                centihz,
            ),
    {
        let idx = Self::step_index(track, step);
        self.step_frequencies.set(idx, centihz);
    }

    /// One cell's frequency in centihertz.
    pub fn step_frequency(&self, track: usize, step: usize) -> (r: u32)
        requires
            self.wf(),
            track < 8,
            step < 16,
        ensures
            r == self.step_frequencies@[flat_index(track as int, step as int)],
    {
        let idx = Self::step_index(track, step);
        self.step_frequencies[idx]
    }

    /// Sets one track's volume; the other tracks keep theirs.
    pub fn set_track_volume(&mut self, track: usize, volume: Dec)
        requires
            old(self).wf(),
            track < 8,
        ensures
            final(self).wf(),
            *final(self) == (SequencerState {
                track_volumes: final(self).track_volumes,
                ..*old(self)
            }),
            final(self).track_volumes@ == old(self).track_volumes@.update(track as int, volume),
    {
        self.track_volumes.set(track, volume);
    }

    /// One track's volume.
    pub fn track_volume(&self, track: usize) -> (r: Dec)
        requires
            self.wf(),
            track < 8,
        ensures
            r == self.track_volumes@[track as int],
    {
        self.track_volumes[track]
    }

    /// Applies one editor intent to the field it addresses; a step toggle
    /// outside the grid changes nothing, and the filter and envelope
    /// intents have no field here yet.
    pub fn apply_update(&mut self, update: &ParameterUpdate)
        requires
            old(self).wf(),
        ensures
            final(self).wf(),
            match *update {
                ParameterUpdate::TransportPlay => *final(self) == (SequencerState {
                    is_playing: true,
                    ..*old(self)
                }),
                ParameterUpdate::TransportStop => *final(self) == (SequencerState {
                    is_playing: false,
                    ..*old(self)
                }),
                ParameterUpdate::TempoChange(t) => *final(self) == (SequencerState {
                    tempo: t,
                    ..*old(self)
                }),
                ParameterUpdate::OscillatorFrequency(f) => *final(self) == (SequencerState {
                    osc_frequency: f,
                    ..*old(self)
                }),
                ParameterUpdate::OscillatorVolume(v) => *final(self) == (SequencerState {
                    osc_volume: v,
                    ..*old(self)
                }),
                ParameterUpdate::OscillatorWaveform(w) => *final(self) == (SequencerState {
                    osc_waveform: w,
                    ..*old(self)
                }),
                ParameterUpdate::SequencerStep { track, step, enabled } => if track < 8 && step
                    < 16 {
                    *final(self) == (SequencerState {
                        track_steps: final(self).track_steps,
                        ..*old(self)
                    }) && final(self).track_steps@ == old(self).track_steps@.update(
                        flat_index(track as int, step as int),
                        enabled,
                    )
                } else {
                    *final(self) == *old(self)
                },
                _ => *final(self) == *old(self),
            },
    {
        match update {
            ParameterUpdate::TransportPlay => {
                self.is_playing = true;
            },
            ParameterUpdate::TransportStop => {
                self.is_playing = false;
            },
            ParameterUpdate::TempoChange(t) => {
                self.tempo = *t;
            },
            ParameterUpdate::OscillatorFrequency(f) => {
                self.osc_frequency = *f;
            },
            ParameterUpdate::OscillatorVolume(v) => {
                self.osc_volume = *v;
            },
            ParameterUpdate::OscillatorWaveform(w) => {
                self.osc_waveform = *w;
            },
            ParameterUpdate::SequencerStep { track, step, enabled } => {
                if *track < 8 && *step < 16 {
                    self.set_step_enabled(*track as usize, *step as usize, *enabled);
                }
            },
            _ => {
            },
        }
    }

    /// Advances the transport by one frame: the frame counter grows, and
    /// when it crosses a step boundary the step moves on, wrapping at
    /// sixteen. The callback is the only caller; the editor just reads
    /// the published step.
    pub fn advance_frame(&mut self, samples_per_step: u64) -> (advanced: bool)
        requires
            old(self).wf(),
            samples_per_step > 0,
            old(self).sample_count < u64::MAX,
        ensures
            final(self).wf(),
            advanced == (old(self).sample_count % samples_per_step == 0 && old(self).sample_count
                > 0),
            advanced ==> *final(self) == (SequencerState {
                current_step: ((old(self).current_step + 1) % 16) as usize,
                sample_count: (old(self).sample_count + 1) as u64,
                ..*old(self)
            }),
            !advanced ==> *final(self) == (SequencerState {
                sample_count: (old(self).sample_count + 1) as u64,
                ..*old(self)
            }),
    {
        let count = self.sample_count;
        self.sample_count = self.sample_count + 1;
        if count % samples_per_step == 0 && count > 0 {
            self.current_step = (self.current_step + 1) % 16;
            true
        } else {
            false
        }
    }
}

} // verus!
