//! Step sequences, tracks, and the grid of tracks a composition script
//! builds.

use crate::duration::DurationType;
use crate::effects::TrackEffects;
use crate::note::PlaybackNote;
use vstd::prelude::*;

verus! {

/// A sequence of equally long steps at a fixed tempo, holding the notes
/// scheduled on it.
#[derive(Clone, Debug, PartialEq)]
pub struct FixedTimeNoteSequence {
    pub duration_type: DurationType,
    /// Beats per minute.
    pub tempo: u8,
    pub num_steps: usize,
    pub notes: Vec<PlaybackNote>,
}

impl FixedTimeNoteSequence {
    /// An empty sequence with the given step length, tempo and step count.
    pub fn new(duration_type: DurationType, tempo: u8, num_steps: usize) -> (r:
        FixedTimeNoteSequence)
        ensures
            r.duration_type == duration_type,
            r.tempo == tempo,
            r.num_steps == num_steps,
            r.notes@.len() == 0,
    {
        FixedTimeNoteSequence { duration_type, tempo, num_steps, notes: Vec::new() }
    }

    /// Schedules one more note on the sequence.
    pub fn append_note(&mut self, note: PlaybackNote)
        ensures
            final(self).duration_type == old(self).duration_type,
            final(self).tempo == old(self).tempo,
            final(self).num_steps == old(self).num_steps,
            final(self).notes@ == old(self).notes@.push(note),
    {
        self.notes.push(note);
    }
}

/// One sequencer track: its note sequence and its effect chain.
#[derive(Clone, Debug, PartialEq)]
pub struct Track {
    pub sequence: FixedTimeNoteSequence,
    pub effects: TrackEffects,
}

/// The tracks a composition script defines, in order.
#[derive(Clone, Debug, PartialEq)]
pub struct TrackGrid {
    pub tracks: Vec<Track>,
}

} // verus!
