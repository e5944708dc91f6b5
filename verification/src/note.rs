//! Notes: oscillator-driven sound events, sampled-audio events, and the
//! playback wrapper that carries one of them through the effect chain.

use crate::dec::Dec;
use crate::effects::{no_op_effects, Delay, Envelope, Flanger, TrackEffects, LFO};
use crate::waveform::Waveform;
use vstd::prelude::*;

verus! {

/// Which kind of sound a playback note produces.
#[derive(Clone, Copy, Debug, PartialEq, Eq, Structural)]
pub enum NoteType {
    Oscillator,
    Sample,
}

/// An oscillator-driven sound event.
#[derive(Clone, Debug, PartialEq)]
pub struct Note {
    /// Frequency in hertz.
    pub frequency: Dec,
    pub volume: Dec,
    pub start_time_ms: Dec,
    pub end_time_ms: Dec,
    /// The waveforms summed at synthesis time.
    pub waveforms: Vec<Waveform>,
}

/// A silent note with no waveforms.
pub fn default_note() -> (r: Note)
    ensures
        r.frequency.micro == 0,
        r.volume.micro == 0,
        r.start_time_ms.micro == 0,
        r.end_time_ms.micro == 0,
        r.waveforms@.len() == 0,
{
    Note {
        frequency: Dec::zero(),
        volume: Dec::zero(),
        start_time_ms: Dec::zero(),
        end_time_ms: Dec::zero(),
        waveforms: Vec::new(),
    }
}

/// A silent note over the given playback window.
pub fn rest_note(start_time_ms: Dec, end_time_ms: Dec) -> (r: Note)
    ensures
        r.frequency.micro == 0,
        r.volume.micro == 0,
        r.start_time_ms == start_time_ms,
        r.end_time_ms == end_time_ms,
        r.waveforms@.len() == 0,
{
    Note {
        frequency: Dec::zero(),
        volume: Dec::zero(),
        start_time_ms,
        end_time_ms,
        waveforms: Vec::new(),
    }
}

/// A sample-playback event: a decoded audio buffer and a cursor over it.
///
/// The buffer holds the file's 16-bit sample values; it is filled by the
/// application after the file is decoded, and stays empty until then.
#[derive(Clone, Debug, PartialEq)]
pub struct SampledNote {
    pub file_path: String,
    pub buf_size: usize,
    pub sample_index: usize,
    pub volume: Dec,
    pub start_time_ms: Dec,
    pub end_time_ms: Dec,
    pub sample_buf: Vec<i16>,
}

impl SampledNote {
    /// The decoded sample values.
    pub open spec fn samples(&self) -> Seq<i16> {
        self.sample_buf@
    }

    /// The recorded size always matches the buffer.
    pub open spec fn wf(&self) -> bool {
        self.buf_size == self.sample_buf@.len()
    }

    /// A note for the given file, with an empty buffer.
    pub fn new(file_path: String, volume: Dec, start_time_ms: Dec, end_time_ms: Dec) -> (r:
        SampledNote)
        ensures
            r.wf(),
            r.file_path == file_path,
            r.buf_size == 0,
            r.sample_index == 0,
            r.volume == volume,
            r.start_time_ms == start_time_ms,
            r.end_time_ms == end_time_ms,
            r.samples() == Seq::<i16>::empty(),
    {
        let r = SampledNote {
            file_path,
            buf_size: 0,
            sample_index: 0,
            volume,
            start_time_ms,
            end_time_ms,
            sample_buf: Vec::new(),
        };
        proof {
            assert(r.samples() =~= Seq::<i16>::empty());
        }
        r
    }

    /// How long the note lasts in milliseconds.
    pub fn duration_ms(&self) -> (r: Dec)
        requires
            i64::MIN <= self.end_time_ms.micro - self.start_time_ms.micro <= i64::MAX,
        ensures
            r.micro == self.end_time_ms.micro - self.start_time_ms.micro,
    {
        Dec { micro: self.end_time_ms.micro - self.start_time_ms.micro }
    }

    /// The next buffered value, advancing the cursor; zero once the buffer
    /// is exhausted, with no failure on overrun.
    pub fn next_sample(&mut self) -> (r: i16)
        requires
            old(self).wf(),
        ensures
            final(self).wf(),
            final(self).samples() == old(self).samples(),
            final(self).buf_size == old(self).buf_size,
            final(self).file_path == old(self).file_path,
            final(self).volume == old(self).volume,
            final(self).start_time_ms == old(self).start_time_ms,
            final(self).end_time_ms == old(self).end_time_ms,
            old(self).sample_index < old(self).buf_size ==> r == old(self).samples()[old(
                self,
            ).sample_index as int] && final(self).sample_index == old(self).sample_index + 1,
            old(self).sample_index >= old(self).buf_size ==> r == 0 && final(self).sample_index
                == old(self).sample_index,
    {
        if self.sample_index < self.buf_size {
            let s = self.sample_buf[self.sample_index];
            self.sample_index = self.sample_index + 1;
            s
        } else {
            0
        }
    }

    /// The buffered value at `index`.
    pub fn get_sample_at(&self, index: usize) -> (r: i16)
        requires
            index < self.samples().len(),
        ensures
            r == self.samples()[index as int],
    {
        self.sample_buf[index]
    }

    /// Replaces the buffer and rewinds the cursor.
    pub fn set_sample_buf(&mut self, samples: &[i16])
        ensures
            final(self).wf(),
            final(self).samples() == samples@,
            final(self).buf_size == samples@.len(),
            final(self).sample_index == 0,
            final(self).file_path == old(self).file_path,
            final(self).volume == old(self).volume,
            final(self).start_time_ms == old(self).start_time_ms,
            final(self).end_time_ms == old(self).end_time_ms,
    {
        let n: usize = samples.len();
        let mut buf: Vec<i16> = Vec::new();
        let mut i: usize = 0;
        while i < n
            invariant
                i <= n,
                n == samples@.len(),
                buf@ == samples@.subrange(0, i as int),
            decreases n - i,
        {
            buf.push(samples[i]);
            i = i + 1;
            proof {
                assert(buf@ =~= samples@.subrange(0, i as int));
            }
        }
        proof {
            assert(samples@.subrange(0, n as int) =~= samples@);
        }
        self.sample_buf = buf;
        self.buf_size = n;
        self.sample_index = 0;
    }

    /// Appends one value to the buffer.
    pub fn append_sample(&mut self, sample: i16)
        requires
            old(self).wf(),
        ensures
            final(self).wf(),
            final(self).samples() == old(self).samples().push(sample),
            final(self).buf_size == old(self).buf_size + 1,
            final(self).sample_index == old(self).sample_index,
            final(self).file_path == old(self).file_path,
            final(self).volume == old(self).volume,
            final(self).start_time_ms == old(self).start_time_ms,
            final(self).end_time_ms == old(self).end_time_ms,
    {
        self.sample_buf.push(sample);
        self.buf_size = self.sample_buf.len();
    }

    /// Reverses the order of the buffered values.
    pub fn reverse(&mut self)
        requires
            old(self).wf(),
        ensures
            final(self).wf(),
            final(self).samples().len() == old(self).samples().len(),
            forall|i: int|
                0 <= i < old(self).samples().len() ==> final(self).samples()[i] == old(
                    self,
                ).samples()[old(self).samples().len() - 1 - i],
            final(self).buf_size == old(self).buf_size,
            final(self).sample_index == old(self).sample_index,
            final(self).file_path == old(self).file_path,
            final(self).volume == old(self).volume,
            final(self).start_time_ms == old(self).start_time_ms,
            final(self).end_time_ms == old(self).end_time_ms,
    {
        let n: usize = self.sample_buf.len();
        let mut buf: Vec<i16> = Vec::new();
        let mut i: usize = 0;
        while i < n
            invariant
                i <= n,
                n == old(self).samples().len(),
                self.sample_buf@ == old(self).samples(),
                buf@.len() == i,
                forall|j: int| 0 <= j < i ==> buf@[j] == old(self).samples()[n - 1 - j],
            decreases n - i,
        {
            buf.push(self.sample_buf[n - 1 - i]);
            i = i + 1;
        }
        self.sample_buf = buf;
    }
}

impl SampledNote {
    /// The note cut into equal segments: each piece carries this note's
    /// settings and one slice of the buffer, and samples past the last
    /// full segment are dropped.
    pub fn chopped(&self, num_segments: usize) -> (r: Vec<SampledNote>)
        requires
            self.wf(),
            num_segments >= 1,
        ensures
            r@.len() == num_segments,
            forall|k: int|
                0 <= k < num_segments ==> {
                    let seg = self.samples().len() as int / num_segments as int;
                    &&& (#[trigger] r@[k]).wf()
                    &&& r@[k].samples() == self.samples().subrange(k * seg, (k + 1) * seg)
                    &&& r@[k].buf_size == seg
                    &&& r@[k].sample_index == self.sample_index
                    &&& r@[k].file_path == self.file_path
                    &&& r@[k].volume == self.volume
                    &&& r@[k].start_time_ms == self.start_time_ms
                    &&& r@[k].end_time_ms == self.end_time_ms
                },
    {
        let seg: usize = self.buf_size / num_segments;
        proof {
            vstd::arithmetic::div_mod::lemma_fundamental_div_mod(
                self.buf_size as int,
                num_segments as int,
            );
            vstd::arithmetic::div_mod::lemma_mod_division_less_than_divisor(
                self.buf_size as int,
                num_segments as int,
            );
            assert((num_segments as int) * (seg as int) <= self.samples().len());
        }
        let mut out: Vec<SampledNote> = Vec::new();
        let mut k: usize = 0;
        while k < num_segments
            invariant
                k <= num_segments,
                self.wf(),
                num_segments >= 1,
                seg == self.samples().len() as int / num_segments as int,
                (num_segments as int) * (seg as int) <= self.samples().len(),
                out@.len() == k,
                forall|t: int|
                    0 <= t < k ==> {
                        &&& (#[trigger] out@[t]).wf()
                        &&& out@[t].samples() == self.samples().subrange(
                            t * seg,
                            (t + 1) * seg,
                        )
                        &&& out@[t].buf_size == seg
                        &&& out@[t].sample_index == self.sample_index
                        &&& out@[t].file_path == self.file_path
                        &&& out@[t].volume == self.volume
                        &&& out@[t].start_time_ms == self.start_time_ms
                        &&& out@[t].end_time_ms == self.end_time_ms
                    },
            decreases num_segments - k,
        {
            proof {
                assert((k as int) * (seg as int) + (seg as int) <= (num_segments as int) * (
                seg as int)) by (nonlinear_arith)
                    requires
                        k as int + 1 <= num_segments as int,
                        seg as int >= 0,
                ;
                assert((k as int) * (seg as int) >= 0) by (nonlinear_arith)
                    requires
                        k as int >= 0,
                        seg as int >= 0,
                ;
            }
            let start: usize = k * seg;
            let end: usize = start + seg;
            let mut buf: Vec<i16> = Vec::new();
            let mut i: usize = start;
            while i < end
                invariant
                    start <= i <= end,
                    end <= self.sample_buf@.len(),
                    buf@ == self.samples().subrange(start as int, i as int),
                decreases end - i,
            {
                buf.push(self.sample_buf[i]);
                i = i + 1;
                proof {
                    assert(buf@ =~= self.samples().subrange(start as int, i as int));
                }
            }
            out.push(
                SampledNote {
                    file_path: self.file_path.clone(),
                    buf_size: seg,
                    sample_index: self.sample_index,
                    volume: self.volume,
                    start_time_ms: self.start_time_ms,
                    end_time_ms: self.end_time_ms,
                    sample_buf: buf,
                },
            );
            proof {
                assert(((k as int) + 1) * (seg as int) == (k as int) * (seg as int) + (
                seg as int)) by (nonlinear_arith);
            }
            k = k + 1;
        }
        out
    }
}

/// A sampled note with no file and an empty buffer, at full volume.
pub fn default_sample_note() -> (r: SampledNote)
    ensures
        r.wf(),
        r.file_path@.len() == 0,
        r.buf_size == 0,
        r.sample_index == 0,
        r.volume.micro == 1_000_000,
        r.start_time_ms.micro == 0,
        r.end_time_ms.micro == 0,
        r.samples() == Seq::<i16>::empty(),
{
    SampledNote::new(String::new(), Dec::from_int(1), Dec::zero(), Dec::zero())
}

/// A playback event: one note of either kind, its own effect chain, a copy
/// of the owning track's effects, and the stereo placement.
#[derive(Clone, Debug, PartialEq)]
pub struct PlaybackNote {
    pub note_type: NoteType,
    pub note: Note,
    pub sampled_note: SampledNote,
    pub playback_start_time_ms: Dec,
    pub playback_end_time_ms: Dec,
    pub playback_sample_start_time: u64,
    pub playback_sample_end_time: u64,
    pub envelopes: Vec<Envelope>,
    pub lfos: Vec<LFO>,
    pub flangers: Vec<Flanger>,
    pub delays: Vec<Delay>,
    pub track_effects: TrackEffects,
    pub panning: Dec,
    pub num_channels: i8,
}

impl PlaybackNote {
    /// How long the playback window lasts in milliseconds.
    pub fn playback_duration_ms(&self) -> (r: Dec)
        requires
            i64::MIN <= self.playback_end_time_ms.micro - self.playback_start_time_ms.micro
                <= i64::MAX,
        ensures
            r.micro == self.playback_end_time_ms.micro - self.playback_start_time_ms.micro,
    {
        Dec { micro: self.playback_end_time_ms.micro - self.playback_start_time_ms.micro }
    }

    /// The start time of whichever note this plays.
    pub fn note_start_time_ms(&self) -> (r: Dec)
        ensures
            self.note_type == NoteType::Oscillator ==> r == self.note.start_time_ms,
            self.note_type == NoteType::Sample ==> r == self.sampled_note.start_time_ms,
    {
        match self.note_type {
            NoteType::Oscillator => self.note.start_time_ms,
            NoteType::Sample => self.sampled_note.start_time_ms,
        }
    }

    /// Sets the start time of whichever note this plays.
    pub fn set_note_start_time_ms(&mut self, start_time_ms: Dec)
        ensures
            old(self).note_type == NoteType::Oscillator ==> *final(self) == (PlaybackNote {
                note: (Note { start_time_ms, ..old(self).note }),
                ..*old(self)
            }),
            old(self).note_type == NoteType::Sample ==> *final(self) == (PlaybackNote {
                sampled_note: (SampledNote { start_time_ms, ..old(self).sampled_note }),
                ..*old(self)
            }),
    {
        match self.note_type {
            NoteType::Oscillator => self.note.start_time_ms = start_time_ms,
            NoteType::Sample => self.sampled_note.start_time_ms = start_time_ms,
        }
    }

    /// The end time of whichever note this plays.
    pub fn note_end_time_ms(&self) -> (r: Dec)
        ensures
            self.note_type == NoteType::Oscillator ==> r == self.note.end_time_ms,
            self.note_type == NoteType::Sample ==> r == self.sampled_note.end_time_ms,
    {
        match self.note_type {
            NoteType::Oscillator => self.note.end_time_ms,
            NoteType::Sample => self.sampled_note.end_time_ms,
        }
    }

    /// Sets the end time of whichever note this plays.
    pub fn set_note_end_time_ms(&mut self, end_time_ms: Dec)
        ensures
            old(self).note_type == NoteType::Oscillator ==> *final(self) == (PlaybackNote {
                note: (Note { end_time_ms, ..old(self).note }),
                ..*old(self)
            }),
            old(self).note_type == NoteType::Sample ==> *final(self) == (PlaybackNote {
                sampled_note: (SampledNote { end_time_ms, ..old(self).sampled_note }),
                ..*old(self)
            }),
    {
        match self.note_type {
            NoteType::Oscillator => self.note.end_time_ms = end_time_ms,
            NoteType::Sample => self.sampled_note.end_time_ms = end_time_ms,
        }
    }

    /// How long whichever note this plays lasts, in milliseconds.
    pub fn note_duration_ms(&self) -> (r: Dec)
        requires
            self.note_type == NoteType::Oscillator ==> i64::MIN <= self.note.end_time_ms.micro
                - self.note.start_time_ms.micro <= i64::MAX,
            self.note_type == NoteType::Sample ==> i64::MIN
                <= self.sampled_note.end_time_ms.micro - self.sampled_note.start_time_ms.micro
                <= i64::MAX,
        ensures
            self.note_type == NoteType::Oscillator ==> r.micro == self.note.end_time_ms.micro
                - self.note.start_time_ms.micro,
            self.note_type == NoteType::Sample ==> r.micro == self.sampled_note.end_time_ms.micro
                - self.sampled_note.start_time_ms.micro,
    {
        match self.note_type {
            NoteType::Oscillator => Dec {
                micro: self.note.end_time_ms.micro - self.note.start_time_ms.micro,
            },
            NoteType::Sample => Dec {
                micro: self.sampled_note.end_time_ms.micro - self.sampled_note.start_time_ms.micro,
            },
        }
    }

    /// The volume of whichever note this plays.
    pub fn note_volume(&self) -> (r: Dec)
        ensures
            self.note_type == NoteType::Oscillator ==> r == self.note.volume,
            self.note_type == NoteType::Sample ==> r == self.sampled_note.volume,
    {
        match self.note_type {
            NoteType::Oscillator => self.note.volume,
            NoteType::Sample => self.sampled_note.volume,
        }
    }

    /// Sets the volume of whichever note this plays.
    pub fn set_note_volume(&mut self, volume: Dec)
        ensures
            old(self).note_type == NoteType::Oscillator ==> *final(self) == (PlaybackNote {
                note: (Note { volume, ..old(self).note }),
                ..*old(self)
            }),
            old(self).note_type == NoteType::Sample ==> *final(self) == (PlaybackNote {
                sampled_note: (SampledNote { volume, ..old(self).sampled_note }),
                ..*old(self)
            }),
    {
        match self.note_type {
            NoteType::Oscillator => self.note.volume = volume,
            NoteType::Sample => self.sampled_note.volume = volume,
        }
    }

    /// Whether the running sample counter has passed this note's playback
    /// window; the mixer then skips the note without error.
    pub fn is_past_end(&self, sample_count: u64) -> (r: bool)
        ensures
            r == (sample_count > self.playback_sample_end_time),
    {
        sample_count > self.playback_sample_end_time
    }
}

/// A playback note over a silent default note, with empty effect chains.
pub fn default_playback_note() -> (r: PlaybackNote)
    ensures
        r.note_type == NoteType::Oscillator,
        r.note.frequency.micro == 0,
        r.note.volume.micro == 0,
        r.note.waveforms@.len() == 0,
        r.sampled_note.wf(),
        r.playback_start_time_ms.micro == 0,
        r.playback_end_time_ms.micro == 0,
        r.playback_sample_start_time == 0,
        r.playback_sample_end_time == 0,
        r.envelopes@.len() == 0,
        r.lfos@.len() == 0,
        r.flangers@.len() == 0,
        r.delays@.len() == 0,
        r.track_effects.envelopes@.len() == 0,
        r.track_effects.delays@.len() == 0,
        r.track_effects.flangers@.len() == 0,
        r.track_effects.lfos@.len() == 0,
        r.panning.micro == 0,
        r.num_channels == 1,
{
    PlaybackNote {
        note_type: NoteType::Oscillator,
        note: default_note(),
        sampled_note: SampledNote::new(String::new(), Dec::from_int(1), Dec::zero(), Dec::zero()),
        playback_start_time_ms: Dec::zero(),
        playback_end_time_ms: Dec::zero(),
        playback_sample_start_time: 0,
        playback_sample_end_time: 0,
        envelopes: Vec::new(),
        lfos: Vec::new(),
        flangers: Vec::new(),
        delays: Vec::new(),
        track_effects: no_op_effects(),
        panning: Dec::zero(),
        num_channels: 1,
    }
}

/// A silent playback note over the given window.
pub fn playback_rest_note(start_time_ms: Dec, end_time_ms: Dec) -> (r: PlaybackNote)
    ensures
        r.note_type == NoteType::Oscillator,
        r.note.volume.micro == 0,
        r.note.waveforms@.len() == 0,
        r.note.start_time_ms == start_time_ms,
        r.note.end_time_ms == end_time_ms,
        r.playback_start_time_ms == start_time_ms,
        r.playback_end_time_ms == end_time_ms,
        r.envelopes@.len() == 0,
        r.lfos@.len() == 0,
        r.flangers@.len() == 0,
        r.delays@.len() == 0,
{
    let mut pn = default_playback_note();
    pn.note = rest_note(start_time_ms, end_time_ms);
    pn.playback_start_time_ms = start_time_ms;
    pn.playback_end_time_ms = end_time_ms;
    pn
}

/// A playback note around an existing note, with default timing.
pub fn from_note(note_type: NoteType, note: Note) -> (r: PlaybackNote)
    ensures
        r.note_type == note_type,
        r.note == note,
        r.playback_start_time_ms.micro == 0,
        r.playback_end_time_ms.micro == 0,
        r.envelopes@.len() == 0,
        r.lfos@.len() == 0,
        r.flangers@.len() == 0,
        r.delays@.len() == 0,
{
    let mut pn = default_playback_note();
    pn.note_type = note_type;
    pn.note = note;
    pn
}

} // verus!
