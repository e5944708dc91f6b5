//! The sequencer grid the terminal editor works on: eight tracks of step
//! cells, a cursor over them, and a rectangular selection.
//!
//! Volume and pan are carried as exact decimals; the application converts
//! to its sample format at the audio boundary.

use crate::dec::Dec;
use crate::note::PlaybackNote;
use crate::pitch::{scan_index, sharp_pitches, WesternPitch};
use vstd::prelude::*;

verus! {

/// Which control of a track strip is selected.
#[derive(Clone, Copy, Debug, PartialEq, Eq, Structural)]
pub enum TrackControl {
    Volume,
    Pan,
    Mute,
    Solo,
}

/// The position of a track control in the control row.
pub open spec fn ctrl_index(c: TrackControl) -> int {
    match c {
        TrackControl::Volume => 0,
        TrackControl::Pan => 1,
        TrackControl::Mute => 2,
        TrackControl::Solo => 3,
    }
}

/// The track control at a position of the control row.
pub open spec fn ctrl_at(i: int) -> TrackControl {
    if i <= 0 {
        TrackControl::Volume
    } else if i == 1 {
        TrackControl::Pan
    } else if i == 2 {
        TrackControl::Mute
    } else {
        TrackControl::Solo
    }
}

/// Which row kind the cursor is on.
#[derive(Clone, Copy, Debug, PartialEq, Eq, Structural)]
pub enum CursorFocus {
    Steps,
    Frequency,
    FrequencyDropdown,
    TrackControls,
}

/// The cursor: a track, a step, and the row kind under it.
#[derive(Clone, Copy, Debug, PartialEq, Eq, Structural)]
pub struct GridCursor {
    pub track: u8,
    pub step: u8,
    pub focus_area: CursorFocus,
}

/// A rectangular selection between two cursor corners.
#[derive(Clone, Copy, Debug, PartialEq, Eq, Structural)]
pub struct GridSelection {
    pub start: GridCursor,
    pub end: GridCursor,
}

/// One step cell: whether it sounds, how hard, and at which pitch.
#[derive(Clone, Debug, PartialEq)]
pub struct StepCell {
    pub enabled: bool,
    pub velocity: u8,
    pub frequency: WesternPitch,
    pub note: Option<PlaybackNote>,
    pub highlighted: bool,
}

impl Default for StepCell {
    /// A silent cell at full velocity on C.
    fn default() -> (r: StepCell)
        ensures
            !r.enabled,
            r.velocity == 127,
            r.frequency == WesternPitch::C,
            r.note is None,
            !r.highlighted,
    {
        StepCell {
            enabled: false,
            velocity: 127,
            frequency: WesternPitch::C,
            note: None,
            highlighted: false,
        }
    }
}

/// One track strip: its number, mix controls, and its row of steps.
#[derive(Clone, Debug, PartialEq)]
pub struct TrackStrip {
    pub track_number: u8,
    /// Volume in millionths, zero to one million.
    pub volume: Dec,
    /// Pan in millionths, minus one million (left) to one million (right).
    pub pan: Dec,
    pub mute: bool,
    pub solo: bool,
    pub steps: Vec<StepCell>,
    pub selected_control: TrackControl,
}

/// A value held into the closed range.
pub open spec fn clamp_int(x: int, lo: int, hi: int) -> int {
    if x < lo {
        lo
    } else if x > hi {
        hi
    } else {
        x
    }
}

impl TrackStrip {
    /// A fresh strip: volume at eight tenths, centred, all steps silent.
    pub fn new(track_number: u8, steps: usize) -> (r: TrackStrip)
        ensures
            r.track_number == track_number,
            r.volume.micro == 800_000,
            r.pan.micro == 0,
            !r.mute,
            !r.solo,
            r.steps@.len() == steps,
            forall|i: int|
                0 <= i < steps ==> !(#[trigger] r.steps@[i]).enabled && r.steps@[i].frequency
                    == WesternPitch::C,
            r.selected_control == TrackControl::Volume,
    {
        let mut cells: Vec<StepCell> = Vec::new();
        let mut i: usize = 0;
        while i < steps
            invariant
                i <= steps,
                cells@.len() == i,
                forall|j: int|
                    0 <= j < i ==> !(#[trigger] cells@[j]).enabled && cells@[j].frequency
                        == WesternPitch::C,
            decreases steps - i,
        {
            cells.push(StepCell::default());
            i = i + 1;
        }
        TrackStrip {
            track_number,
            volume: Dec::from_micro(800_000),
            pan: Dec::zero(),
            mute: false,
            solo: false,
            steps: cells,
            selected_control: TrackControl::Volume,
        }
    }

    /// Moves the volume by `delta`, held between zero and one.
    pub fn adjust_volume(&mut self, delta: Dec)
        ensures
            *final(self) == (TrackStrip {
                volume: Dec {
                    micro: clamp_int(
                        old(self).volume.micro + delta.micro,
                        0,
                        1_000_000,
                    ) as i64,
                },
                ..*old(self)
            }),
    {
        let sum: i128 = self.volume.micro as i128 + delta.micro as i128;
        let clamped: i64 = if sum < 0 {
            0
        } else if sum > 1_000_000 {
            1_000_000
        } else {
            sum as i64
        };
        self.volume = Dec { micro: clamped };
    }

    /// Moves the pan by `delta`, held between minus one and one.
    pub fn adjust_pan(&mut self, delta: Dec)
        ensures
            *final(self) == (TrackStrip {
                pan: Dec {
                    micro: clamp_int(
                        old(self).pan.micro + delta.micro,
                        -1_000_000,
                        1_000_000,
                    ) as i64,
                },
                ..*old(self)
            }),
    {
        let sum: i128 = self.pan.micro as i128 + delta.micro as i128;
        let clamped: i64 = if sum < -1_000_000 {
            -1_000_000
        } else if sum > 1_000_000 {
            1_000_000
        } else {
            sum as i64
        };
        self.pan = Dec { micro: clamped };
    }

    /// Flips the mute flag.
    pub fn toggle_mute(&mut self)
        ensures
            *final(self) == (TrackStrip { mute: !old(self).mute, ..*old(self) }),
    {
        self.mute = !self.mute;
    }

    /// Flips the solo flag.
    pub fn toggle_solo(&mut self)
        ensures
            *final(self) == (TrackStrip { solo: !old(self).solo, ..*old(self) }),
    {
        self.solo = !self.solo;
    }
}

/// The whole grid: eight strips, the step count, the cursor, the step
/// being played, and the selection.
#[derive(Clone, Debug, PartialEq)]
pub struct SequencerGrid {
    pub tracks: Vec<TrackStrip>,
    pub steps_per_track: usize,
    pub cursor: GridCursor,
    pub playing_step: Option<usize>,
    pub selection: Option<GridSelection>,
    pub focused: bool,
}

impl SequencerGrid {
    /// The shape every grid keeps: eight tracks, a workable step count,
    /// full step rows, and the cursor inside the grid.
    pub open spec fn wf(&self) -> bool {
        &&& self.tracks@.len() == 8
        &&& 1 <= self.steps_per_track <= 127
        &&& forall|t: int|
            0 <= t < 8 ==> (#[trigger] self.tracks@[t]).steps@.len() == self.steps_per_track
        &&& self.cursor.track < 8
        &&& self.cursor.step < self.steps_per_track
    }

    /// A fresh grid of eight silent tracks.
    pub fn new(steps_per_track: usize) -> (r: SequencerGrid)
        requires
            1 <= steps_per_track <= 127,
        ensures
            r.wf(),
            r.steps_per_track == steps_per_track,
            r.cursor == (GridCursor { track: 0, step: 0, focus_area: CursorFocus::Steps }),
            r.playing_step is None,
            r.selection is None,
            !r.focused,
            forall|t: int| 0 <= t < 8 ==> (#[trigger] r.tracks@[t]).track_number == t + 1,
    {
        let mut tracks: Vec<TrackStrip> = Vec::new();
        let mut i: usize = 0;
        while i < 8
            invariant
                i <= 8,
                tracks@.len() == i,
                forall|t: int|
                    0 <= t < i ==> (#[trigger] tracks@[t]).track_number == t + 1
                        && tracks@[t].steps@.len() == steps_per_track,
            decreases 8 - i,
        {
            tracks.push(TrackStrip::new((i as u8) + 1, steps_per_track));
            i = i + 1;
        }
        SequencerGrid {
            tracks,
            steps_per_track,
            cursor: GridCursor { track: 0, step: 0, focus_area: CursorFocus::Steps },
            playing_step: None,
            selection: None,
            focused: false,
        }
    }

    /// Moves the cursor. On a step or frequency row a vertical move
    /// crosses between the two rows of a track, a horizontal move walks
    /// the steps; on the control row a vertical move changes track and a
    /// horizontal move walks the four controls; in the dropdown nothing
    /// moves.
    #[verifier::rlimit(100)]
    pub fn move_cursor(&mut self, track_delta: i8, step_delta: i8)
        requires
            old(self).wf(),
        ensures
            final(self).wf(),
            final(self).tracks@.len() == old(self).tracks@.len(),
            final(self).steps_per_track == old(self).steps_per_track,
            final(self).playing_step == old(self).playing_step,
            final(self).selection == old(self).selection,
            final(self).focused == old(self).focused,
            old(self).cursor.focus_area == CursorFocus::Steps && track_delta != 0 ==> {
                &&& final(self).tracks@ == old(self).tracks@
                &&& final(self).cursor.step == old(self).cursor.step
                &&& (track_delta > 0 ==> final(self).cursor == (GridCursor {
                    focus_area: CursorFocus::Frequency,
                    ..old(self).cursor
                }))
                &&& (track_delta < 0 && old(self).cursor.track > 0 ==> final(self).cursor
                    == (GridCursor {
                    track: (old(self).cursor.track - 1) as u8,
                    focus_area: CursorFocus::Frequency,
                    ..old(self).cursor
                }))
                &&& (track_delta < 0 && old(self).cursor.track == 0 ==> final(self).cursor == old(self).cursor)
            },
            old(self).cursor.focus_area == CursorFocus::Steps && track_delta == 0 ==> {
                &&& final(self).tracks@ == old(self).tracks@
                &&& final(self).cursor == (GridCursor {
                    step: clamp_int(
                        old(self).cursor.step + step_delta,
                        0,
                        old(self).steps_per_track - 1,
                    ) as u8,
                    ..old(self).cursor
                })
            },
            old(self).cursor.focus_area == CursorFocus::Frequency && track_delta != 0 ==> {
                &&& final(self).tracks@ == old(self).tracks@
                &&& (track_delta < 0 ==> final(self).cursor == (GridCursor {
                    focus_area: CursorFocus::Steps,
                    ..old(self).cursor
                }))
                &&& (track_delta > 0 && old(self).cursor.track < 7 ==> final(self).cursor
                    == (GridCursor {
                    track: (old(self).cursor.track + 1) as u8,
                    focus_area: CursorFocus::Steps,
                    ..old(self).cursor
                }))
                &&& (track_delta > 0 && old(self).cursor.track >= 7 ==> final(self).cursor == old(self).cursor)
            },
            old(self).cursor.focus_area == CursorFocus::Frequency && track_delta == 0 ==> {
                &&& final(self).tracks@ == old(self).tracks@
                &&& final(self).cursor == (GridCursor {
                    step: clamp_int(
                        old(self).cursor.step + step_delta,
                        0,
                        old(self).steps_per_track - 1,
                    ) as u8,
                    ..old(self).cursor
                })
            },
            old(self).cursor.focus_area == CursorFocus::FrequencyDropdown ==> *final(self) == *old(self),
            old(self).cursor.focus_area == CursorFocus::TrackControls ==> {
                &&& final(self).cursor == (GridCursor {
                    track: clamp_int(old(self).cursor.track + track_delta, 0, 7) as u8,
                    ..old(self).cursor
                })
                &&& (step_delta == 0 ==> final(self).tracks@ == old(self).tracks@)
                &&& (step_delta != 0 ==> {
                    let t = clamp_int(old(self).cursor.track + track_delta, 0, 7);
                    final(self).tracks@ == old(self).tracks@.update(
                        t,
                        (TrackStrip {
                            selected_control: ctrl_at(
                                clamp_int(
                                    ctrl_index(old(self).tracks@[t].selected_control)
                                        + step_delta,
                                    0,
                                    3,
                                ),
                            ),
                            ..old(self).tracks@[t]
                        }),
                    )
                })
            },
    {
        match self.cursor.focus_area {
            CursorFocus::Steps => {
                if track_delta != 0 {
                    if track_delta > 0 {
                        self.cursor.focus_area = CursorFocus::Frequency;
                    } else {
                        if self.cursor.track > 0 {
                            self.cursor.track = self.cursor.track - 1;
                            self.cursor.focus_area = CursorFocus::Frequency;
                        }
                    }
                } else if step_delta != 0 {
                    let raw: i32 = self.cursor.step as i32 + step_delta as i32;
                    let hi: i32 = self.steps_per_track as i32 - 1;
                    let new_step: i32 = if raw < 0 {
                        0
                    } else if raw > hi {
                        hi
                    } else {
                        raw
                    };
                    self.cursor.step = new_step as u8;
                }
            },
            CursorFocus::Frequency => {
                if track_delta != 0 {
                    if track_delta < 0 {
                        self.cursor.focus_area = CursorFocus::Steps;
                    } else {
                        if self.cursor.track < 7 {
                            self.cursor.track = self.cursor.track + 1;
                            self.cursor.focus_area = CursorFocus::Steps;
                        }
                    }
                } else if step_delta != 0 {
                    let raw: i32 = self.cursor.step as i32 + step_delta as i32;
                    let hi: i32 = self.steps_per_track as i32 - 1;
                    let new_step: i32 = if raw < 0 {
                        0
                    } else if raw > hi {
                        hi
                    } else {
                        raw
                    };
                    self.cursor.step = new_step as u8;
                }
            },
            CursorFocus::FrequencyDropdown => {
            },
            CursorFocus::TrackControls => {
                if track_delta != 0 {
                    let raw: i32 = self.cursor.track as i32 + track_delta as i32;
                    let new_track: i32 = if raw < 0 {
                        0
                    } else if raw > 7 {
                        7
                    } else {
                        raw
                    };
                    self.cursor.track = new_track as u8;
                }
                if step_delta != 0 {
                    let t = self.cursor.track as usize;
                    let cur_idx: i32 = match self.tracks[t].selected_control {
                        TrackControl::Volume => 0,
                        TrackControl::Pan => 1,
                        TrackControl::Mute => 2,
                        TrackControl::Solo => 3,
                    };
                    let raw: i32 = cur_idx + step_delta as i32;
                    let new_idx: i32 = if raw < 0 {
                        0
                    } else if raw > 3 {
                        3
                    } else {
                        raw
                    };
                    let ctrl = if new_idx == 0 {
                        TrackControl::Volume
                    } else if new_idx == 1 {
                        TrackControl::Pan
                    } else if new_idx == 2 {
                        TrackControl::Mute
                    } else {
                        TrackControl::Solo
                    };
                    let mut strip = self.tracks.remove(t);
                    strip.selected_control = ctrl;
                    self.tracks.insert(t, strip);
                    proof {
                        assert(self.tracks@ =~= old(self).tracks@.update(
                            t as int,
                            (TrackStrip {
                                selected_control: ctrl_at(
                                    clamp_int(
                                        ctrl_index(old(self).tracks@[t as int].selected_control)
                                            + step_delta,
                                        0,
                                        3,
                                    ),
                                ),
                                ..old(self).tracks@[t as int]
                            }),
                        ));
                    }
                }
            },
        }
    }

    /// Moves focus between the step rows and the control row.
    pub fn switch_focus(&mut self)
        ensures
            *final(self) == (SequencerGrid {
                cursor: (GridCursor {
                    focus_area: if old(self).cursor.focus_area == CursorFocus::TrackControls {
                        CursorFocus::Steps
                    } else {
                        CursorFocus::TrackControls
                    },
                    ..old(self).cursor
                }),
                ..*old(self)
            }),
    {
        self.cursor.focus_area = match self.cursor.focus_area {
            CursorFocus::Steps => CursorFocus::TrackControls,
            CursorFocus::Frequency => CursorFocus::TrackControls,
            CursorFocus::FrequencyDropdown => CursorFocus::TrackControls,
            CursorFocus::TrackControls => CursorFocus::Steps,
        };
    }

    /// Flips the cell under the cursor.
    pub fn toggle_current_step(&mut self)
        requires
            old(self).wf(),
        ensures
            final(self).wf(),
            final(self).tracks@ == old(self).tracks@.update(
                old(self).cursor.track as int,
                (TrackStrip {
                    steps: final(self).tracks@[old(self).cursor.track as int].steps,
                    ..old(self).tracks@[old(self).cursor.track as int]
                }),
            ),
            final(self).tracks@[old(self).cursor.track as int].steps@ == old(self).tracks@[old(self).cursor.track as int].steps@.update(
                old(self).cursor.step as int,
                (StepCell {
                    enabled: !old(self).tracks@[old(self).cursor.track as int].steps@[old(self).cursor.step as int].enabled,
                    ..old(self).tracks@[old(self).cursor.track as int].steps@[old(self).cursor.step as int]
                }),
            ),
            final(self).cursor == old(self).cursor,
            final(self).steps_per_track == old(self).steps_per_track,
            final(self).playing_step == old(self).playing_step,
            final(self).selection == old(self).selection,
            final(self).focused == old(self).focused,
    {
        let t = self.cursor.track as usize;
        let s = self.cursor.step as usize;
        let mut strip = self.tracks.remove(t);
        let mut cell = strip.steps.remove(s);
        cell.enabled = !cell.enabled;
        strip.steps.insert(s, cell);
        self.tracks.insert(t, strip);
        proof {
            assert(final(self).tracks@[t as int].steps@ =~= old(self).tracks@[t as int].steps@
                .update(
                s as int,
                (StepCell {
                    enabled: !old(self).tracks@[t as int].steps@[s as int].enabled,
                    ..old(self).tracks@[t as int].steps@[s as int]
                }),
            ));
            assert(final(self).tracks@ =~= old(self).tracks@.update(
                t as int,
                (TrackStrip {
                    steps: final(self).tracks@[t as int].steps,
                    ..old(self).tracks@[t as int]
                }),
            ));
        }
    }

    /// Steps the pitch of the cell under the cursor up or down the cycle
    /// of twelve.
    pub fn adjust_current_frequency(&mut self, direction: i8)
        requires
            old(self).wf(),
        ensures
            final(self).wf(),
            final(self).tracks@[old(self).cursor.track as int].steps@[old(self).cursor.step as int].frequency == sharp_pitches()[
                if direction > 0 {
                    (scan_index(
                        old(self).tracks@[old(self).cursor.track as int].steps@[old(self).cursor.step as int].frequency,
                    ) + 1) % 12
                } else {
                    (scan_index(
                        old(self).tracks@[old(self).cursor.track as int].steps@[old(self).cursor.step as int].frequency,
                    ) + 11) % 12
                }
            ],
            final(self).cursor == old(self).cursor,
    {
        let t = self.cursor.track as usize;
        let s = self.cursor.step as usize;
        let mut strip = self.tracks.remove(t);
        let mut cell = strip.steps.remove(s);
        cell.frequency = if direction > 0 {
            cell.frequency.next()
        } else {
            cell.frequency.previous()
        };
        strip.steps.insert(s, cell);
        self.tracks.insert(t, strip);
    }

    /// The pitch of the cell under the cursor.
    pub fn get_current_frequency(&self) -> (r: WesternPitch)
        requires
            self.wf(),
        ensures
            r == self.tracks@[self.cursor.track as int].steps@[self.cursor.step as int].frequency,
    {
        self.tracks[self.cursor.track as usize].steps[self.cursor.step as usize].frequency
    }

    /// Opens the pitch dropdown when the cursor is on a frequency row.
    pub fn enter_frequency_dropdown(&mut self)
        ensures
            old(self).cursor.focus_area == CursorFocus::Frequency ==> *final(self)
                == (SequencerGrid {
                cursor: (GridCursor {
                    focus_area: CursorFocus::FrequencyDropdown,
                    ..old(self).cursor
                }),
                ..*old(self)
            }),
            old(self).cursor.focus_area != CursorFocus::Frequency ==> *final(self) == *old(self),
    {
        if self.cursor.focus_area == CursorFocus::Frequency {
            self.cursor.focus_area = CursorFocus::FrequencyDropdown;
        }
    }

    /// Closes the pitch dropdown.
    pub fn exit_frequency_dropdown(&mut self)
        ensures
            old(self).cursor.focus_area == CursorFocus::FrequencyDropdown ==> *final(self)
                == (SequencerGrid {
                cursor: (GridCursor { focus_area: CursorFocus::Frequency, ..old(self).cursor }),
                ..*old(self)
            }),
            old(self).cursor.focus_area != CursorFocus::FrequencyDropdown ==> *final(self)
                == *old(self),
    {
        if self.cursor.focus_area == CursorFocus::FrequencyDropdown {
            self.cursor.focus_area = CursorFocus::Frequency;
        }
    }

    /// Sets which step the playback highlight stands on.
    pub fn set_playing_step(&mut self, step: Option<usize>)
        ensures
            *final(self) == (SequencerGrid { playing_step: step, ..*old(self) }),
    {
        self.playing_step = step;
    }

    /// Opens a selection at the cursor.
    pub fn start_selection(&mut self)
        ensures
            *final(self) == (SequencerGrid {
                selection: Some(
                    GridSelection { start: old(self).cursor, end: old(self).cursor },
                ),
                ..*old(self)
            }),
    {
        self.selection = Some(GridSelection { start: self.cursor, end: self.cursor });
    }

    /// Drags the selection's end corner to the cursor.
    pub fn update_selection(&mut self)
        ensures
            old(self).selection is Some ==> *final(self) == (SequencerGrid {
                selection: Some(
                    GridSelection { start: old(self).selection.unwrap().start, end: old(self).cursor },
                ),
                ..*old(self)
            }),
            old(self).selection is None ==> *final(self) == *old(self),
    {
        match self.selection {
            Some(sel) => {
                self.selection = Some(GridSelection { start: sel.start, end: self.cursor });
            },
            None => {
            },
        }
    }

    /// Drops the selection.
    pub fn clear_selection(&mut self)
        ensures
            *final(self) == (SequencerGrid { selection: None, ..*old(self) }),
    {
        self.selection = None;
    }

    /// Selects the cursor's whole track.
    pub fn select_all_track(&mut self)
        requires
            old(self).wf(),
        ensures
            *final(self) == (SequencerGrid {
                selection: Some(
                    GridSelection {
                        start: (GridCursor { step: 0, ..old(self).cursor }),
                        end: (GridCursor {
                            step: (old(self).steps_per_track - 1) as u8,
                            ..old(self).cursor
                        }),
                    },
                ),
                ..*old(self)
            }),
    {
        self.selection = Some(
            GridSelection {
                start: GridCursor {
                    track: self.cursor.track,
                    step: 0,
                    focus_area: self.cursor.focus_area,
                },
                end: GridCursor {
                    track: self.cursor.track,
                    step: (self.steps_per_track - 1) as u8,
                    focus_area: self.cursor.focus_area,
                },
            },
        );
    }

    /// Selects the cursor's step across all tracks.
    pub fn select_all_step(&mut self)
        ensures
            *final(self) == (SequencerGrid {
                selection: Some(
                    GridSelection {
                        start: (GridCursor { track: 0, ..old(self).cursor }),
                        end: (GridCursor { track: 7, ..old(self).cursor }),
                    },
                ),
                ..*old(self)
            }),
    {
        self.selection = Some(
            GridSelection {
                start: GridCursor {
                    track: 0,
                    step: self.cursor.step,
                    focus_area: self.cursor.focus_area,
                },
                end: GridCursor {
                    track: 7,
                    step: self.cursor.step,
                    focus_area: self.cursor.focus_area,
                },
            },
        );
    }

    /// The selection's corners ordered: first and last track, then first
    /// and last step.
    pub fn get_selection_bounds(&self) -> (r: Option<(usize, usize, usize, usize)>)
        ensures
            match r {
                Some(b) => self.selection is Some && {
                    let sel = self.selection.unwrap();
                    &&& b.0 == if sel.start.track <= sel.end.track {
                        sel.start.track as int
                    } else {
                        sel.end.track as int
                    }
                    &&& b.1 == if sel.start.track <= sel.end.track {
                        sel.end.track as int
                    } else {
                        sel.start.track as int
                    }
                    &&& b.2 == if sel.start.step <= sel.end.step {
                        sel.start.step as int
                    } else {
                        sel.end.step as int
                    }
                    &&& b.3 == if sel.start.step <= sel.end.step {
                        sel.end.step as int
                    } else {
                        sel.start.step as int
                    }
                },
                None => self.selection is None,
            },
    {
        match self.selection {
            Some(sel) => {
                let start_track: usize = if sel.start.track <= sel.end.track {
                    sel.start.track as usize
                } else {
                    sel.end.track as usize
                };
                let end_track: usize = if sel.start.track <= sel.end.track {
                    sel.end.track as usize
                } else {
                    sel.start.track as usize
                };
                let start_step: usize = if sel.start.step <= sel.end.step {
                    sel.start.step as usize
                } else {
                    sel.end.step as usize
                };
                let end_step: usize = if sel.start.step <= sel.end.step {
                    sel.end.step as usize
                } else {
                    sel.start.step as usize
                };
                Some((start_track, end_track, start_step, end_step))
            },
            None => None,
        }
    }

    /// Adjusts the selected control of the cursor's track: volume and pan
    /// move by `delta`, mute and solo flip.
    pub fn adjust_current_track_control(&mut self, delta: Dec)
        requires
            old(self).wf(),
        ensures
            final(self).wf(),
            final(self).tracks@ == old(self).tracks@.update(
                old(self).cursor.track as int,
                final(self).tracks@[old(self).cursor.track as int],
            ),
            ({
                let t = old(self).cursor.track as int;
                let strip = old(self).tracks@[t];
                match strip.selected_control {
                    TrackControl::Volume => final(self).tracks@[t] == (TrackStrip {
                        volume: Dec {
                            micro: clamp_int(strip.volume.micro + delta.micro, 0, 1_000_000) as i64,
                        },
                        ..strip
                    }),
                    TrackControl::Pan => final(self).tracks@[t] == (TrackStrip {
                        pan: Dec {
                            micro: clamp_int(
                                strip.pan.micro + delta.micro,
                                -1_000_000,
                                1_000_000,
                            ) as i64,
                        },
                        ..strip
                    }),
                    TrackControl::Mute => final(self).tracks@[t] == (TrackStrip {
                        mute: !strip.mute,
                        ..strip
                    }),
                    TrackControl::Solo => final(self).tracks@[t] == (TrackStrip {
                        solo: !strip.solo,
                        ..strip
                    }),
                }
            }),
            final(self).cursor == old(self).cursor,
            final(self).steps_per_track == old(self).steps_per_track,
            final(self).playing_step == old(self).playing_step,
            final(self).selection == old(self).selection,
            final(self).focused == old(self).focused,
    {
        let t = self.cursor.track as usize;
        let mut strip = self.tracks.remove(t);
        match strip.selected_control {
            TrackControl::Volume => strip.adjust_volume(delta),
            TrackControl::Pan => strip.adjust_pan(delta),
            TrackControl::Mute => strip.toggle_mute(),
            TrackControl::Solo => strip.toggle_solo(),
        }
        self.tracks.insert(t, strip);
        proof {
            assert(final(self).tracks@ =~= old(self).tracks@.update(
                t as int,
                final(self).tracks@[t as int],
            ));
        }
    }

    /// Silences every cell of one track: each cell loses its sounding
    /// flag and its note, keeping pitch and velocity; a track index past
    /// the grid changes nothing.
    pub fn clear_track(&mut self, track_idx: usize)
        requires
            old(self).wf(),
        ensures
            final(self).wf(),
            track_idx >= 8 ==> *final(self) == *old(self),
            track_idx < 8 ==> {
                &&& final(self).tracks@ == old(self).tracks@.update(
                    track_idx as int,
                    final(self).tracks@[track_idx as int],
                )
                &&& final(self).tracks@[track_idx as int] == (TrackStrip {
                    steps: final(self).tracks@[track_idx as int].steps,
                    ..old(self).tracks@[track_idx as int]
                })
                &&& final(self).tracks@[track_idx as int].steps@.len() == old(self).tracks@[track_idx as int].steps@.len()
                &&& forall|s: int|
                    0 <= s < old(self).tracks@[track_idx as int].steps@.len() ==> final(self).tracks@[track_idx as int].steps@[s] == (StepCell {
                        enabled: false,
                        note: None,
                        ..old(self).tracks@[track_idx as int].steps@[s]
                    })
                &&& final(self).cursor == old(self).cursor
                &&& final(self).steps_per_track == old(self).steps_per_track
                &&& final(self).playing_step == old(self).playing_step
                &&& final(self).selection == old(self).selection
                &&& final(self).focused == old(self).focused
            },
    {
        if track_idx >= self.tracks.len() {
            return ;
        }
        let mut strip = self.tracks.remove(track_idx);
        let n: usize = strip.steps.len();
        let ghost strip0 = strip;
        let ghost steps0 = strip.steps@;
        let mut k: usize = 0;
        while k < n
            invariant
                k <= n,
                n == steps0.len(),
                strip.steps@.len() == n,
                strip == (TrackStrip { steps: strip.steps, ..strip0 }),
                forall|j: int|
                    0 <= j < k ==> strip.steps@[j] == (StepCell {
                        enabled: false,
                        note: None,
                        ..steps0[j]
                    }),
                forall|j: int| k <= j < n ==> strip.steps@[j] == steps0[j],
            decreases n - k,
        {
            let mut cell = strip.steps.remove(k);
            cell.enabled = false;
            cell.note = None;
            strip.steps.insert(k, cell);
            k = k + 1;
        }
        self.tracks.insert(track_idx, strip);
        proof {
            assert(final(self).tracks@ =~= old(self).tracks@.update(
                track_idx as int,
                final(self).tracks@[track_idx as int],
            ));
        }
    }

    /// Silences every cell of the cursor's track.
    pub fn clear_current_track(&mut self)
        requires
            old(self).wf(),
        ensures
            final(self).wf(),
            final(self).tracks@ == old(self).tracks@.update(
                old(self).cursor.track as int,
                final(self).tracks@[old(self).cursor.track as int],
            ),
            forall|s: int|
                0 <= s < old(self).tracks@[old(self).cursor.track as int].steps@.len() ==> final(self).tracks@[old(self).cursor.track as int].steps@[s] == (StepCell {
                    enabled: false,
                    note: None,
                    ..old(self).tracks@[old(self).cursor.track as int].steps@[s]
                }),
            final(self).cursor == old(self).cursor,
            final(self).selection == old(self).selection,
    {
        let t = self.cursor.track as usize;
        self.clear_track(t);
    }

    /// Whether a cell lies inside the selection's rectangle.
    pub fn is_step_selected(&self, track: u8, step: u8) -> (r: bool)
        ensures
            self.selection is None ==> !r,
            self.selection is Some ==> {
                let sel = self.selection.unwrap();
                let min_t = if sel.start.track <= sel.end.track {
                    sel.start.track as int
                } else {
                    sel.end.track as int
                };
                let max_t = if sel.start.track <= sel.end.track {
                    sel.end.track as int
                } else {
                    sel.start.track as int
                };
                let min_s = if sel.start.step <= sel.end.step {
                    sel.start.step as int
                } else {
                    sel.end.step as int
                };
                let max_s = if sel.start.step <= sel.end.step {
                    sel.end.step as int
                } else {
                    sel.start.step as int
                };
                r == (min_t <= track <= max_t && min_s <= step <= max_s)
            },
    {
        match self.selection {
            Some(sel) => {
                let min_track = if sel.start.track <= sel.end.track {
                    sel.start.track
                } else {
                    sel.end.track
                };
                let max_track = if sel.start.track <= sel.end.track {
                    sel.end.track
                } else {
                    sel.start.track
                };
                let min_step = if sel.start.step <= sel.end.step {
                    sel.start.step
                } else {
                    sel.end.step
                };
                let max_step = if sel.start.step <= sel.end.step {
                    sel.end.step
                } else {
                    sel.start.step
                };
                min_track <= track && track <= max_track && min_step <= step && step <= max_step
            },
            None => false,
        }
    }
}

} // verus!
