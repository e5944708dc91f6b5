//! State behind the terminal editor's widgets: selectors, transport
//! controls, focus areas, and display preferences. Drawing happens in the
//! application; the state transitions live here.

use crate::num::nat_digits;
use crate::text::{append_chars, chars_of, string_of};
use crate::waveform::Waveform;
use vstd::prelude::*;

verus! {

/// Something went wrong around the terminal editor.
#[derive(Debug)]
pub enum TuiError {
    Io(std::io::Error),
    Audio(String),
    Config(String),
    Terminal(String),
}

#[verifier::external_type_specification]
#[verifier::external_body]
pub struct ExIoError(std::io::Error);

/// A pressable transport button.
#[derive(Debug)]
pub struct Button {
    pub label: String,
    pub pressed: bool,
    pub focused: bool,
}

impl Button {
    /// A fresh unpressed, unfocused button with the given label.
    pub fn new(label: &str) -> (r: Button)
        ensures
            r.label@ == label@,
            !r.pressed,
            !r.focused,
    {
        Button { label: label.to_owned(), pressed: false, focused: false }
    }
}

/// How the playback position is written.
#[derive(Clone, Copy, Debug, PartialEq, Eq, Structural)]
pub enum PositionFormat {
    MeasureBeatTick,
    TimeMinutesSeconds,
    SamplePosition,
}

/// The transport's position readout.
#[derive(Debug)]
pub struct PositionDisplay {
    pub measure: u32,
    pub beat: u8,
    pub tick: u16,
    pub format: PositionFormat,
}

impl PositionDisplay {
    /// The readout at the start of the first measure.
    pub fn new() -> (r: PositionDisplay)
        ensures
            r.measure == 1,
            r.beat == 1,
            r.tick == 0,
            r.format == PositionFormat::MeasureBeatTick,
    {
        PositionDisplay { measure: 1, beat: 1, tick: 0, format: PositionFormat::MeasureBeatTick }
    }

    /// The position written out: measure, beat and tick joined with
    /// points; the other formats are placeholders.
    pub fn format_position(&self) -> (r: String)
        ensures
            self.format == PositionFormat::MeasureBeatTick ==> r@ == nat_digits(
                self.measure as int,
            ) + "."@ + nat_digits(self.beat as int) + "."@ + nat_digits(self.tick as int),
            self.format == PositionFormat::TimeMinutesSeconds ==> r@ == "0:00"@,
            self.format == PositionFormat::SamplePosition ==> r@ == "0"@,
    {
        match self.format {
            PositionFormat::MeasureBeatTick => {
                let mut out = crate::num::u64_to_chars(self.measure as u64);
                let mut dot = chars_of(".");
                append_chars(&mut out, &dot);
                let beat = crate::num::u64_to_chars(self.beat as u64);
                append_chars(&mut out, &beat);
                let dot2 = chars_of(".");
                append_chars(&mut out, &dot2);
                let tick = crate::num::u64_to_chars(self.tick as u64);
                append_chars(&mut out, &tick);
                string_of(&out)
            },
            PositionFormat::TimeMinutesSeconds => {
                let out = chars_of("0:00");
                string_of(&out)
            },
            PositionFormat::SamplePosition => {
                let out = chars_of("0");
                string_of(&out)
            },
        }
    }
}

/// The waveforms the selector cycles through, in order.
pub open spec fn selector_waveforms() -> Seq<Waveform> {
    seq![
        Waveform::Sine,
        Waveform::Square,
        Waveform::Triangle,
        Waveform::Saw,
        Waveform::GaussianNoise,
    ]
}

/// A dropdown over the oscillator waveforms.
#[derive(Clone, Debug)]
pub struct WaveformSelector {
    pub options: Vec<Waveform>,
    pub selected: usize,
    pub expanded: bool,
    pub focused: bool,
}

impl WaveformSelector {
    /// The selection's shape: the fixed options with a choice in range.
    pub open spec fn wf(&self) -> bool {
        self.options@ == selector_waveforms() && self.selected < self.options@.len()
    }

    /// A fresh selector on the sine.
    pub fn new() -> (r: WaveformSelector)
        ensures
            r.wf(),
            r.selected == 0,
            !r.expanded,
            !r.focused,
    {
        let mut options: Vec<Waveform> = Vec::new();
        options.push(Waveform::Sine);
        options.push(Waveform::Square);
        options.push(Waveform::Triangle);
        options.push(Waveform::Saw);
        options.push(Waveform::GaussianNoise);
        proof {
            assert(options@ =~= selector_waveforms());
        }
        WaveformSelector { options, selected: 0, expanded: false, focused: false }
    }

    /// The waveform under the selection.
    pub fn selected_waveform(&self) -> (r: Waveform)
        requires
            self.wf(),
        ensures
            r == selector_waveforms()[self.selected as int],
    {
        self.options[self.selected]
    }

    /// Moves the selection one forward, wrapping at the end.
    pub fn next(&mut self)
        requires
            old(self).wf(),
        ensures
            final(self).wf(),
            final(self).selected == (old(self).selected + 1) % 5,
            *final(self) == (WaveformSelector { selected: final(self).selected, ..*old(self) }),
    {
        self.selected = (self.selected + 1) % self.options.len();
    }

    /// Moves the selection one back, wrapping at the start.
    pub fn previous(&mut self)
        requires
            old(self).wf(),
        ensures
            final(self).wf(),
            final(self).selected == (old(self).selected + 4) % 5,
            *final(self) == (WaveformSelector { selected: final(self).selected, ..*old(self) }),
    {
        if self.selected == 0 {
            self.selected = self.options.len() - 1;
        } else {
            self.selected = self.selected - 1;
        }
    }

    /// Opens or closes the dropdown.
    pub fn toggle_expanded(&mut self)
        ensures
            *final(self) == (WaveformSelector { expanded: !old(self).expanded, ..*old(self) }),
    {
        self.expanded = !self.expanded;
    }
}

/// A second-order filter kind.
#[derive(Clone, Copy, Debug, PartialEq, Eq, Structural)]
pub enum FilterType {
    LowPass,
    HighPass,
    BandPass,
    Notch,
}

/// The filter kinds the selector cycles through, in order.
pub open spec fn selector_filters() -> Seq<FilterType> {
    seq![FilterType::LowPass, FilterType::HighPass, FilterType::BandPass, FilterType::Notch]
}

/// A dropdown over the filter kinds.
#[derive(Clone, Debug)]
pub struct FilterTypeSelector {
    pub options: Vec<FilterType>,
    pub selected: usize,
    pub expanded: bool,
    pub focused: bool,
}

impl FilterTypeSelector {
    /// The selection's shape: the fixed options with a choice in range.
    pub open spec fn wf(&self) -> bool {
        self.options@ == selector_filters() && self.selected < self.options@.len()
    }

    /// A fresh selector on the low-pass.
    pub fn new() -> (r: FilterTypeSelector)
        ensures
            r.wf(),
            r.selected == 0,
            !r.expanded,
            !r.focused,
    {
        let mut options: Vec<FilterType> = Vec::new();
        options.push(FilterType::LowPass);
        options.push(FilterType::HighPass);
        options.push(FilterType::BandPass);
        options.push(FilterType::Notch);
        proof {
            assert(options@ =~= selector_filters());
        }
        FilterTypeSelector { options, selected: 0, expanded: false, focused: false }
    }

    /// The filter kind under the selection.
    pub fn selected_filter(&self) -> (r: &FilterType)
        requires
            self.wf(),
        ensures
            *r == selector_filters()[self.selected as int],
    {
        &self.options[self.selected]
    }

    /// Moves the selection one forward, wrapping at the end.
    pub fn next(&mut self)
        requires
            old(self).wf(),
        ensures
            final(self).wf(),
            final(self).selected == (old(self).selected + 1) % 4,
            *final(self) == (FilterTypeSelector { selected: final(self).selected, ..*old(self) }),
    {
        self.selected = (self.selected + 1) % self.options.len();
    }

    /// Moves the selection one back, wrapping at the start.
    pub fn previous(&mut self)
        requires
            old(self).wf(),
        ensures
            final(self).wf(),
            final(self).selected == (old(self).selected + 3) % 4,
            *final(self) == (FilterTypeSelector { selected: final(self).selected, ..*old(self) }),
    {
        if self.selected == 0 {
            self.selected = self.options.len() - 1;
        } else {
            self.selected = self.selected - 1;
        }
    }

    /// Opens or closes the dropdown.
    pub fn toggle_expanded(&mut self)
        ensures
            *final(self) == (FilterTypeSelector { expanded: !old(self).expanded, ..*old(self) }),
    {
        self.expanded = !self.expanded;
    }
}

/// Which way a level meter is drawn.
#[derive(Clone, Copy, Debug, PartialEq, Eq, Structural)]
pub enum MeterOrientation {
    Horizontal,
    Vertical,
}

/// A section of the synthesizer panel.
#[derive(Clone, Copy, Debug, PartialEq, Eq, Structural)]
pub enum SynthSection {
    Oscillator,
    Filter,
    Envelope,
    Effects,
}

/// Which oscillator control is under the keys.
#[derive(Clone, Copy, Debug, PartialEq, Eq, Structural)]
pub enum OscillatorSubSection {
    Waveform,
    Frequency,
    Volume,
}

/// Which transport button is under the keys.
#[derive(Clone, Copy, Debug, PartialEq, Eq, Structural)]
pub enum TransportButton {
    Play,
    Stop,
}

/// Which panel of the editor is under the keys.
#[derive(Clone, Copy, Debug, PartialEq, Eq, Structural)]
pub enum FocusArea {
    Synthesizer(SynthSection),
    Sequencer,
    TrackVolume,
    TrackPanning,
    Transport,
}

/// Where one press of the focus key leads from each panel.
pub open spec fn next_focus(f: FocusArea) -> FocusArea {
    match f {
        FocusArea::Synthesizer(SynthSection::Oscillator) => FocusArea::Synthesizer(
            SynthSection::Filter,
        ),
        FocusArea::Synthesizer(SynthSection::Filter) => FocusArea::Synthesizer(
            SynthSection::Envelope,
        ),
        FocusArea::Synthesizer(SynthSection::Envelope) => FocusArea::Synthesizer(
            SynthSection::Effects,
        ),
        FocusArea::Synthesizer(SynthSection::Effects) => FocusArea::Sequencer,
        FocusArea::Sequencer => FocusArea::TrackVolume,
        FocusArea::TrackVolume => FocusArea::TrackPanning,
        FocusArea::TrackPanning => FocusArea::Transport,
        FocusArea::Transport => FocusArea::Synthesizer(SynthSection::Oscillator),
    }
}

impl FocusArea {
    /// The panel one press of the focus key moves to.
    pub fn cycled(&self) -> (r: FocusArea)
        ensures
            r == next_focus(*self),
    {
        match self {
            FocusArea::Synthesizer(SynthSection::Oscillator) => FocusArea::Synthesizer(
                SynthSection::Filter,
            ),
            FocusArea::Synthesizer(SynthSection::Filter) => FocusArea::Synthesizer(
                SynthSection::Envelope,
            ),
            FocusArea::Synthesizer(SynthSection::Envelope) => FocusArea::Synthesizer(
                SynthSection::Effects,
            ),
            FocusArea::Synthesizer(SynthSection::Effects) => FocusArea::Sequencer,
            FocusArea::Sequencer => FocusArea::TrackVolume,
            FocusArea::TrackVolume => FocusArea::TrackPanning,
            FocusArea::TrackPanning => FocusArea::Transport,
            FocusArea::Transport => FocusArea::Synthesizer(SynthSection::Oscillator),
        }
    }
}

/// The editor's transient display state.
#[derive(Debug)]
pub struct UiState {
    pub show_help: bool,
    pub status_message: Option<String>,
}

impl Default for UiState {
    /// Help hidden and no message shown.
    fn default() -> (r: UiState)
        ensures
            !r.show_help,
            r.status_message is None,
    {
        UiState { show_help: false, status_message: None }
    }
}

/// Where playback stands, for display.
#[derive(Clone, Copy, Debug, PartialEq, Eq, Structural)]
pub struct PlaybackPosition {
    pub measure: u32,
    pub beat: u8,
    pub tick: u16,
}

impl Default for PlaybackPosition {
    /// The very start.
    fn default() -> (r: PlaybackPosition)
        ensures
            r.measure == 0,
            r.beat == 0,
            r.tick == 0,
    {
        PlaybackPosition { measure: 0, beat: 0, tick: 0 }
    }
}

/// The envelope controls of the synthesizer panel; not yet populated.
#[derive(Debug)]
pub struct EnvelopeControls {
}

/// The effects controls of the synthesizer panel; not yet populated.
#[derive(Debug)]
pub struct EffectsControls {
}

/// Polls the terminal for input; the polling itself runs in the
/// application, which hands events in as plain values.
pub struct EventHandler {
}

impl EventHandler {
    /// A fresh handler.
    pub fn new() -> (r: EventHandler) {
        EventHandler {  }
    }
}

/// The editor's colour names.
#[derive(Clone, Debug)]
pub struct ColorTheme {
    pub name: String,
    pub focused_border: String,
    pub unfocused_border: String,
    pub highlight: String,
    pub background: String,
}

impl Default for ColorTheme {
    /// Cyan focus on a black background.
    fn default() -> (r: ColorTheme)
        ensures
            r.name@ == "default"@,
            r.focused_border@ == "cyan"@,
            r.unfocused_border@ == "white"@,
            r.highlight@ == "yellow"@,
            r.background@ == "black"@,
    {
        ColorTheme {
            name: String::from_str("default"),
            focused_border: String::from_str("cyan"),
            unfocused_border: String::from_str("white"),
            highlight: String::from_str("yellow"),
            background: String::from_str("black"),
        }
    }
}

/// The editor's layout bounds and panel heights.
#[derive(Clone, Copy, Debug, PartialEq, Eq, Structural)]
pub struct LayoutPreferences {
    pub minimum_width: u16,
    pub minimum_height: u16,
    pub synthesizer_height_percent: u16,
    pub sequencer_height_percent: u16,
}

impl Default for LayoutPreferences {
    /// An eighty-by-twenty-four floor with the synthesizer above the
    /// sequencer.
    fn default() -> (r: LayoutPreferences)
        ensures
            r.minimum_width == 80,
            r.minimum_height == 24,
            r.synthesizer_height_percent == 40,
            r.sequencer_height_percent == 55,
    {
        LayoutPreferences {
            minimum_width: 80,
            minimum_height: 24,
            synthesizer_height_percent: 40,
            sequencer_height_percent: 55,
        }
    }
}

} // verus!
