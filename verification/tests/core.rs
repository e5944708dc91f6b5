//! The library's data and state machines on concrete values.

use osc::dec::Dec;
use osc::dsl::{parse_dsl, EffectDef, NoteDeclaration, Parser, WesternPitchType};
use osc::duration::DurationType;
use osc::grid::{CursorFocus, SequencerGrid, TrackControl};
use osc::note::{default_playback_note, NoteType, SampledNote};
use osc::pitch::WesternPitch;
use osc::state::{ParameterUpdate, SequencerState};
use osc::ui::{FilterType, FilterTypeSelector, PositionDisplay, WaveformSelector};
use osc::waveform::{Waveform, WaveformType};

#[test]
fn parsed_values_are_exact() {
    let input = r#"
            FixedTimeNoteSequence dur Quarter tempo 120 num_steps 16
            delay mix 0.5 decay 1.0 interval_ms 30.0 duration_ms 60.0 num_repeats 9 num_predelay_samples 30 num_concurrent_delays 2
            osc:sine:440.0:0.5:0
        "#;
    let mut parser = Parser::new(input);
    let script = parser.parse_script().unwrap();
    assert_eq!(script.outer_blocks.len(), 1);
    let block = &script.outer_blocks[0];
    assert_eq!(block.sequence_def.tempo, 120);
    assert_eq!(block.sequence_def.num_steps, 16);
    assert_eq!(block.sequence_def.dur, DurationType::Quarter);
    match &block.effect_defs[0] {
        EffectDef::Delay(d) => {
            assert_eq!(d.mix, Dec::from_micro(500_000));
            assert_eq!(d.decay, Dec::from_micro(1_000_000));
            assert_eq!(d.interval_ms, Dec::from_micro(30_000_000));
            assert_eq!(d.duration_ms, Dec::from_micro(60_000_000));
            assert_eq!(d.num_repeats, 9);
            assert_eq!(d.num_predelay_samples, 30);
            assert_eq!(d.num_concurrent_delays, 2);
        },
        other => panic!("expected a delay, got {:?}", other),
    }
    match &block.note_declarations[0] {
        NoteDeclaration::Oscillator { waveforms, note_freq, volume, step_index } => {
            assert_eq!(waveforms.as_slice(), &[WaveformType::Sine]);
            assert_eq!(*note_freq, Dec::from_micro(440_000_000));
            assert_eq!(*volume, Dec::from_micro(500_000));
            assert_eq!(*step_index, 0);
        },
        other => panic!("expected an oscillator note, got {:?}", other),
    }
}

#[test]
fn note_times_follow_tempo_and_step() {
    // At tempo 120 a quarter-note step lasts 500 ms; step 4 starts at
    // 2000 ms.
    let input = r#"
            FixedTimeNoteSequence dur Quarter tempo 120 num_steps 16
            osc:sine:440.0:0.5:4
        "#;
    let grid = parse_dsl(input).unwrap();
    let note = &grid.tracks[0].sequence.notes[0];
    assert_eq!(note.playback_start_time_ms, Dec::from_micro(2_000_000_000));
    assert_eq!(note.playback_end_time_ms, Dec::from_micro(2_500_000_000));
    assert_eq!(note.note_type, NoteType::Oscillator);
}

#[test]
fn zero_tempo_with_notes_is_rejected() {
    let input = r#"
            FixedTimeNoteSequence dur Quarter tempo 0 num_steps 16
            osc:sine:440.0:0.5:0
        "#;
    assert!(parse_dsl(input).is_err());
}

#[test]
fn malformed_header_is_rejected() {
    assert!(parse_dsl("FixedTimeNoteSequence dur Sideways tempo 120 num_steps 16").is_err());
    assert!(parse_dsl("FixedTimeNoteSequence dur Quarter tempo 999 num_steps 16").is_err());
    assert!(parse_dsl("FixedTimeNoteSequence dur Quarter tempo 120 num_steps nine").is_err());
}

#[test]
fn unknown_waveform_is_rejected() {
    let r = WaveformType::from_str("warble");
    assert_eq!(r.unwrap_err(), "Unknown waveform: warble");
    assert_eq!(WaveformType::from_str("SAW").unwrap(), WaveformType::Sawtooth);
    assert_eq!(WaveformType::from_str("Sine").unwrap(), WaveformType::Sine);
}

#[test]
fn pitch_spellings_round_to_pitches() {
    assert_eq!(WesternPitchType::from_str("C#").unwrap(), WesternPitchType::CSharp);
    assert_eq!(WesternPitchType::from_str("Bb").unwrap(), WesternPitchType::BFlat);
    assert_eq!(
        WesternPitchType::from_str("H").unwrap_err(),
        "Unknown western pitch: H"
    );
    assert_eq!(
        WesternPitchType::from_str("C#").unwrap().to_western_pitch(),
        WesternPitch::CSharp
    );
}

#[test]
fn pitch_frequencies_match_concert_pitch() {
    // Centihertz of the equal-temperament table.
    assert_eq!(WesternPitch::A.get_frequency(4), 44000);
    assert_eq!(WesternPitch::C.get_frequency(4), 26163);
    assert_eq!(WesternPitch::G.get_frequency(5), 78399);
    assert_eq!(WesternPitch::E.get_frequency(4), 32963);
}

#[test]
fn pitch_cycle_wraps_both_ways() {
    assert_eq!(WesternPitch::B.next(), WesternPitch::C);
    assert_eq!(WesternPitch::C.previous(), WesternPitch::B);
    assert_eq!(WesternPitch::C.next(), WesternPitch::CSharp);
    // A flat spelling is not in the cycle and counts as its start.
    assert_eq!(WesternPitch::EFlat.next(), WesternPitch::CSharp);
    let pitches = WesternPitch::all_pitches();
    assert_eq!(pitches.len(), 12);
    assert_eq!(pitches[0], WesternPitch::C);
    assert_eq!(pitches[11], WesternPitch::B);
}

#[test]
fn sampled_note_cursor_stops_at_the_end() {
    // Buffered values come back in order; after the end every call gives
    // zero and nothing fails.
    let mut note = SampledNote::new(
        String::from("a.wav"),
        Dec::from_micro(1_000_000),
        Dec::from_micro(0),
        Dec::from_micro(0),
    );
    note.set_sample_buf(&[3, -7, 11]);
    assert_eq!(note.next_sample(), 3);
    assert_eq!(note.next_sample(), -7);
    assert_eq!(note.next_sample(), 11);
    assert_eq!(note.next_sample(), 0);
    assert_eq!(note.next_sample(), 0);
    assert_eq!(note.sample_index, 3);
    assert_eq!(note.get_sample_at(1), -7);
    note.reverse();
    assert_eq!(note.get_sample_at(0), 11);
}

#[test]
fn default_playback_note_is_silent_and_empty() {
    let pn = default_playback_note();
    assert_eq!(pn.note_type, NoteType::Oscillator);
    assert!(pn.envelopes.is_empty());
    assert!(pn.lfos.is_empty());
    assert!(pn.flangers.is_empty());
    assert!(pn.delays.is_empty());
    assert!(pn.is_past_end(1));
    assert!(!pn.is_past_end(0));
}

#[test]
fn grid_cursor_moves_and_clamps() {
    let mut grid = SequencerGrid::new(16);
    assert_eq!(grid.cursor.track, 0);
    assert_eq!(grid.cursor.focus_area, CursorFocus::Steps);
    // Right over the edge clamps at the last step.
    grid.move_cursor(0, 127);
    assert_eq!(grid.cursor.step, 15);
    // Down from the step row lands on the frequency row.
    grid.move_cursor(1, 0);
    assert_eq!(grid.cursor.focus_area, CursorFocus::Frequency);
    // Down again moves to the next track's step row.
    grid.move_cursor(1, 0);
    assert_eq!(grid.cursor.track, 1);
    assert_eq!(grid.cursor.focus_area, CursorFocus::Steps);
    grid.toggle_current_step();
    assert!(grid.tracks[1].steps[15].enabled);
    grid.toggle_current_step();
    assert!(!grid.tracks[1].steps[15].enabled);
}

#[test]
fn grid_controls_walk_and_adjust() {
    let mut grid = SequencerGrid::new(16);
    grid.switch_focus();
    assert_eq!(grid.cursor.focus_area, CursorFocus::TrackControls);
    grid.move_cursor(0, 1);
    assert_eq!(grid.tracks[0].selected_control, TrackControl::Pan);
    grid.move_cursor(0, 100);
    assert_eq!(grid.tracks[0].selected_control, TrackControl::Solo);
    let mut strip = grid.tracks.remove(0);
    strip.adjust_volume(Dec::from_micro(300_000));
    assert_eq!(strip.volume, Dec::from_micro(1_000_000));
    strip.adjust_pan(Dec::from_micro(-2_500_000));
    assert_eq!(strip.pan, Dec::from_micro(-1_000_000));
    strip.toggle_mute();
    assert!(strip.mute);
}

#[test]
fn grid_selection_tracks_bounds() {
    let mut grid = SequencerGrid::new(16);
    grid.start_selection();
    grid.move_cursor(0, 5);
    grid.update_selection();
    assert_eq!(grid.get_selection_bounds(), Some((0, 0, 0, 5)));
    assert!(grid.is_step_selected(0, 3));
    assert!(!grid.is_step_selected(1, 3));
    grid.clear_selection();
    assert_eq!(grid.get_selection_bounds(), None);
}

#[test]
fn shared_state_keeps_cells_apart() {
    // Cells written through the flat track-by-sixteen indexing read back
    // independently.
    let mut state = SequencerState::new();
    state.set_step_enabled(0, 0, true);
    state.set_step_frequency(0, 0, 26163);
    state.set_step_enabled(1, 0, true);
    state.set_step_frequency(1, 0, 78399);
    assert!(state.step_enabled(0, 0));
    assert!(state.step_enabled(1, 0));
    assert_eq!(state.step_frequency(0, 0), 26163);
    assert_eq!(state.step_frequency(1, 0), 78399);
    // Neighbouring cells are untouched.
    assert!(!state.step_enabled(0, 1));
    assert!(!state.step_enabled(2, 0));
    assert_eq!(state.step_frequency(0, 1), 26163);
    assert_eq!(SequencerState::step_index(1, 0), 16);
    assert_eq!(SequencerState::step_index(0, 1), 1);
}

#[test]
fn shared_state_applies_updates() {
    let mut state = SequencerState::new();
    state.apply_update(&ParameterUpdate::TransportPlay);
    assert!(state.is_playing);
    state.apply_update(&ParameterUpdate::TempoChange(Dec::from_micro(90_000_000)));
    assert_eq!(state.tempo, Dec::from_micro(90_000_000));
    state.apply_update(&ParameterUpdate::OscillatorWaveform(Waveform::Square));
    assert_eq!(state.osc_waveform, Waveform::Square);
    state.apply_update(&ParameterUpdate::SequencerStep { track: 3, step: 7, enabled: true });
    assert!(state.step_enabled(3, 7));
    // A toggle outside the grid changes nothing.
    state.apply_update(&ParameterUpdate::SequencerStep { track: 9, step: 7, enabled: true });
    state.apply_update(&ParameterUpdate::TransportStop);
    assert!(!state.is_playing);
}

#[test]
fn transport_steps_on_the_sample_grid() {
    // With 4 samples per step, the callback advances the step exactly
    // when the counter crosses a multiple of 4, wrapping at sixteen.
    let mut state = SequencerState::new();
    let mut advances = 0;
    for _ in 0..65 {
        if state.advance_frame(4) {
            advances += 1;
        }
    }
    assert_eq!(advances, 16);
    assert_eq!(state.current_step, 0);
    assert_eq!(state.sample_count, 65);
}

#[test]
fn selectors_cycle_through_their_options() {
    let mut w = WaveformSelector::new();
    assert_eq!(w.selected_waveform(), Waveform::Sine);
    w.next();
    assert_eq!(w.selected_waveform(), Waveform::Square);
    w.previous();
    w.previous();
    assert_eq!(w.selected_waveform(), Waveform::GaussianNoise);
    w.toggle_expanded();
    assert!(w.expanded);

    let mut f = FilterTypeSelector::new();
    assert_eq!(*f.selected_filter(), FilterType::LowPass);
    f.previous();
    assert_eq!(*f.selected_filter(), FilterType::Notch);
    f.next();
    assert_eq!(*f.selected_filter(), FilterType::LowPass);
}

#[test]
fn position_display_writes_measure_beat_tick() {
    let mut d = PositionDisplay::new();
    assert_eq!(d.format_position(), "1.1.0");
    d.measure = 12;
    d.beat = 3;
    d.tick = 240;
    assert_eq!(d.format_position(), "12.3.240");
}

#[test]
fn generator_and_apply_lines_expand() {
    let input = r#"
let osc1 = osc:sine:440.0:0.5:{step}

FixedTimeNoteSequence dur Quarter tempo 120 num_steps 16

apply step:(range 0,8,4) $osc1
        "#;
    let grid = parse_dsl(input).unwrap();
    assert_eq!(grid.tracks.len(), 1);
    // Steps 0, 4 and 8 each carry one note.
    assert_eq!(grid.tracks[0].sequence.notes.len(), 3);
}

#[test]
fn range_generator_spells_its_numbers() {
    let out = Parser::expand_range_generator(vec!["0", "12", "4"]).unwrap();
    assert_eq!(out, "0,4,8,12");
    let single = Parser::expand_range_generator(vec!["5", "4", "1"]).unwrap();
    assert_eq!(single, "");
    let backwards = Parser::expand_range_generator(vec!["3", "9", "-2"]).unwrap();
    assert_eq!(backwards, "3");
    assert!(Parser::expand_range_generator(vec!["a", "9", "2"]).is_err());
}

#[test]
fn undefined_macro_is_reported_with_its_line() {
    let input = "FixedTimeNoteSequence dur Quarter tempo 120 num_steps 16\n$undefined_macro\nosc:sine:440.0:0.5:0";
    let r = Parser::expand_macros(input);
    assert!(r.is_err());
    let msg = r.unwrap_err();
    assert!(msg.contains("Undefined macro '$undefined_macro'"));
    assert!(msg.contains("line 2"));
    // The reader falls back to the unexpanded text, which then fails to
    // parse as a script.
    assert!(parse_dsl(input).is_err());
}
