//! The composition script reader, exercised end to end.

use osc::dec::Dec;
use osc::dsl::{parse_dsl, Parser};

#[test]
fn test_parse_simple_script() {
    let input = r#"
            FixedTimeNoteSequence dur Quarter tempo 120 num_steps 16
            a 0.1,0.8 d 0.3,0.6 s 0.8,0.4 r 1.0,0.0
            delay mix 0.5 decay 0.7 interval_ms 100.0 duration_ms 50.0 num_repeats 3 num_predelay_samples 10 num_concurrent_delays 2
            osc:sine:440.0:0.5:0
            osc:square:880.0:0.3:4
            samp:/Users/markweiss/RustroverProjects/osc_bak/src/dsl/test_data/test_sample.wav:0.005:2
        "#;

    let result = parse_dsl(input);
    if let Err(e) = &result {
        println!("Parse error: {}", e);
    }
    assert!(result.is_ok());

    let track_grid = result.unwrap();
    assert_eq!(track_grid.tracks.len(), 1);

    let track = &track_grid.tracks[0];
    assert_eq!(track.effects.envelopes.len(), 1);
    assert_eq!(track.effects.delays.len(), 1);
}

#[test]
fn test_parse_multiple_blocks() {
    let input = r#"
            FixedTimeNoteSequence dur Eighth tempo 140 num_steps 8
            a 0.05,0.9 d 0.2,0.7 s 0.9,0.5 r 1.0,0.0
            osc:sine:220.0:0.4:0

            FixedTimeNoteSequence dur Quarter tempo 120 num_steps 16
            flanger window_size 8 mix 0.3
            samp:/Users/markweiss/RustroverProjects/osc_bak/src/dsl/test_data/test_sample.wav:0.005:2
        "#;

    let result = parse_dsl(input);
    assert!(result.is_ok());

    let track_grid = result.unwrap();
    assert_eq!(track_grid.tracks.len(), 2);
}

#[test]
fn test_parse_western_pitch() {
    let input = r#"
            FixedTimeNoteSequence dur Quarter tempo 120 num_steps 16
            osc:sine:C:0.5:0
            osc:triangle:F#:0.3:4
        "#;

    let result = parse_dsl(input);
    assert!(result.is_ok());
}

#[test]
fn test_parse_octave_western_pitch() {
    let input = r#"
            FixedTimeNoteSequence dur Quarter tempo 120 num_steps 16
            osc:sine:4,C:0.5:0
            osc:triangle:5,F#:0.3:4
            osc:square:3,A:0.7:8
        "#;

    let result = parse_dsl(input);
    assert!(result.is_ok());
}

#[test]
fn test_parse_complex_effects() {
    let input = r#"
            FixedTimeNoteSequence dur Half tempo 100 num_steps 32
            a 0.1,0.9 d 0.4,0.6 s 0.8,0.3 r 1.0,0.0
            delay mix 0.8 decay 0.6 interval_ms 80.0 duration_ms 40.0 num_repeats 5 num_predelay_samples 15 num_concurrent_delays 3
            flanger window_size 12 mix 0.4
            lfo freq 2.5 amp 0.3 waveforms sine,triangle
            osc:sine,square:440.0:0.7:0
        "#;

    let result = parse_dsl(input);
    assert!(result.is_ok());

    let track_grid = result.unwrap();
    let track = &track_grid.tracks[0];
    assert_eq!(track.effects.envelopes.len(), 1);
    assert_eq!(track.effects.delays.len(), 1);
    assert_eq!(track.effects.flangers.len(), 1);
    assert_eq!(track.effects.lfos.len(), 1);
}

#[test]
fn test_parse_track_panning() {
    let input = r#"
            FixedTimeNoteSequence dur Quarter tempo 120 num_steps 16 panning -0.5
            osc:sine:440.0:0.5:0

            FixedTimeNoteSequence dur Quarter tempo 120 num_steps 16 panning 0.7
            osc:square:880.0:0.3:4

            FixedTimeNoteSequence dur Quarter tempo 120 num_steps 16
            osc:triangle:220.0:0.4:8
        "#;

    let result = parse_dsl(input);
    assert!(result.is_ok());

    let track_grid = result.unwrap();
    assert_eq!(track_grid.tracks.len(), 3);

    // First track with left panning
    let track1 = &track_grid.tracks[0];
    assert_eq!(track1.effects.panning, Dec::from_micro(-500_000));
    assert_eq!(track1.effects.num_channels, 2);

    // Second track with right panning
    let track2 = &track_grid.tracks[1];
    assert_eq!(track2.effects.panning, Dec::from_micro(700_000));
    assert_eq!(track2.effects.num_channels, 2);

    // Third track with no panning (default)
    let track3 = &track_grid.tracks[2];
    assert_eq!(track3.effects.panning, Dec::from_micro(0));
    assert_eq!(track3.effects.num_channels, 1);
}

#[test]
fn test_parse_track_panning_keyword_required() {
    // A bare number after num_steps without the panning keyword is not
    // read as panning.
    let input = r#"
            FixedTimeNoteSequence dur Quarter tempo 120 num_steps 16
            a 0.1,0.9 d 0.4,0.6 s 0.8,0.3 r 1.0,0.0
            osc:sine:440.0:0.5:0
        "#;

    let result = parse_dsl(input);
    assert!(result.is_ok());

    let track_grid = result.unwrap();
    assert_eq!(track_grid.tracks.len(), 1);

    let track = &track_grid.tracks[0];
    assert_eq!(track.effects.panning, Dec::from_micro(0));
    assert_eq!(track.effects.num_channels, 1);
}

#[test]
fn test_parse_macro_definitions() {
    let input = r#"
            let env1 = a 0.2,0.8 d 0.3,0.6 s 0.8,0.5 r 1.0,0.0
            let delay1 = delay mix 0.5 decay 0.7 interval_ms 100.0 duration_ms 50.0 num_repeats 3 num_predelay_samples 10 num_concurrent_delays 2
            let flanger1 = flanger window_size 8 mix 0.3
            FixedTimeNoteSequence dur Quarter tempo 120 num_steps 16
            osc:sine:440.0:0.5:0
        "#;

    let mut parser = Parser::new(input);
    let script = parser.parse_script().unwrap();

    assert_eq!(script.macro_defs.len(), 3);

    assert_eq!(
        script.macro_defs.get("env1").unwrap().as_str(),
        "a 0.2,0.8 d 0.3,0.6 s 0.8,0.5 r 1.0,0.0"
    );
    assert_eq!(
        script.macro_defs.get("delay1").unwrap().as_str(),
        "delay mix 0.5 decay 0.7 interval_ms 100.0 duration_ms 50.0 num_repeats 3 num_predelay_samples 10 num_concurrent_delays 2"
    );
    assert_eq!(
        script.macro_defs.get("flanger1").unwrap().as_str(),
        "flanger window_size 8 mix 0.3"
    );

    assert_eq!(script.outer_blocks.len(), 1);
}

#[test]
fn test_parse_macro_definitions_with_whitespace() {
    let input = r#"
            let env1 =   a 0.2,0.8 d 0.3,0.6 s 0.8,0.5 r 1.0,0.0
            let delay1 = delay mix 0.5 decay 0.7 interval_ms 100.0 duration_ms 50.0 num_repeats 3 num_predelay_samples 10 num_concurrent_delays 2
            FixedTimeNoteSequence dur Quarter tempo 120 num_steps 16
            osc:sine:440.0:0.5:0
        "#;

    let mut parser = Parser::new(input);
    let script = parser.parse_script().unwrap();

    assert_eq!(
        script.macro_defs.get("env1").unwrap().as_str(),
        "a 0.2,0.8 d 0.3,0.6 s 0.8,0.5 r 1.0,0.0"
    );
    assert_eq!(
        script.macro_defs.get("delay1").unwrap().as_str(),
        "delay mix 0.5 decay 0.7 interval_ms 100.0 duration_ms 50.0 num_repeats 3 num_predelay_samples 10 num_concurrent_delays 2"
    );
}

#[test]
fn test_parse_multiple_macro_definitions() {
    let input = r#"
            let env1 = a 0.2,0.8 d 0.3,0.6 s 0.8,0.5 r 1.0,0.0
            let env2 = a 0.1,0.9 d 0.2,0.7 s 0.9,0.4 r 0.8,0.1
            let delay1 = delay mix 0.5 decay 0.7 interval_ms 100.0 duration_ms 50.0 num_repeats 3 num_predelay_samples 10 num_concurrent_delays 2
            let lfo1 = lfo freq 2.0 amp 0.3 waveforms sine,triangle
            let note1 = osc:sine:440.0:0.5:0
            FixedTimeNoteSequence dur Quarter tempo 120 num_steps 16
            osc:sine:880.0:0.3:4
        "#;

    let mut parser = Parser::new(input);
    let script = parser.parse_script().unwrap();

    assert_eq!(script.macro_defs.len(), 5);

    assert_eq!(
        script.macro_defs.get("env1").unwrap().as_str(),
        "a 0.2,0.8 d 0.3,0.6 s 0.8,0.5 r 1.0,0.0"
    );
    assert_eq!(
        script.macro_defs.get("env2").unwrap().as_str(),
        "a 0.1,0.9 d 0.2,0.7 s 0.9,0.4 r 0.8,0.1"
    );
    assert_eq!(
        script.macro_defs.get("delay1").unwrap().as_str(),
        "delay mix 0.5 decay 0.7 interval_ms 100.0 duration_ms 50.0 num_repeats 3 num_predelay_samples 10 num_concurrent_delays 2"
    );
    assert_eq!(
        script.macro_defs.get("lfo1").unwrap().as_str(),
        "lfo freq 2.0 amp 0.3 waveforms sine,triangle"
    );
    assert_eq!(script.macro_defs.get("note1").unwrap().as_str(), "osc:sine:440.0:0.5:0");

    assert_eq!(script.outer_blocks.len(), 1);
}

#[test]
fn test_parse_identifier_validation() {
    let input = r#"
            let valid-name = a 0.2,0.8 d 0.3,0.6 s 0.8,0.5 r 1.0,0.0
            let valid_name = delay mix 0.5 decay 0.7 interval_ms 100.0 duration_ms 50.0 num_repeats 3 num_predelay_samples 10 num_concurrent_delays 2
            let validName123 = flanger window_size 8 mix 0.3
            FixedTimeNoteSequence dur Quarter tempo 120 num_steps 16
            osc:sine:440.0:0.5:0
        "#;

    let mut parser = Parser::new(input);
    let script = parser.parse_script().unwrap();

    assert_eq!(script.macro_defs.len(), 3);
    assert!(script.macro_defs.contains_key("valid-name"));
    assert!(script.macro_defs.contains_key("valid_name"));
    assert!(script.macro_defs.contains_key("validName123"));
}

#[test]
fn test_macro_expansion_basic() {
    let input = r#"
            let env1 = a 0.2,0.8 d 0.3,0.6 s 0.8,0.5 r 1.0,0.0
            let delay1 = delay mix 0.5 decay 0.7 interval_ms 100.0 duration_ms 50.0 num_repeats 3 num_predelay_samples 10 num_concurrent_delays 2
            FixedTimeNoteSequence dur Quarter tempo 120 num_steps 16
            $env1
            $delay1
            osc:sine:440.0:0.5:0
        "#;

    let result = parse_dsl(input);
    assert!(result.is_ok());

    let track_grid = result.unwrap();
    assert_eq!(track_grid.tracks.len(), 1);

    let track = &track_grid.tracks[0];
    assert_eq!(track.effects.envelopes.len(), 1);
    assert_eq!(track.effects.delays.len(), 1);
}

#[test]
fn test_macro_expansion_multiple_uses() {
    let input = r#"
            let env1 = a 0.2,0.8 d 0.3,0.6 s 0.8,0.5 r 1.0,0.0
            let flanger1 = flanger window_size 8 mix 0.3
            FixedTimeNoteSequence dur Quarter tempo 120 num_steps 16
            $env1
            $flanger1
            osc:sine:440.0:0.5:0

            FixedTimeNoteSequence dur Eighth tempo 140 num_steps 8
            $env1
            $flanger1
            osc:square:880.0:0.3:4
        "#;

    let result = parse_dsl(input);
    assert!(result.is_ok());

    let track_grid = result.unwrap();
    assert_eq!(track_grid.tracks.len(), 2);

    for track in &track_grid.tracks {
        assert_eq!(track.effects.envelopes.len(), 1);
        assert_eq!(track.effects.flangers.len(), 1);
    }
}

#[test]
fn test_macro_expansion_nested() {
    let input = r#"
            let base_env = a 0.1,0.9 d 0.2,0.7 s 0.9,0.4 r 0.8,0.1
            let env1 = $base_env
            FixedTimeNoteSequence dur Quarter tempo 120 num_steps 16
            $env1
            osc:sine:440.0:0.5:0
        "#;

    let result = parse_dsl(input);
    assert!(result.is_ok());

    let track_grid = result.unwrap();
    assert_eq!(track_grid.tracks.len(), 1);

    let track = &track_grid.tracks[0];
    assert_eq!(track.effects.envelopes.len(), 1);
}

#[test]
fn test_macro_expansion_in_sequence() {
    let input = r#"
            let my_tempo = 140
            let my_steps = 8
            FixedTimeNoteSequence dur Quarter tempo $my_tempo num_steps $my_steps
            osc:sine:440.0:0.5:0
        "#;

    let result = parse_dsl(input);
    assert!(result.is_ok());

    let track_grid = result.unwrap();
    assert_eq!(track_grid.tracks.len(), 1);

    let track = &track_grid.tracks[0];
    assert_eq!(track.sequence.tempo, 140);
}

#[test]
fn test_macro_expansion_complex() {
    let input = r#"
            let attack_params = 0.2,0.8
            let decay_params = 0.3,0.6
            let sustain_params = 0.8,0.5
            let release_params = 1.0,0.0
            let env1 = a $attack_params d $decay_params s $sustain_params r $release_params
            let delay1 = delay mix 0.5 decay 0.7 interval_ms 100.0 duration_ms 50.0 num_repeats 3 num_predelay_samples 10 num_concurrent_delays 2
            FixedTimeNoteSequence dur Quarter tempo 120 num_steps 16
            $env1
            $delay1
            osc:sine:440.0:0.5:0
        "#;

    let result = parse_dsl(input);
    assert!(result.is_ok());

    let track_grid = result.unwrap();
    assert_eq!(track_grid.tracks.len(), 1);

    let track = &track_grid.tracks[0];
    assert_eq!(track.effects.envelopes.len(), 1);
    assert_eq!(track.effects.delays.len(), 1);
}
