//! Playback notes and the shared grid state on concrete values.

use osc::dec::Dec;
use osc::effects::{Delay, Envelope, EnvelopePair, Flanger, LFO};
use osc::note::{default_note, default_playback_note};
use osc::pitch::WesternPitch;
use osc::state::SequencerState;
use osc::waveform::Waveform;

fn default_envelope() -> Envelope {
    Envelope {
        attack: EnvelopePair(Dec::from_micro(150_000), Dec::from_micro(1_000_000)),
        decay: EnvelopePair(Dec::from_micro(250_000), Dec::from_micro(800_000)),
        sustain: EnvelopePair(Dec::from_micro(850_000), Dec::from_micro(800_000)),
        release: EnvelopePair(Dec::from_micro(1_000_000), Dec::from_micro(0)),
    }
}

#[test]
fn test_default_playback_note() {
    let playback_note = default_playback_note();
    assert_eq!(playback_note.note, default_note());
    assert_eq!(playback_note.playback_start_time_ms, Dec::from_micro(0));
    assert_eq!(playback_note.playback_end_time_ms, Dec::from_micro(0));
    assert_eq!(playback_note.playback_duration_ms(), Dec::from_micro(0));
    assert_eq!(playback_note.envelopes.is_empty(), true);
    assert_eq!(playback_note.lfos.is_empty(), true);
    assert_eq!(playback_note.flangers.is_empty(), true);
    assert_eq!(playback_note.delays.is_empty(), true);
}

#[test]
fn test_playback_note_with_envelope() {
    let mut playback_note = default_playback_note();
    playback_note.envelopes = vec![default_envelope()];
    assert_eq!(playback_note.envelopes, vec![default_envelope()]);
}

#[test]
fn test_playback_note_with_lfos() {
    let lfo = LFO {
        frequency: Dec::from_micro(2_000_000),
        amplitude: Dec::from_micro(300_000),
        waveforms: vec![Waveform::Sine],
    };
    let mut playback_note = default_playback_note();
    playback_note.lfos = vec![lfo.clone()];
    assert_eq!(playback_note.lfos, vec![lfo]);
}

#[test]
fn test_playback_note_with_flangers() {
    let flanger = Flanger { window_size: 8, mix: Dec::from_micro(300_000) };
    let mut playback_note = default_playback_note();
    playback_note.flangers = vec![flanger];
    assert_eq!(playback_note.flangers, vec![flanger]);
}

#[test]
fn test_playback_note_with_delays() {
    let delay = Delay {
        id: 0,
        mix: Dec::from_micro(500_000),
        decay: Dec::from_micro(700_000),
        interval_ms: Dec::from_micro(100_000_000),
        duration_ms: Dec::from_micro(50_000_000),
        num_repeats: 3,
        num_predelay_samples: 10,
        num_concurrent_sample_managers: 2,
    };
    let mut playback_note = default_playback_note();
    playback_note.delays = vec![delay];
    assert_eq!(playback_note.delays, vec![delay]);
}

#[test]
fn test_step_frequency_storage() {
    let mut state = SequencerState::new();

    // Two steps of the same track hold their own frequencies.
    let freq_c4 = WesternPitch::C.get_frequency(4);
    let freq_a4 = WesternPitch::A.get_frequency(4);

    state.set_step_frequency(0, 0, freq_c4);
    state.set_step_frequency(0, 1, freq_a4);

    assert_eq!(state.step_frequency(0, 0), freq_c4);
    assert_eq!(state.step_frequency(0, 1), freq_a4);
    assert_eq!(state.step_frequency(0, 0), 26163);
    assert_eq!(state.step_frequency(0, 1), 44000);
}

#[test]
fn test_multiple_tracks_different_frequencies() {
    let mut state = SequencerState::new();

    // The same step position of two tracks holds different frequencies.
    let freq_e4 = WesternPitch::E.get_frequency(4);
    let freq_g5 = WesternPitch::G.get_frequency(5);

    state.set_step_frequency(0, 5, freq_e4);
    state.set_step_frequency(1, 5, freq_g5);

    assert_eq!(state.step_frequency(0, 5), freq_e4);
    assert_eq!(state.step_frequency(1, 5), freq_g5);
    assert_eq!(state.step_frequency(0, 5), 32963);
    assert_eq!(state.step_frequency(1, 5), 78399);
}

#[test]
fn chopped_cuts_equal_segments() {
    let mut note = osc::note::default_sample_note();
    note.set_sample_buf(&[1, 2, 3, 4, 5, 6, 7]);
    let pieces = note.chopped(3);
    assert_eq!(pieces.len(), 3);
    assert_eq!(pieces[0].buf_size, 2);
    assert_eq!(pieces[0].get_sample_at(0), 1);
    assert_eq!(pieces[0].get_sample_at(1), 2);
    assert_eq!(pieces[1].get_sample_at(0), 3);
    assert_eq!(pieces[2].get_sample_at(1), 6);
}
