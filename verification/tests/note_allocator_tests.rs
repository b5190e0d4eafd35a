use dsp_core::note_allocator::{select_voice_for_steal, VoiceSnapshot};

/// Threshold below which a voice counts as quiet (amplitude scale of the voices).
const QUIET_BELOW: f32 = 1.0e-3;

fn voice(amp: f32, age: u32) -> VoiceSnapshot {
    VoiceSnapshot { note_id: None, active: true, quiet: amp < QUIET_BELOW, age }
}

#[test]
fn test_steal_picks_quietest_voice() {
    // One voice below the threshold, the others loud: the quiet one is taken.
    let voices: [VoiceSnapshot; 4] = [
        voice(0.5, 100),
        voice(0.4, 200),
        voice(1.0e-5, 50),
        voice(0.6, 300),
    ];
    let i = select_voice_for_steal(&voices);
    assert_eq!(i, 2);
}

#[test]
fn test_steal_falls_back_to_oldest() {
    // All voices above the threshold: the oldest is taken.
    let voices: [VoiceSnapshot; 4] = [
        voice(0.5, 100),
        voice(0.5, 500),
        voice(0.5, 200),
        voice(0.5, 300),
    ];
    let i = select_voice_for_steal(&voices);
    assert_eq!(i, 1);
}

#[test]
fn test_steal_among_quiet_voices_picks_oldest() {
    // Several quiet voices: the oldest of them is taken.
    let voices: [VoiceSnapshot; 4] = [
        voice(1.0e-5, 100),
        voice(1.0e-4, 800),
        voice(0.5, 200),
        voice(1.0e-6, 400),
    ];
    let i = select_voice_for_steal(&voices);
    assert_eq!(i, 1);
}

#[test]
fn steal_ties_go_to_the_lowest_index() {
    let loud = [voice(0.5, 300), voice(0.5, 700), voice(0.5, 700)];
    assert_eq!(select_voice_for_steal(&loud), 1);
    let quiet = [voice(0.5, 900), voice(0.0, 10), voice(0.0, 10)];
    assert_eq!(select_voice_for_steal(&quiet), 1);
}

#[test]
fn steal_prefers_a_young_quiet_voice_over_an_old_loud_one() {
    let voices = [voice(0.9, 1_000_000), voice(1.0e-4, 1)];
    assert_eq!(select_voice_for_steal(&voices), 1);
}

#[test]
fn steal_single_voice() {
    assert_eq!(select_voice_for_steal(&[voice(0.5, 0)]), 0);
}
