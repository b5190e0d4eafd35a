use dsp_core::note_allocator::VoiceSnapshot;
use dsp_core::voice_pool::{
    active_count, allocate_voice, find_free_voice, find_voice_index, voice_seed, POLYPHONY,
};

fn idle() -> VoiceSnapshot {
    VoiceSnapshot { note_id: None, active: false, quiet: true, age: 0 }
}

fn playing(note: u8, age: u32, quiet: bool) -> VoiceSnapshot {
    VoiceSnapshot { note_id: Some(note), active: true, quiet, age }
}

/// Bookkeeping stand-in for the pool: each allocation marks the voice as playing.
fn play(voices: &mut [VoiceSnapshot; POLYPHONY], note: u8) -> usize {
    for v in voices.iter_mut() {
        v.age += 10;
    }
    let i = allocate_voice(voices, note);
    voices[i] = playing(note, 0, false);
    i
}

#[test]
fn pool_allocates_distinct_voices() {
    let mut voices = [idle(); POLYPHONY];
    let a = play(&mut voices, 60);
    let b = play(&mut voices, 64);
    let c = play(&mut voices, 67);
    assert_eq!((a, b, c), (0, 1, 2));
    assert_eq!(active_count(&voices), 3);
}

#[test]
fn pool_same_note_replace() {
    let mut voices = [idle(); POLYPHONY];
    let a = play(&mut voices, 60);
    play(&mut voices, 62);
    let again = play(&mut voices, 60);
    assert_eq!(a, again);
    assert_eq!(active_count(&voices), 2);
}

#[test]
fn pool_uses_first_free_voice() {
    let mut voices = [playing(1, 5, false); POLYPHONY];
    voices[3] = idle();
    voices[6] = idle();
    assert_eq!(find_free_voice(&voices), Some(3));
    assert_eq!(allocate_voice(&voices, 99), 3);
}

#[test]
fn pool_steals_when_full() {
    let mut voices = [idle(); POLYPHONY];
    for (i, v) in voices.iter_mut().enumerate() {
        *v = playing(60 + i as u8, 100 + i as u32, false);
    }
    voices[2].quiet = true;
    voices[2].age = 1;
    // No voice plays 100 and none is free: the quiet voice is stolen.
    assert_eq!(allocate_voice(&voices, 100), 2);
    voices[2].quiet = false;
    // Nothing quiet: the oldest (index 7, age 107) is stolen.
    assert_eq!(allocate_voice(&voices, 100), 7);
    // A voice already playing the note is preferred over stealing.
    assert_eq!(allocate_voice(&voices, 63), 3);
}

#[test]
fn pool_released_voice_is_not_found_by_note() {
    let mut voices = [idle(); POLYPHONY];
    play(&mut voices, 60);
    assert_eq!(find_voice_index(&voices, 60), Some(0));
    // A released voice keeps sounding but no longer carries its note.
    voices[0].note_id = None;
    assert_eq!(find_voice_index(&voices, 60), None);
    assert_eq!(active_count(&voices), 1);
    // The next note-on does not reuse the still-active released voice.
    assert_eq!(allocate_voice(&voices, 60), 1);
}

#[test]
fn voice_seeds_differ_per_voice() {
    assert_eq!(voice_seed(0), 0x1234_5678);
    assert_eq!(voice_seed(1), 0x1234_5678 ^ 0x9E37_79B9);
    assert_eq!(voice_seed(2), 0x1234_5678 ^ 0x9E37_79B9u32.wrapping_mul(2));
    let seeds: Vec<u32> = (0..POLYPHONY as u32).map(voice_seed).collect();
    for i in 0..seeds.len() {
        for j in (i + 1)..seeds.len() {
            assert_ne!(seeds[i], seeds[j]);
        }
    }
}
