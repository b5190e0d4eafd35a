use dsp_core::engine::{
    pop_lowest_note, voice_active_mask, ControlChange, NoteRouter, SynthMode, VoiceActions,
};

const C: u8 = 60;
const D: u8 = 62;

fn none() -> VoiceActions {
    VoiceActions { release_all: false, release_note: None, release_pending: 0, trigger: None, revive: None }
}

fn trigger(n: u8) -> VoiceActions {
    VoiceActions { trigger: Some(n), ..none() }
}

fn mono() -> NoteRouter {
    let mut r = NoteRouter::new();
    assert_eq!(r.set_mode(SynthMode::Mono), none());
    r
}

#[test]
fn router_poly_note_on_off() {
    let mut r = NoteRouter::new();
    assert_eq!(r.mode(), SynthMode::Poly);
    assert_eq!(r.note_on(C), trigger(C));
    assert_eq!(r.note_off(C), VoiceActions { release_note: Some(C), ..none() });
}

#[test]
fn router_mono_last_note_priority() {
    // C down, D down, D up: C sounds again; C up: silence.
    let mut r = mono();
    assert_eq!(r.note_on(C), trigger(C));
    assert_eq!(r.note_on(D), VoiceActions { release_note: Some(C), trigger: Some(D), ..none() });
    assert_eq!(r.note_off(D), VoiceActions { release_note: Some(D), revive: Some(C), ..none() });
    assert_eq!(r.note_off(C), VoiceActions { release_note: Some(C), ..none() });
    assert_eq!(r.held_top(), None);
}

#[test]
fn router_mono_repeated_note_on_does_not_release_itself() {
    let mut r = mono();
    r.note_on(C);
    assert_eq!(r.note_on(C), trigger(C));
    // Only one entry of C is kept, so releasing it empties the history.
    assert_eq!(r.note_off(C), VoiceActions { release_note: Some(C), ..none() });
    assert_eq!(r.held_top(), None);
}

#[test]
fn router_mono_inner_release_does_not_retrigger() {
    let mut r = mono();
    r.note_on(C);
    r.note_on(D);
    r.note_on(64);
    assert_eq!(r.note_off(D), VoiceActions { release_note: Some(D), ..none() });
    assert_eq!(r.held_top(), Some(64));
    assert_eq!(r.note_off(64), VoiceActions { release_note: Some(64), revive: Some(C), ..none() });
}

#[test]
fn router_mono_history_overflow() {
    // Seventeen keys: the oldest (60) leaves the history, the newest stays.
    let mut r = mono();
    for n in 60..(60 + 17_u8) {
        r.note_on(n);
    }
    assert_eq!(r.note_off(76), VoiceActions { release_note: Some(76), revive: Some(75), ..none() });
    // 60 is no longer held: releasing it does not restart anything.
    assert_eq!(r.note_off(60), VoiceActions { release_note: Some(60), ..none() });
    assert_eq!(r.held_top(), Some(75));
}

#[test]
fn router_sustain_defers_note_off() {
    let mut r = NoteRouter::new();
    r.note_on(C);
    assert_eq!(r.sustain_pedal(true), none());
    assert!(r.sustain_active());
    assert_eq!(r.note_off(C), none());
    assert!(r.sustain_pending_bitmap() & (1u128 << C) != 0);
    assert_eq!(r.sustain_pedal(false), VoiceActions { release_pending: 1u128 << C, ..none() });
    assert!(!r.sustain_active());
    assert_eq!(r.sustain_pending_bitmap(), 0);
}

#[test]
fn router_sustain_restrike_is_not_released() {
    let mut r = NoteRouter::new();
    r.note_on(C);
    r.sustain_pedal(true);
    r.note_off(C);
    r.note_off(D);
    assert_eq!(r.note_on(C), trigger(C));
    assert_eq!(r.sustain_pending_bitmap() & (1u128 << C), 0);
    assert_eq!(r.sustain_pedal(false), VoiceActions { release_pending: 1u128 << D, ..none() });
}

#[test]
fn router_all_notes_off_clears_sustain() {
    let mut r = NoteRouter::new();
    r.note_on(C);
    r.sustain_pedal(true);
    r.note_off(C);
    assert_eq!(r.all_notes_off(), VoiceActions { release_all: true, ..none() });
    assert!(!r.sustain_active());
    assert_eq!(r.sustain_pending_bitmap(), 0);
    assert_eq!(r.sustain_pedal(false), none());
}

#[test]
fn router_mono_ignores_sustain() {
    let mut r = mono();
    r.note_on(C);
    r.sustain_pedal(true);
    assert_eq!(r.note_off(C), VoiceActions { release_note: Some(C), ..none() });
    assert_eq!(r.sustain_pending_bitmap(), 0);
}

#[test]
fn router_mode_switch_releases_pending() {
    let mut r = NoteRouter::new();
    r.note_on(C);
    r.sustain_pedal(true);
    r.note_off(C);
    assert_eq!(r.set_mode(SynthMode::Mono), VoiceActions { release_pending: 1u128 << C, ..none() });
    assert_eq!(r.sustain_pending_bitmap(), 0);
    assert!(!r.sustain_active());
    assert_eq!(r.mode(), SynthMode::Mono);
}

#[test]
fn router_mode_switch_without_pending_keeps_pedal() {
    let mut r = NoteRouter::new();
    r.sustain_pedal(true);
    assert_eq!(r.set_mode(SynthMode::Mono), none());
    assert!(r.sustain_active());
    r.note_on(C);
    assert_eq!(r.set_mode(SynthMode::Poly), none());
    assert_eq!(r.held_top(), None);
}

#[test]
fn router_reset_keeps_mode() {
    let mut r = mono();
    r.note_on(C);
    r.sustain_pedal(true);
    r.reset();
    assert_eq!(r.mode(), SynthMode::Mono);
    assert_eq!(r.held_top(), None);
    assert!(!r.sustain_active());
}

#[test]
fn control_change_decoding() {
    assert_eq!(ControlChange::from_cc(1), Some(ControlChange::ModWheel));
    assert_eq!(ControlChange::from_cc(7), Some(ControlChange::ChannelVolume));
    assert_eq!(ControlChange::from_cc(64), Some(ControlChange::SustainPedal));
    assert_eq!(ControlChange::from_cc(123), Some(ControlChange::AllNotesOff));
    for cc in [0u8, 2, 11, 63, 65, 122, 124, 127, 255] {
        assert_eq!(ControlChange::from_cc(cc), None);
    }
}

#[test]
fn pop_lowest_note_visits_set_bits_in_order() {
    let mut bm: u128 = (1u128 << 60) | (1u128 << 3) | (1u128 << 127);
    assert_eq!(pop_lowest_note(&mut bm), Some(3));
    assert_eq!(pop_lowest_note(&mut bm), Some(60));
    assert_eq!(pop_lowest_note(&mut bm), Some(127));
    assert_eq!(bm, 0);
    assert_eq!(pop_lowest_note(&mut bm), None);
    let mut one: u128 = 1;
    assert_eq!(pop_lowest_note(&mut one), Some(0));
    let mut all = u128::MAX;
    let mut seen = Vec::new();
    while let Some(n) = pop_lowest_note(&mut all) {
        seen.push(n);
    }
    assert_eq!(seen, (0u8..128).collect::<Vec<u8>>());
}

#[test]
fn voice_active_mask_bits() {
    assert_eq!(voice_active_mask(&[false; 8]), 0);
    assert_eq!(voice_active_mask(&[true; 8]), 0xFF);
    assert_eq!(voice_active_mask(&[true, false, true, false, false, false, false, true]), 0b1000_0101);
}
