use dsp_core::karplus_strong::{
    active_string_count, n_strings, string_detune_direction, MAX_STRINGS_PER_VOICE,
};

#[test]
fn test_n_strings_for_midi() {
    // A0..A1 (21..=33): 1 string
    assert_eq!(n_strings(21), 1);
    assert_eq!(n_strings(33), 1);
    // A#1..B2 (34..=47): 2 strings
    assert_eq!(n_strings(34), 2);
    assert_eq!(n_strings(47), 2);
    // C3..C8 (48..=108): 3 strings
    assert_eq!(n_strings(48), 3);
    assert_eq!(n_strings(108), 3);
    // Outside the keyboard: 1 below, 3 above
    assert_eq!(n_strings(0), 1);
    assert_eq!(n_strings(20), 1);
    assert_eq!(n_strings(109), 3);
    assert_eq!(n_strings(127), 3);
}

#[test]
fn string_detune_direction_patterns() {
    assert_eq!(string_detune_direction(0, 1), 0);
    assert_eq!(string_detune_direction(0, 2), 0);
    assert_eq!(string_detune_direction(1, 2), 1);
    assert_eq!(string_detune_direction(0, 3), 0);
    assert_eq!(string_detune_direction(1, 3), -1);
    assert_eq!(string_detune_direction(2, 3), 1);
    // Out-of-range combinations are not detuned.
    assert_eq!(string_detune_direction(1, 1), 0);
    assert_eq!(string_detune_direction(3, 3), 0);
    assert_eq!(string_detune_direction(0, 4), 0);
}

#[test]
fn active_string_count_needs_piano_and_note() {
    assert_eq!(active_string_count(true, Some(60)), 3);
    assert_eq!(active_string_count(true, Some(40)), 2);
    assert_eq!(active_string_count(true, Some(21)), 1);
    assert_eq!(active_string_count(false, Some(60)), 1);
    assert_eq!(active_string_count(true, None), 1);
    for midi in 0u8..=255 {
        let n = active_string_count(true, Some(midi));
        assert!(n >= 1 && n <= MAX_STRINGS_PER_VOICE);
    }
}

#[test]
fn n_strings_never_decreases_up_the_keyboard() {
    for midi in 0u8..255 {
        assert!(n_strings(midi) <= n_strings(midi + 1));
    }
}
