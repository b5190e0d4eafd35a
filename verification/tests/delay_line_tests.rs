use dsp_core::engine::{voice_state_tick, SynthMode, VOICE_STATE_WRITE_STRIDE};
use dsp_core::karplus_strong::{delay_read_index, next_write_index};

#[test]
fn delay_read_index_trails_write_position() {
    assert_eq!(delay_read_index(10, 3, 100), 7);
    assert_eq!(delay_read_index(2, 3, 100), 99);
    assert_eq!(delay_read_index(0, 100, 100), 0);
    assert_eq!(delay_read_index(5, 0, 8), 5);
    for w in 0..16usize {
        for l in 0..=16usize {
            let r = delay_read_index(w, l, 16);
            assert!(r < 16);
            assert_eq!((r + l) % 16, w);
        }
    }
}

#[test]
fn next_write_index_wraps() {
    assert_eq!(next_write_index(0, 4), 1);
    assert_eq!(next_write_index(3, 4), 0);
    assert_eq!(next_write_index(0, 1), 0);
}

#[test]
fn voice_state_refreshes_at_stride() {
    assert_eq!(VOICE_STATE_WRITE_STRIDE, 1024);
    assert_eq!(voice_state_tick(0, 128), (128, false));
    assert_eq!(voice_state_tick(896, 127), (1023, false));
    assert_eq!(voice_state_tick(896, 128), (0, true));
    assert_eq!(voice_state_tick(u32::MAX, 5), (0, true));
    let mut c = 0;
    let mut refreshes = 0;
    for _ in 0..64 {
        let (n, due) = voice_state_tick(c, 128);
        c = n;
        if due {
            refreshes += 1;
        }
    }
    assert_eq!(refreshes, 8);
}

#[test]
fn synth_mode_codes() {
    assert_eq!(SynthMode::from_u32(0), Some(SynthMode::Poly));
    assert_eq!(SynthMode::from_u32(1), Some(SynthMode::Mono));
    assert_eq!(SynthMode::from_u32(2), None);
}
