//! Index arithmetic of the piano inharmonicity table.
//! The dispersion all-pass filters and the table values are floating point and
//! are not part of this crate.

use vstd::prelude::*;

verus! {

/// Number of dispersion all-pass stages per string.
pub const DISPERSION_STAGES: usize = 8;

/// Number of entries of the inharmonicity table: one per key, A0 (21) ..= C8 (108).
pub const B_CURVE_LEN: usize = 88;

/// Lowest MIDI note of the piano keyboard.
pub const PIANO_LOWEST_MIDI: u8 = 21;

/// Highest MIDI note of the piano keyboard.
pub const PIANO_HIGHEST_MIDI: u8 = 108;

/// Table index for `midi`: the note clamped to the keyboard, minus A0.
pub open spec fn spec_b_curve_index(midi: u8) -> int {
    if midi < 21 {
        0
    } else if midi > 108 {
        87
    } else {
        midi - 21
    }
}

/// Index into the 88-key inharmonicity table for any MIDI note: notes outside the
/// keyboard map to the nearest end instead of reading out of bounds.
pub fn b_curve_index(midi: u8) -> (r: usize)
    ensures
        r == spec_b_curve_index(midi),
        r < B_CURVE_LEN,
{
    let clamped = if midi < PIANO_LOWEST_MIDI {
        PIANO_LOWEST_MIDI
    } else if midi > PIANO_HIGHEST_MIDI {
        PIANO_HIGHEST_MIDI
    } else {
        midi
    };
    (clamped - PIANO_LOWEST_MIDI) as usize
}

} // verus!
