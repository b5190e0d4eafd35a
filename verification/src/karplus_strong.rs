//! String-count and unison layout of a voice.
//!
//! The string model itself (delay lines, filters, excitation) computes in floating
//! point and is not part of this crate; this module holds the integer decisions
//! that shape it.

use vstd::prelude::*;

verus! {

/// Largest number of strings per voice (piano uses 1, 2 or 3; other presets 1).
pub const MAX_STRINGS_PER_VOICE: usize = 3;

/// Number of strings of a piano key, by keyboard range:
/// - A0..=A1 (21..=33): 1 string (thick wound bass strings, no unison);
/// - A#1..=B2 (34..=47): 2 strings;
/// - C3..=C8 (48..=108): 3 strings (tri-string unison).
/// Notes outside the keyboard fall back to the nearest end (1 below, 3 above).
pub open spec fn spec_n_strings(midi: u8) -> usize {
    if midi <= 33 {
        1
    } else if midi <= 47 {
        2
    } else {
        3
    }
}

pub fn n_strings(midi: u8) -> (r: usize)
    ensures
        r == spec_n_strings(midi),
        1 <= r <= MAX_STRINGS_PER_VOICE,
{
    match midi {
        0..=33 => 1,
        34..=47 => 2,
        _ => 3,
    }
}

/// Strings that a note-on excites: the piano layout when dispersion (the piano
/// preset) is active and the note is known, else a single string.
pub fn active_string_count(dispersion_active: bool, note_id: Option<u8>) -> (r: usize)
    ensures
        r == match (dispersion_active, note_id) {
            (true, Some(midi)) => spec_n_strings(midi),
            _ => 1,
        },
        1 <= r <= MAX_STRINGS_PER_VOICE,
{
    match (dispersion_active, note_id) {
        (true, Some(midi)) => n_strings(midi),
        _ => 1,
    }
}

/// Sign of the unison detune of string `string_idx` of a `n_strings_total`-string
/// voice; the detune in cents is this sign times the preset's base detune.
/// - 3 strings: [0, -1, +1] (centre string plus a symmetric pair);
/// - 2 strings: [0, +1];
/// - 1 string: [0].
/// The centre string (index 0) is never detuned.
pub open spec fn spec_detune_direction(string_idx: usize, n_strings_total: usize) -> i8 {
    if n_strings_total == 2 && string_idx == 1 {
        1
    } else if n_strings_total == 3 && string_idx == 1 {
        -1i8
    } else if n_strings_total == 3 && string_idx == 2 {
        1
    } else {
        0
    }
}

pub fn string_detune_direction(string_idx: usize, n_strings_total: usize) -> (r: i8)
    ensures
        r == spec_detune_direction(string_idx, n_strings_total),
{
    match (n_strings_total, string_idx) {
        (1, 0) => 0,
        (2, 0) => 0,
        (2, 1) => 1,
        (3, 0) => 0,
        (3, 1) => -1,
        (3, 2) => 1,
        _ => 0,
    }
}

/// The unison of a key is balanced: the detune signs of its strings sum to 0 for
/// one and three strings, and the centre string is never detuned.
pub proof fn lemma_unison_layout(midi: u8)
    ensures
        spec_detune_direction(0, spec_n_strings(midi)) == 0,
        spec_n_strings(midi) == 3 ==> spec_detune_direction(1, 3) + spec_detune_direction(2, 3)
            == 0,
        spec_n_strings(midi) == 2 ==> spec_detune_direction(1, 2) == 1,
{
}

/// String count never decreases up the keyboard.
pub proof fn lemma_n_strings_monotonic(a: u8, b: u8)
    requires
        a <= b,
    ensures
        spec_n_strings(a) <= spec_n_strings(b),
{
}

/// Read position of a circular delay line of `buf_len` samples that delays by
/// `length_int` samples: `length_int` positions behind the write position,
/// wrapping around the end of the buffer.
pub open spec fn spec_delay_read_index(write_idx: int, length_int: int, buf_len: int) -> int {
    if write_idx >= length_int {
        write_idx - length_int
    } else {
        write_idx + buf_len - length_int
    }
}

pub fn delay_read_index(write_idx: usize, length_int: usize, buf_len: usize) -> (r: usize)
    requires
        write_idx < buf_len,
        length_int <= buf_len,
        buf_len <= usize::MAX / 2,
    ensures
        r == spec_delay_read_index(write_idx as int, length_int as int, buf_len as int),
        r < buf_len,
{
    let x = write_idx + buf_len - length_int;
    assert(x % buf_len == spec_delay_read_index(write_idx as int, length_int as int, buf_len as int))
        by (nonlinear_arith)
        requires
            x == write_idx + buf_len - length_int,
            write_idx < buf_len,
            length_int <= buf_len,
    {
        if write_idx >= length_int {
            assert(x >= buf_len);
            assert(x - buf_len < buf_len);
            assert(x % buf_len == x - buf_len);
        } else {
            assert(x < buf_len);
            assert(x % buf_len == x);
        }
    }
    x % buf_len
}

/// Position after `idx` in a circular buffer of `buf_len` samples.
pub fn next_write_index(idx: usize, buf_len: usize) -> (r: usize)
    requires
        idx < buf_len,
    ensures
        r == if idx + 1 == buf_len { 0 } else { idx + 1 },
        r < buf_len,
{
    let next = idx + 1;
    if next == buf_len {
        0
    } else {
        next
    }
}

/// Writing a sample and stepping on, then reading `length_int` behind the new
/// position, reads what was written `length_int` steps earlier: the read
/// position trails the write position by exactly the delay.
pub proof fn lemma_delay_read_trails_write(write_idx: int, length_int: int, buf_len: int)
    requires
        0 <= write_idx < buf_len,
        0 <= length_int <= buf_len,
    ensures
        0 <= spec_delay_read_index(write_idx, length_int, buf_len) < buf_len,
        (spec_delay_read_index(write_idx, length_int, buf_len) + length_int) % buf_len
            == write_idx % buf_len,
{
    let r = spec_delay_read_index(write_idx, length_int, buf_len);
    assert((r + length_int) % buf_len == write_idx % buf_len) by (nonlinear_arith)
        requires
            r == spec_delay_read_index(write_idx, length_int, buf_len),
            0 <= write_idx < buf_len,
            0 <= length_int <= buf_len,
    {
        if write_idx >= length_int {
            assert(r + length_int == write_idx);
        } else {
            assert(r + length_int == write_idx + buf_len);
            assert((write_idx + buf_len) % buf_len == write_idx);
            assert(write_idx % buf_len == write_idx);
        }
    }
}

} // verus!
