//! Voice allocation of the polyphonic pool.
//!
//! A note-on is placed by a three-step fallback:
//! 1. same-note replace: a voice already playing the note is re-excited;
//! 2. free voice: else the lowest-numbered inactive voice;
//! 3. stealing: else the voice chosen by `select_voice_for_steal`.
//!
//! The voices themselves are floating-point string models; the pool reads a
//! `VoiceSnapshot` of each.

use vstd::prelude::*;
use crate::note_allocator::{VoiceSnapshot, is_steal_choice, select_voice_for_steal};

verus! {

/// Number of voices of the pool.
pub const POLYPHONY: usize = 8;

/// Base seed of the per-voice noise generators.
pub const VOICE_SEED_BASE: u32 = 0x1234_5678;

/// Multiplier that spreads the voice index over the seed (golden-ratio constant).
pub const VOICE_SEED_STRIDE: u32 = 0x9E37_79B9;

/// Seed of voice `i`: `VOICE_SEED_BASE ^ (i * VOICE_SEED_STRIDE mod 2^32)`.
pub open spec fn spec_voice_seed(i: u32) -> u32 {
    VOICE_SEED_BASE ^ vstd::wrapping::u32_specs::wrapping_mul(i, VOICE_SEED_STRIDE)
}

/// Seed given to the noise generator of voice `i`, so that the excitation noise
/// of different voices is not correlated.
pub fn voice_seed(i: u32) -> (r: u32)
    ensures
        r == spec_voice_seed(i),
{
    VOICE_SEED_BASE ^ i.wrapping_mul(VOICE_SEED_STRIDE)
}

/// Distinct voices of the pool get distinct seeds.
pub proof fn lemma_voice_seeds_distinct(i: u32, j: u32)
    requires
        i < POLYPHONY,
        j < POLYPHONY,
        i != j,
    ensures
        spec_voice_seed(i) != spec_voice_seed(j),
{
    let a = vstd::wrapping::u32_specs::wrapping_mul(i, VOICE_SEED_STRIDE);
    let b = vstd::wrapping::u32_specs::wrapping_mul(j, VOICE_SEED_STRIDE);
    assert(a != b) by {
        assert(0u32 * 2654435769u32 % 4294967296 == 0);
        assert(1u32 * 2654435769u32 % 4294967296 == 2654435769);
        assert(2u32 * 2654435769u32 % 4294967296 == 1013904242);
        assert(3u32 * 2654435769u32 % 4294967296 == 3668340011);
        assert(4u32 * 2654435769u32 % 4294967296 == 2027808484);
        assert(5u32 * 2654435769u32 % 4294967296 == 387276957);
        assert(6u32 * 2654435769u32 % 4294967296 == 3041712726);
        assert(7u32 * 2654435769u32 % 4294967296 == 1401181199);
    }
    let base = VOICE_SEED_BASE;
    assert(base ^ a != base ^ b) by (bit_vector)
        requires
            a != b,
    ;
}

/// `r` is the first voice playing `note`.
pub open spec fn is_first_playing(v: Seq<VoiceSnapshot>, note: u8, r: int) -> bool {
    &&& 0 <= r < v.len()
    &&& v[r].note_id == Some(note)
    &&& forall|j: int| 0 <= j < r ==> (#[trigger] v[j]).note_id != Some(note)
}

/// Some voice plays `note`.
pub open spec fn plays(v: Seq<VoiceSnapshot>, note: u8) -> bool {
    exists|i: int| 0 <= i < v.len() && (#[trigger] v[i]).note_id == Some(note)
}

/// `r` is the first inactive voice.
pub open spec fn is_first_free(v: Seq<VoiceSnapshot>, r: int) -> bool {
    &&& 0 <= r < v.len()
    &&& !v[r].active
    &&& forall|j: int| 0 <= j < r ==> (#[trigger] v[j]).active
}

/// Some voice is inactive.
pub open spec fn has_free(v: Seq<VoiceSnapshot>) -> bool {
    exists|i: int| 0 <= i < v.len() && !(#[trigger] v[i]).active
}

/// `r` is where a note-on for `note` goes.
pub open spec fn is_allocation(v: Seq<VoiceSnapshot>, note: u8, r: int) -> bool {
    if plays(v, note) {
        is_first_playing(v, note, r)
    } else if has_free(v) {
        is_first_free(v, r)
    } else {
        is_steal_choice(v, r)
    }
}

/// The voice that plays `midi_note`, if any (the first one).
pub fn find_voice_index<const N: usize>(voices: &[VoiceSnapshot; N], midi_note: u8) -> (r: Option<
    usize,
>)
    ensures
        r matches Some(i) ==> is_first_playing(voices@, midi_note, i as int),
        r is None <==> !plays(voices@, midi_note),
{
    let mut i: usize = 0;
    while i < N
        invariant
            0 <= i <= N,
            voices@.len() == N,
            forall|j: int| 0 <= j < i ==> (#[trigger] voices@[j]).note_id != Some(midi_note),
        decreases N - i,
    {
        if voices[i].note_id == Some(midi_note) {
            return Some(i);
        }
        i = i + 1;
    }
    None
}

/// The first inactive voice, if any.
pub fn find_free_voice<const N: usize>(voices: &[VoiceSnapshot; N]) -> (r: Option<usize>)
    ensures
        r matches Some(i) ==> is_first_free(voices@, i as int),
        r is None <==> !has_free(voices@),
{
    let mut i: usize = 0;
    while i < N
        invariant
            0 <= i <= N,
            voices@.len() == N,
            forall|j: int| 0 <= j < i ==> (#[trigger] voices@[j]).active,
        decreases N - i,
    {
        if !voices[i].active {
            return Some(i);
        }
        i = i + 1;
    }
    None
}

/// Voice for a note-on of `midi_note`: same-note replace, else the first free
/// voice, else stealing.
pub fn allocate_voice<const N: usize>(voices: &[VoiceSnapshot; N], midi_note: u8) -> (r: usize)
    requires
        N > 0,
    ensures
        r < N,
        is_allocation(voices@, midi_note, r as int),
{
    if let Some(i) = find_voice_index(voices, midi_note) {
        return i;
    }
    if let Some(i) = find_free_voice(voices) {
        return i;
    }
    select_voice_for_steal(voices)
}

/// Number of active voices.
pub open spec fn count_active(v: Seq<VoiceSnapshot>) -> nat
    decreases v.len(),
{
    if v.len() == 0 {
        0
    } else {
        count_active(v.drop_last()) + if v.last().active { 1nat } else { 0nat }
    }
}

/// Number of active voices.
pub fn active_count<const N: usize>(voices: &[VoiceSnapshot; N]) -> (r: usize)
    ensures
        r == count_active(voices@),
        r <= N,
{
    let mut count: usize = 0;
    let mut i: usize = 0;
    while i < N
        invariant
            0 <= i <= N,
            voices@.len() == N,
            count == count_active(voices@.take(i as int)),
            count <= i,
        decreases N - i,
    {
        proof {
            assert(voices@.take(i + 1).drop_last() =~= voices@.take(i as int));
        }
        if voices[i].active {
            count = count + 1;
        }
        i = i + 1;
    }
    assert(voices@.take(N as int) =~= voices@);
    count
}

} // verus!
