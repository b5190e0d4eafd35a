//! Voice stealing, used when every voice is sounding and none already plays the
//! requested note.
//!
//! 1. Among the voices whose amplitude is below the stealing threshold, take the
//!    oldest (largest age).
//! 2. If no voice is that quiet, take the oldest voice.
//!
//! Quiet voices are sacrificed first because their loss is hardly audible; taking
//! the oldest within the quiet group keeps the choice fair instead of always
//! hitting the single quietest voice.

use vstd::prelude::*;

verus! {

/// What the allocator reads of one voice. `quiet` says that the voice's amplitude
/// is below the stealing threshold; the amplitude itself is a floating-point
/// estimate kept by the voice.
#[derive(Debug, Clone, Copy, PartialEq, Eq, Structural)]
pub struct VoiceSnapshot {
    /// MIDI note the voice is playing; `None` once released or never triggered.
    pub note_id: Option<u8>,
    /// The voice is still producing sound.
    pub active: bool,
    /// Its amplitude is below the stealing threshold.
    pub quiet: bool,
    /// Samples since its last note-on.
    pub age: u32,
}

/// Some voice is quiet.
pub open spec fn has_quiet(v: Seq<VoiceSnapshot>) -> bool {
    exists|i: int| 0 <= i < v.len() && #[trigger] v[i].quiet
}

/// `r` is the first voice of greatest age among the quiet voices (`quiet_only`)
/// or among all voices.
pub open spec fn first_oldest(v: Seq<VoiceSnapshot>, r: int, quiet_only: bool) -> bool {
    &&& 0 <= r < v.len()
    &&& (quiet_only ==> v[r].quiet)
    &&& forall|j: int|
        0 <= j < v.len() && (quiet_only ==> v[j].quiet) ==> #[trigger] v[j].age <= v[r].age
    &&& forall|j: int| 0 <= j < r && (quiet_only ==> v[j].quiet) ==> #[trigger] v[j].age < v[r].age
}

/// The voice that stealing takes: the first oldest quiet voice if there is a quiet
/// voice, else the first oldest voice.
pub open spec fn is_steal_choice(v: Seq<VoiceSnapshot>, r: int) -> bool {
    first_oldest(v, r, has_quiet(v))
}

pub fn select_voice_for_steal<const N: usize>(voices: &[VoiceSnapshot; N]) -> (r: usize)
    requires
        N > 0,
    ensures
        r < N,
        is_steal_choice(voices@, r as int),
{
    let mut best_quiet: Option<(usize, u32)> = None;
    let mut i: usize = 0;
    while i < N
        invariant
            0 <= i <= N,
            voices@.len() == N,
            best_quiet matches Some(b) ==> b.0 < i && b.1 == voices@[b.0 as int].age
                && first_oldest(voices@.take(i as int), b.0 as int, true),
            best_quiet is None ==> forall|j: int| 0 <= j < i ==> !(#[trigger] voices@[j]).quiet,
        decreases N - i,
    {
        let v = voices[i];
        if v.quiet {
            match best_quiet {
                Some((_, best_age)) if v.age <= best_age => {},
                _ => best_quiet = Some((i, v.age)),
            }
        }
        proof {
            let t = voices@.take(i + 1);
            assert(t[i as int] == v);
            assert forall|j: int| 0 <= j < i implies t[j] == voices@.take(i as int)[j] by {}
        }
        i = i + 1;
    }
    if let Some((idx, _)) = best_quiet {
        assert(voices@.take(N as int) =~= voices@);
        assert(has_quiet(voices@)) by {
            assert(voices@[idx as int].quiet);
        }
        return idx;
    }
    assert(!has_quiet(voices@));
    let mut best_idx: usize = 0;
    let mut best_age: u32 = voices[0].age;
    let mut k: usize = 1;
    while k < N
        invariant
            1 <= k <= N,
            voices@.len() == N,
            best_idx < k,
            best_age == voices@[best_idx as int].age,
            first_oldest(voices@.take(k as int), best_idx as int, false),
        decreases N - k,
    {
        let v = voices[k];
        if v.age > best_age {
            best_idx = k;
            best_age = v.age;
        }
        proof {
            let t = voices@.take(k + 1);
            assert(t[k as int] == v);
            assert forall|j: int| 0 <= j < k implies t[j] == voices@.take(k as int)[j] by {}
        }
        k = k + 1;
    }
    assert(voices@.take(N as int) =~= voices@);
    best_idx
}

} // verus!
