//! Sustain pedal (CC#64) state.
//!
//! While the pedal is down, note-offs are deferred: the note is recorded in a
//! pending-release bitmap over MIDI notes 0..127 (one bit per note in a `u128`).

use vstd::prelude::*;

verus! {

/// Note `note` is set in the pending-release bitmap `bm`.
pub open spec fn bitmap_has(bm: u128, note: int) -> bool {
    0 <= note < 128 && (bm >> (note as u128)) & 1u128 == 1u128
}

/// Bit `n` of `bm | (1 << n)` is set, and every other bit is that of `bm`.
pub proof fn lemma_bitmap_set(bm: u128, n: u128)
    requires
        n < 128,
    ensures
        (bm | (1u128 << n)) >> n & 1u128 == 1u128,
        forall|m: u128| m < 128 && m != n ==> ((bm | (1u128 << n)) >> m) & 1u128 == (bm >> m) & 1u128,
{
    assert((bm | (1u128 << n)) >> n & 1u128 == 1u128) by (bit_vector)
        requires
            n < 128,
    ;
    assert forall|m: u128| m < 128 && m != n implies ((bm | (1u128 << n)) >> m) & 1u128 == (bm
        >> m) & 1u128 by {
        assert(((bm | (1u128 << n)) >> m) & 1u128 == (bm >> m) & 1u128) by (bit_vector)
            requires
                n < 128,
                m < 128,
                m != n,
        ;
    }
}

/// Bit `n` of `bm & !(1 << n)` is clear, and every other bit is that of `bm`.
pub proof fn lemma_bitmap_clear(bm: u128, n: u128)
    requires
        n < 128,
    ensures
        (bm & !(1u128 << n)) >> n & 1u128 == 0u128,
        forall|m: u128| m < 128 && m != n ==> ((bm & !(1u128 << n)) >> m) & 1u128 == (bm >> m) & 1u128,
{
    assert((bm & !(1u128 << n)) >> n & 1u128 == 0u128) by (bit_vector)
        requires
            n < 128,
    ;
    assert forall|m: u128| m < 128 && m != n implies ((bm & !(1u128 << n)) >> m) & 1u128 == (bm
        >> m) & 1u128 by {
        assert(((bm & !(1u128 << n)) >> m) & 1u128 == (bm >> m) & 1u128) by (bit_vector)
            requires
                n < 128,
                m < 128,
                m != n,
        ;
    }
}

pub struct SustainState {
    pub active: bool,
    pending_release: u128,
}

impl SustainState {
    /// The pedal is down.
    pub closed spec fn pedal_down(&self) -> bool {
        self.active
    }

    /// The pending-release bitmap.
    pub closed spec fn pending(&self) -> u128 {
        self.pending_release
    }

    pub fn new() -> (s: Self)
        ensures
            !s.pedal_down(),
            s.pending() == 0,
    {
        Self { active: false, pending_release: 0 }
    }

    /// Switches the pedal. On the down-to-up transition, hands back the pending
    /// bitmap and clears it (the caller releases each note in it); otherwise 0.
    pub fn set_active(&mut self, active: bool) -> (released: u128)
        ensures
            final(self).pedal_down() == active,
            old(self).pedal_down() && !active ==> released == old(self).pending()
                && final(self).pending() == 0,
            !(old(self).pedal_down() && !active) ==> released == 0
                && final(self).pending() == old(self).pending(),
    {
        let was_active = self.active;
        self.active = active;
        if was_active && !active {
            let pending = self.pending_release;
            self.pending_release = 0;
            pending
        } else {
            0
        }
    }

    /// Records a note-off as pending. Returns true while the pedal is down, and
    /// the caller then holds the release back.
    pub fn try_defer_note_off(&mut self, midi_note: u8) -> (deferred: bool)
        ensures
            deferred == (old(self).pedal_down() && midi_note < 128),
            final(self).pedal_down() == old(self).pedal_down(),
            deferred ==> final(self).pending() == old(self).pending() | (1u128 << midi_note),
            !deferred ==> final(self).pending() == old(self).pending(),
            forall|m: int|
                #![trigger bitmap_has(final(self).pending(), m)]
                bitmap_has(final(self).pending(), m) == if deferred && m == midi_note {
                    true
                } else {
                    bitmap_has(old(self).pending(), m)
                },
    {
        if self.active && midi_note < 128 {
            proof {
                lemma_bitmap_set(self.pending_release, midi_note as u128);
            }
            self.pending_release = self.pending_release | (1u128 << midi_note);
            true
        } else {
            false
        }
    }

    /// Called on note-on: a note that was pending release is struck again, so
    /// its bit is cleared and a later pedal-up does not cut the new note.
    pub fn clear_pending(&mut self, midi_note: u8)
        ensures
            final(self).pedal_down() == old(self).pedal_down(),
            midi_note < 128 ==> final(self).pending() == old(self).pending() & !(1u128 << midi_note),
            midi_note >= 128 ==> final(self).pending() == old(self).pending(),
            forall|m: int|
                #![trigger bitmap_has(final(self).pending(), m)]
                bitmap_has(final(self).pending(), m) == if m == midi_note {
                    false
                } else {
                    bitmap_has(old(self).pending(), m)
                },
    {
        if midi_note < 128 {
            proof {
                lemma_bitmap_clear(self.pending_release, midi_note as u128);
            }
            self.pending_release = self.pending_release & !(1u128 << midi_note);
        }
    }

    /// The pedal is down (the `active` field, for callers outside this module).
    pub fn is_active(&self) -> (r: bool)
        ensures
            r == self.pedal_down(),
    {
        self.active
    }

    /// Read-only view of the pending bitmap.
    pub fn pending_release_bitmap(&self) -> (r: u128)
        ensures
            r == self.pending(),
    {
        self.pending_release
    }

    pub fn reset(&mut self)
        ensures
            !final(self).pedal_down(),
            final(self).pending() == 0,
    {
        self.active = false;
        self.pending_release = 0;
    }
}

impl Default for SustainState {
    fn default() -> (s: Self)
        ensures
            !s.pedal_down(),
            s.pending() == 0,
    {
        Self::new()
    }
}

} // verus!
