//! Note routing of the synth engine: poly/mono mode, last-note priority in mono
//! mode, the sustain pedal and the MIDI control changes that act on notes.
//!
//! `NoteRouter` takes the control events and answers with the voice operations
//! that the pool has to carry out (`VoiceActions`). The audio path (voices,
//! body resonator, gains, LFO) computes in floating point and is not part of
//! this crate.

use vstd::prelude::*;
use crate::hold_stack::{
    HoldStack, MAX_HELD, remove_first, pushed, lemma_push_unique_distinct,
    lemma_remove_first_no_duplicates,
};
use crate::sustain_state::{SustainState, bitmap_has, lemma_bitmap_clear};
use crate::voice_pool::POLYPHONY;

verus! {

/// Polyphony mode.
#[derive(Debug, Clone, Copy, PartialEq, Eq, Structural)]
pub enum SynthMode {
    Poly,
    Mono,
}

/// Wire code of a mode (0 = Poly, 1 = Mono).
pub open spec fn mode_from_code(value: u32) -> Option<SynthMode> {
    match value {
        0 => Some(SynthMode::Poly),
        1 => Some(SynthMode::Mono),
        _ => None,
    }
}

impl SynthMode {
    /// Mode selected by a host code: 0 = Poly, 1 = Mono; other codes select nothing.
    pub fn from_u32(value: u32) -> (r: Option<Self>)
        ensures
            r == mode_from_code(value),
    {
        match value {
            0 => Some(Self::Poly),
            1 => Some(Self::Mono),
            _ => None,
        }
    }
}

/// Samples between two refreshes of the shared voice-state block (about 21 ms
/// at 48 kHz); the host reads it at this stride, so refreshing more often would
/// only be overwritten.
pub const VOICE_STATE_WRITE_STRIDE: u32 = 1024;

/// After a block of `frames` samples: the sample counter since the last refresh
/// of the voice-state block (saturating), reset to 0 when the block is due, and
/// whether it is due.
pub open spec fn spec_voice_state_tick(counter: u32, frames: u32) -> (u32, bool) {
    let c = if counter + frames > u32::MAX { u32::MAX } else { (counter + frames) as u32 };
    if c >= VOICE_STATE_WRITE_STRIDE {
        (0, true)
    } else {
        (c, false)
    }
}

pub fn voice_state_tick(counter: u32, frames: u32) -> (r: (u32, bool))
    ensures
        r == spec_voice_state_tick(counter, frames),
{
    let c = counter.saturating_add(frames);
    if c >= VOICE_STATE_WRITE_STRIDE {
        (0, true)
    } else {
        (c, false)
    }
}

/// MIDI control change number of the modulation wheel.
pub const CC_MOD_WHEEL: u8 = 1;

/// MIDI control change number of the channel volume.
pub const CC_CHANNEL_VOLUME: u8 = 7;

/// MIDI control change number of the sustain pedal.
pub const CC_SUSTAIN_PEDAL: u8 = 64;

/// MIDI control change number of All Notes Off.
pub const CC_ALL_NOTES_OFF: u8 = 123;

/// The MIDI control changes that the engine handles; all others are ignored.
#[derive(Debug, Clone, Copy, PartialEq, Eq, Structural)]
pub enum ControlChange {
    ModWheel,
    ChannelVolume,
    SustainPedal,
    AllNotesOff,
}

/// The control change handled for controller number `cc`, if any.
pub open spec fn spec_control_change(cc: u8) -> Option<ControlChange> {
    if cc == CC_MOD_WHEEL {
        Some(ControlChange::ModWheel)
    } else if cc == CC_CHANNEL_VOLUME {
        Some(ControlChange::ChannelVolume)
    } else if cc == CC_SUSTAIN_PEDAL {
        Some(ControlChange::SustainPedal)
    } else if cc == CC_ALL_NOTES_OFF {
        Some(ControlChange::AllNotesOff)
    } else {
        None
    }
}

impl ControlChange {
    pub fn from_cc(cc: u8) -> (r: Option<Self>)
        ensures
            r == spec_control_change(cc),
            (r == Some(ControlChange::ModWheel)) <==> cc == 1,
            (r == Some(ControlChange::ChannelVolume)) <==> cc == 7,
            (r == Some(ControlChange::SustainPedal)) <==> cc == 64,
            (r == Some(ControlChange::AllNotesOff)) <==> cc == 123,
            (r is None) <==> !(cc == 1 || cc == 7 || cc == 64 || cc == 123),
    {
        match cc {
            CC_MOD_WHEEL => Some(Self::ModWheel),
            CC_CHANNEL_VOLUME => Some(Self::ChannelVolume),
            CC_SUSTAIN_PEDAL => Some(Self::SustainPedal),
            CC_ALL_NOTES_OFF => Some(Self::AllNotesOff),
            _ => None,
        }
    }
}

/// Voice operations that a control event asks of the pool, carried out in this
/// order: release every active voice; release the voice of one note; release
/// the voice of every note in a bitmap; start a note at the played velocity;
/// start a note again at the revive velocity of mono mode.
#[derive(Debug, Clone, Copy, PartialEq, Eq, Structural)]
pub struct VoiceActions {
    pub release_all: bool,
    pub release_note: Option<u8>,
    pub release_pending: u128,
    pub trigger: Option<u8>,
    pub revive: Option<u8>,
}

/// No voice operation.
pub open spec fn no_actions() -> VoiceActions {
    VoiceActions {
        release_all: false,
        release_note: None,
        release_pending: 0,
        trigger: None,
        revive: None,
    }
}

/// Takes the lowest note out of a pending-release bitmap: returns it and clears
/// its bit, or returns `None` when the bitmap is empty. Releasing the notes of a
/// bitmap is repeating this until `None`; it visits only the set bits, lowest
/// first.
pub fn pop_lowest_note(bitmap: &mut u128) -> (note: Option<u8>)
    ensures
        (note is None) <==> *old(bitmap) == 0,
        note is None ==> *final(bitmap) == *old(bitmap),
        note matches Some(n) ==> n < 128 && bitmap_has(*old(bitmap), n as int) && (forall|m: int|
            0 <= m < n ==> !bitmap_has(*old(bitmap), m)) && *final(bitmap) == *old(bitmap) & !(
        1u128 << n),
        note matches Some(n) ==> forall|m: int|
            #![trigger bitmap_has(*final(bitmap), m)]
            bitmap_has(*final(bitmap), m) == (m != n && bitmap_has(*old(bitmap), m)),
        *final(bitmap) <= *old(bitmap),
{
    let bm = *bitmap;
    let mut rest: u128 = bm;
    let mut i: u8 = 0;
    assert(bm >> 0u128 == bm && bm << 0u128 == bm) by (bit_vector);
    while rest != 0
        invariant
            i < 128,
            rest == bm >> (i as u128),
            rest << (i as u128) == bm,
            forall|m: int| 0 <= m < i ==> !bitmap_has(bm, m),
            *bitmap == bm,
            *old(bitmap) == bm,
        decreases rest,
    {
        if rest & 1 == 1 {
            proof {
                lemma_bitmap_clear(bm, i as u128);
                let k = i as u128;
                assert(bm & !(1u128 << k) <= bm) by (bit_vector);
                assert((rest & 1u128 == 1u128 && rest == bm >> k) ==> bm != 0u128) by (bit_vector);
                assert(bitmap_has(bm, i as int));
            }
            *bitmap = bm & !(1u128 << i);
            return Some(i);
        }
        proof {
            let k = i as u128;
            assert(rest & 1u128 == 0u128) by (bit_vector)
                requires
                    rest & 1u128 != 1u128,
            ;
            assert(k < 127u128) by (bit_vector)
                requires
                    rest == bm >> k,
                    k < 128u128,
                    rest != 0u128,
                    rest & 1u128 == 0u128,
            ;
            assert((rest >> 1u128) < rest) by (bit_vector)
                requires
                    rest != 0u128,
            ;
            assert(rest >> 1u128 == bm >> (k + 1u128)) by (bit_vector)
                requires
                    rest == bm >> k,
                    k < 127u128,
            ;
            assert((rest >> 1u128) << (k + 1u128) == bm) by (bit_vector)
                requires
                    rest << k == bm,
                    rest & 1u128 == 0u128,
                    k < 127u128,
            ;
            assert(!bitmap_has(bm, i as int));
        }
        rest = rest >> 1u128;
        i = i + 1;
    }
    proof {
        let k = i as u128;
        assert((rest == 0u128 && rest << k == bm) ==> bm == 0u128) by (bit_vector);
    }
    None
}

/// Bit `i` of the voice activity mask is set exactly when voice `i` is active.
pub open spec fn mask_has(mask: u8, i: int) -> bool {
    0 <= i < 8 && (mask >> (i as u8)) & 1u8 == 1u8
}

/// Activity byte of the shared voice-state block: bit `i` set when voice `i` is
/// active.
pub fn voice_active_mask(active: &[bool; POLYPHONY]) -> (mask: u8)
    ensures
        forall|i: int| 0 <= i < POLYPHONY ==> (mask_has(mask, i) <==> active@[i]),
{
    let mut mask: u8 = 0;
    let mut i: usize = 0;
    assert forall|j: int| 0 <= j < 8 implies !mask_has(0u8, j) by {
        let m = j as u8;
        assert((0u8 >> m) & 1u8 == 0u8) by (bit_vector);
    }
    while i < POLYPHONY
        invariant
            0 <= i <= POLYPHONY,
            active@.len() == POLYPHONY,
            forall|j: int| 0 <= j < i ==> (mask_has(mask, j) <==> active@[j]),
            forall|j: int| i <= j < 8 ==> !mask_has(mask, j),
        decreases POLYPHONY - i,
    {
        let ghost old_mask = mask;
        if active[i] {
            mask = mask | (1u8 << i);
            proof {
                let k = i as u8;
                assert forall|j: int| 0 <= j < 8 implies (mask_has(mask, j) <==> (j == i
                    || mask_has(old_mask, j))) by {
                    let m = j as u8;
                    assert(((old_mask | (1u8 << k)) >> m) & 1u8 == 1u8 <==> (m == k || (old_mask
                        >> m) & 1u8 == 1u8)) by (bit_vector)
                        requires
                            k < 8u8,
                            m < 8u8,
                    ;
                }
            }
        }
        i = i + 1;
    }
    mask
}

/// What the router holds: the mode, the held keys of mono mode (oldest first),
/// whether the sustain pedal is down and the notes whose release it holds back.
pub struct RouterState {
    pub mode: SynthMode,
    pub held: Seq<u8>,
    pub sustain_on: bool,
    pub pending: u128,
}

/// Top of a key history.
pub open spec fn top_of(s: Seq<u8>) -> Option<u8> {
    if s.len() == 0 {
        None
    } else {
        Some(s.last())
    }
}

/// Pending bitmap after a note-on of `midi`: the note's bit is cleared.
pub open spec fn cleared(pending: u128, midi: u8) -> u128 {
    if midi < 128 {
        pending & !(1u128 << midi)
    } else {
        pending
    }
}

/// Note-on. Any pending release of the note is dropped (a key struck again
/// while the pedal holds it keeps sounding after pedal-up). In mono mode the
/// previous top key is released if it is another note, and the key moves to the
/// top of the history. The note starts at the played velocity.
pub open spec fn spec_note_on(s: RouterState, midi: u8) -> (RouterState, VoiceActions) {
    match s.mode {
        SynthMode::Poly => (
            RouterState {
                mode: s.mode,
                held: s.held,
                sustain_on: s.sustain_on,
                pending: cleared(s.pending, midi),
            },
            VoiceActions { trigger: Some(midi), ..no_actions() },
        ),
        SynthMode::Mono => (
            RouterState {
                mode: s.mode,
                held: pushed(remove_first(s.held, midi), midi, MAX_HELD as nat),
                sustain_on: s.sustain_on,
                pending: cleared(s.pending, midi),
            },
            VoiceActions {
                release_note: if s.held.len() > 0 && s.held.last() != midi {
                    Some(s.held.last())
                } else {
                    None
                },
                trigger: Some(midi),
                ..no_actions()
            },
        ),
    }
}

/// Note-off. Poly: while the pedal is down the release is deferred (recorded as
/// pending), else the note's voice is released. Mono (the pedal does not act):
/// the key leaves the history and its voice is released; if the top of the
/// history changed and a key is still held, that key sounds again.
pub open spec fn spec_note_off(s: RouterState, midi: u8) -> (RouterState, VoiceActions) {
    match s.mode {
        SynthMode::Poly => if s.sustain_on && midi < 128 {
            (
                RouterState {
                    mode: s.mode,
                    held: s.held,
                    sustain_on: s.sustain_on,
                    pending: s.pending | (1u128 << midi),
                },
                no_actions(),
            )
        } else {
            (s, VoiceActions { release_note: Some(midi), ..no_actions() })
        },
        SynthMode::Mono => {
            let held = remove_first(s.held, midi);
            (
                RouterState {
                    mode: s.mode,
                    held: held,
                    sustain_on: s.sustain_on,
                    pending: s.pending,
                },
                VoiceActions {
                    release_note: Some(midi),
                    revive: if top_of(held) != top_of(s.held) {
                        top_of(held)
                    } else {
                        None
                    },
                    ..no_actions()
                },
            )
        },
    }
}

/// Sustain pedal moved. Going up releases every pending note and clears them.
pub open spec fn spec_sustain_pedal(s: RouterState, down: bool) -> (RouterState, VoiceActions) {
    if s.sustain_on && !down {
        (
            RouterState { mode: s.mode, held: s.held, sustain_on: false, pending: 0 },
            VoiceActions { release_pending: s.pending, ..no_actions() },
        )
    } else {
        (
            RouterState { mode: s.mode, held: s.held, sustain_on: down, pending: s.pending },
            no_actions(),
        )
    }
}

/// All Notes Off (also used on an instrument change): every active voice is
/// released, the key history is emptied and the pedal state is reset, so that
/// stale pending notes are not released by a later pedal-up.
pub open spec fn spec_all_notes_off(s: RouterState) -> (RouterState, VoiceActions) {
    (
        RouterState { mode: s.mode, held: Seq::empty(), sustain_on: false, pending: 0 },
        VoiceActions { release_all: true, ..no_actions() },
    )
}

/// Mode switch. Pending notes are released first (and the pedal state reset if
/// there were any), so that none is left hanging; the key history is emptied.
pub open spec fn spec_set_mode(s: RouterState, mode: SynthMode) -> (RouterState, VoiceActions) {
    (
        RouterState {
            mode: mode,
            held: Seq::empty(),
            sustain_on: if s.pending != 0 { false } else { s.sustain_on },
            pending: 0,
        },
        VoiceActions { release_pending: s.pending, ..no_actions() },
    )
}

/// Engine reset: key history and pedal state cleared, mode kept.
pub open spec fn spec_reset(s: RouterState) -> RouterState {
    RouterState { mode: s.mode, held: Seq::empty(), sustain_on: false, pending: 0 }
}

/// What holds of every reachable router state: the key history has no repeated
/// key and at most `MAX_HELD` entries; it is empty in poly mode; and no release
/// is pending in mono mode (the pedal defers releases in poly mode only).
pub open spec fn router_inv(s: RouterState) -> bool {
    &&& s.held.no_duplicates()
    &&& s.held.len() <= MAX_HELD
    &&& s.mode == SynthMode::Poly ==> s.held.len() == 0
    &&& s.mode == SynthMode::Mono ==> s.pending == 0
}

/// Decisions of the engine on note and control events.
pub struct NoteRouter {
    mode: SynthMode,
    hold_stack: HoldStack,
    sustain_state: SustainState,
}

impl View for NoteRouter {
    type V = RouterState;

    closed spec fn view(&self) -> RouterState {
        RouterState {
            mode: self.mode,
            held: self.hold_stack@,
            sustain_on: self.sustain_state.pedal_down(),
            pending: self.sustain_state.pending(),
        }
    }
}

impl NoteRouter {
    pub closed spec fn wf(&self) -> bool {
        &&& self.hold_stack.wf()
        &&& router_inv(self@)
    }

    /// A well-formed router is in a state where the invariant holds.
    pub proof fn lemma_wf_inv(&self)
        requires
            self.wf(),
        ensures
            router_inv(self@),
    {
    }

    pub fn new() -> (r: Self)
        ensures
            r.wf(),
            r@ == (RouterState {
                mode: SynthMode::Poly,
                held: Seq::empty(),
                sustain_on: false,
                pending: 0,
            }),
    {
        Self { mode: SynthMode::Poly, hold_stack: HoldStack::new(), sustain_state: SustainState::new() }
    }

    pub fn note_on(&mut self, midi_note: u8) -> (r: VoiceActions)
        requires
            old(self).wf(),
        ensures
            final(self).wf(),
            (final(self)@, r) == spec_note_on(old(self)@, midi_note),
    {
        broadcast use vstd::laws_eq::group_laws_eq;

        let ghost s = self@;
        self.sustain_state.clear_pending(midi_note);
        let mut release_note: Option<u8> = None;
        match self.mode {
            SynthMode::Mono => {
                if let Some(prev) = self.hold_stack.top() {
                    if prev != midi_note {
                        release_note = Some(prev);
                    }
                }
                proof {
                    lemma_push_unique_distinct(s.held, midi_note, MAX_HELD as nat);
                }
                self.hold_stack.push_unique(midi_note);
            },
            SynthMode::Poly => {},
        }
        proof {
            if s.mode == SynthMode::Mono {
                assert(s.pending == 0);
                assert(cleared(0u128, midi_note) == 0) by {
                    if midi_note < 128 {
                        let n = midi_note;
                        assert(0u128 & !(1u128 << n) == 0u128) by (bit_vector);
                    }
                }
            }
        }
        VoiceActions {
            release_all: false,
            release_note: release_note,
            release_pending: 0,
            trigger: Some(midi_note),
            revive: None,
        }
    }

    pub fn note_off(&mut self, midi_note: u8) -> (r: VoiceActions)
        requires
            old(self).wf(),
        ensures
            final(self).wf(),
            (final(self)@, r) == spec_note_off(old(self)@, midi_note),
            old(self)@.mode == SynthMode::Mono ==> r.release_note == Some(midi_note),
            r.release_note == Some(midi_note) || (old(self)@.mode == SynthMode::Poly
                && old(self)@.sustain_on && midi_note < 128 && r == no_actions()),
            forall|m: int|
                #![trigger bitmap_has(final(self)@.pending, m)]
                bitmap_has(old(self)@.pending, m) ==> bitmap_has(final(self)@.pending, m),
            r.release_note != Some(midi_note) ==> bitmap_has(final(self)@.pending, midi_note as int),
    {
        broadcast use vstd::laws_eq::group_laws_eq;

        let ghost s = self@;
        match self.mode {
            SynthMode::Poly => {
                proof {
                    if midi_note < 128 {
                        crate::sustain_state::lemma_bitmap_set(s.pending, midi_note as u128);
                    }
                }
                if self.sustain_state.try_defer_note_off(midi_note) {
                    return VoiceActions {
                        release_all: false,
                        release_note: None,
                        release_pending: 0,
                        trigger: None,
                        revive: None,
                    };
                }
                VoiceActions {
                    release_all: false,
                    release_note: Some(midi_note),
                    release_pending: 0,
                    trigger: None,
                    revive: None,
                }
            },
            SynthMode::Mono => {
                let prev_top = self.hold_stack.top();
                proof {
                    lemma_remove_first_no_duplicates(s.held, midi_note);
                }
                self.hold_stack.remove(midi_note);
                let new_top = self.hold_stack.top();
                let revive = if new_top != prev_top {
                    new_top
                } else {
                    None
                };
                VoiceActions {
                    release_all: false,
                    release_note: Some(midi_note),
                    release_pending: 0,
                    trigger: None,
                    revive: revive,
                }
            },
        }
    }

    pub fn sustain_pedal(&mut self, down: bool) -> (r: VoiceActions)
        requires
            old(self).wf(),
        ensures
            final(self).wf(),
            (final(self)@, r) == spec_sustain_pedal(old(self)@, down),
            final(self)@.sustain_on == down,
            down ==> final(self)@.pending == old(self)@.pending && r == no_actions(),
            !down && old(self)@.sustain_on ==> r.release_pending == old(self)@.pending
                && final(self)@.pending == 0,
    {
        let released = self.sustain_state.set_active(down);
        VoiceActions {
            release_all: false,
            release_note: None,
            release_pending: released,
            trigger: None,
            revive: None,
        }
    }

    pub fn all_notes_off(&mut self) -> (r: VoiceActions)
        requires
            old(self).wf(),
        ensures
            final(self).wf(),
            (final(self)@, r) == spec_all_notes_off(old(self)@),
    {
        self.hold_stack.clear();
        self.sustain_state.reset();
        VoiceActions {
            release_all: true,
            release_note: None,
            release_pending: 0,
            trigger: None,
            revive: None,
        }
    }

    pub fn set_mode(&mut self, mode: SynthMode) -> (r: VoiceActions)
        requires
            old(self).wf(),
        ensures
            final(self).wf(),
            (final(self)@, r) == spec_set_mode(old(self)@, mode),
            final(self)@.mode == mode,
            r.release_pending == old(self)@.pending,
            final(self)@.pending == 0,
            old(self)@.pending == 0 ==> final(self)@.sustain_on == old(self)@.sustain_on,
    {
        let pending = self.sustain_state.pending_release_bitmap();
        if pending != 0 {
            self.sustain_state.reset();
        }
        self.mode = mode;
        self.hold_stack.clear();
        VoiceActions {
            release_all: false,
            release_note: None,
            release_pending: pending,
            trigger: None,
            revive: None,
        }
    }

    pub fn reset(&mut self)
        requires
            old(self).wf(),
        ensures
            final(self).wf(),
            final(self)@ == spec_reset(old(self)@),
    {
        self.sustain_state.reset();
        self.hold_stack.clear();
    }

    pub fn mode(&self) -> (r: SynthMode)
        ensures
            r == self@.mode,
    {
        self.mode
    }

    pub fn sustain_active(&self) -> (r: bool)
        ensures
            r == self@.sustain_on,
    {
        self.sustain_state.is_active()
    }

    pub fn sustain_pending_bitmap(&self) -> (r: u128)
        ensures
            r == self@.pending,
    {
        self.sustain_state.pending_release_bitmap()
    }

    /// Top of the mono key history.
    pub fn held_top(&self) -> (r: Option<u8>)
        requires
            self.wf(),
        ensures
            r == top_of(self@.held),
    {
        self.hold_stack.top()
    }
}


/// Every event keeps the router invariant: no repeated key and at most
/// `MAX_HELD` keys in the history, an empty history in poly mode, and no pending
/// release in mono mode.
pub proof fn lemma_router_inv_preserved(s: RouterState, midi: u8, down: bool, mode: SynthMode)
    requires
        router_inv(s),
    ensures
        router_inv(spec_note_on(s, midi).0),
        router_inv(spec_note_off(s, midi).0),
        router_inv(spec_sustain_pedal(s, down).0),
        router_inv(spec_all_notes_off(s).0),
        router_inv(spec_set_mode(s, mode).0),
        router_inv(spec_reset(s)),
{
    lemma_push_unique_distinct(s.held, midi, MAX_HELD as nat);
    lemma_remove_first_no_duplicates(s.held, midi);
    if s.mode == SynthMode::Mono && midi < 128 {
        let n = midi;
        assert(0u128 & !(1u128 << n) == 0u128) by (bit_vector);
    }
}

/// Sustain in poly mode: while the pedal is down a note-off releases nothing,
/// and the following pedal-up releases that note and leaves nothing pending.
pub proof fn lemma_sustain_defers_until_pedal_up(s: RouterState, n: u8)
    requires
        s.mode == SynthMode::Poly,
        s.sustain_on,
        n < 128,
    ensures
        spec_note_off(s, n).1 == no_actions(),
        bitmap_has(spec_sustain_pedal(spec_note_off(s, n).0, false).1.release_pending, n as int),
        spec_sustain_pedal(spec_note_off(s, n).0, false).0.pending == 0,
        !spec_sustain_pedal(spec_note_off(s, n).0, false).0.sustain_on,
{
    crate::sustain_state::lemma_bitmap_set(s.pending, n as u128);
}

/// A key struck again while the pedal holds its release keeps sounding: the
/// pedal-up that follows does not release it.
pub proof fn lemma_restrike_survives_pedal_up(s: RouterState, n: u8)
    requires
        s.mode == SynthMode::Poly,
        s.sustain_on,
        n < 128,
    ensures
        spec_note_on(spec_note_off(s, n).0, n).1.trigger == Some(n),
        !bitmap_has(
            spec_sustain_pedal(spec_note_on(spec_note_off(s, n).0, n).0, false).1.release_pending,
            n as int,
        ),
{
    let p1 = s.pending | (1u128 << n);
    lemma_bitmap_clear(p1, n as u128);
}

/// Without the pedal a note-off in poly mode releases the note at once.
pub proof fn lemma_note_off_without_pedal(s: RouterState, n: u8)
    requires
        s.mode == SynthMode::Poly,
        !s.sustain_on,
    ensures
        spec_note_off(s, n).1 == (VoiceActions { release_note: Some(n), ..no_actions() }),
        spec_note_off(s, n).0 == s,
{
}

/// Last-note priority in mono mode: with key `a` held, striking `b` releases `a`
/// and plays `b`; letting `b` go releases it and plays `a` again.
pub proof fn lemma_mono_last_note_priority(s: RouterState, a: u8, b: u8)
    requires
        router_inv(s),
        s.mode == SynthMode::Mono,
        a != b,
    ensures
        spec_note_on(spec_note_on(s, a).0, b).1.release_note == Some(a),
        spec_note_on(spec_note_on(s, a).0, b).1.trigger == Some(b),
        spec_note_off(spec_note_on(spec_note_on(s, a).0, b).0, b).1.release_note == Some(b),
        spec_note_off(spec_note_on(spec_note_on(s, a).0, b).0, b).1.revive == Some(a),
{
    let h0 = s.held;
    lemma_push_unique_distinct(h0, a, MAX_HELD as nat);
    let h1 = pushed(remove_first(h0, a), a, MAX_HELD as nat);
    lemma_push_unique_distinct(h1, b, MAX_HELD as nat);
    lemma_remove_first_no_duplicates(h0, a);
    lemma_remove_first_no_duplicates(h1, b);
    crate::hold_stack::lemma_push_top(remove_first(h0, a), a, MAX_HELD as nat);
    assert(h1.last() == a);
    assert(!h1.contains(b) ==> remove_first(h1, b) == h1) by {
        if !h1.contains(b) {
            crate::hold_stack::lemma_remove_first_absent(h1, b);
        }
    }
    let m1 = remove_first(h1, b);
    crate::hold_stack::lemma_push_top(m1, b, MAX_HELD as nat);
    let h2 = pushed(m1, b, MAX_HELD as nat);
    assert(h2.last() == b);
    assert(h2.no_duplicates());
    // Removing b (the last entry, unique) leaves the rest of h2, whose last entry is a.
    let i = h2.len() - 1;
    assert(crate::hold_stack::is_first_pos(h2, b, i)) by {
        assert forall|j: int| 0 <= j < i implies h2[j] != b by {
            assert(h2[j] != h2[i]);
        }
    }
    crate::hold_stack::lemma_remove_first_at(h2, b, i);
    assert(h2.remove(i) =~= h2.drop_last());
    // a is still in m1 and was on top of h1; it is the last entry before b.
    assert(h1.len() >= 1);
    if m1.len() < MAX_HELD {
        assert(h2.drop_last() == m1);
        if h1.contains(b) {
            // b sat below the top of h1, so removing it keeps a on top.
            let k = choose|k: int| 0 <= k < h1.len() && h1[k] == b;
            assert(k != h1.len() - 1);
            assert(crate::hold_stack::is_first_pos(h1, b, k)) by {
                assert forall|j: int| 0 <= j < k implies h1[j] != b by {
                    assert(h1[j] != h1[k]);
                }
            }
            crate::hold_stack::lemma_remove_first_at(h1, b, k);
            assert(m1.last() == h1.last());
        }
        assert(m1.last() == a);
    } else {
        assert(m1.len() == MAX_HELD);
        assert(!h1.contains(b)) by {
            if h1.contains(b) {
                assert(m1.len() == h1.len() - 1);
            }
        }
        assert(h2.drop_last() == m1.drop_first());
        assert(m1 == h1);
        assert(m1.drop_first().last() == a);
    }
}

/// Releasing a key that is not the top of the mono history only releases it:
/// no other note is started again.
pub proof fn lemma_mono_inner_release_no_retrigger(s: RouterState, n: u8)
    requires
        router_inv(s),
        s.mode == SynthMode::Mono,
        s.held.len() > 0,
        s.held.last() != n,
    ensures
        spec_note_off(s, n).1.revive == None::<u8>,
        spec_note_off(s, n).1.release_note == Some(n),
{
    let h = s.held;
    if h.contains(n) {
        let k = choose|k: int| 0 <= k < h.len() && h[k] == n;
        assert(crate::hold_stack::is_first_pos(h, n, k)) by {
            assert forall|j: int| 0 <= j < k implies h[j] != n by {
                assert(h[j] != h[k]);
            }
        }
        crate::hold_stack::lemma_remove_first_at(h, n, k);
        assert(k != h.len() - 1);
        assert(h.remove(k).last() == h.last());
    } else {
        crate::hold_stack::lemma_remove_first_absent(h, n);
    }
}

/// All Notes Off leaves nothing for a later pedal-up to release.
pub proof fn lemma_all_notes_off_clears_pending(s: RouterState)
    ensures
        spec_sustain_pedal(spec_all_notes_off(s).0, false).1.release_pending == 0,
        spec_all_notes_off(s).0.held.len() == 0,
{
}

/// A mode switch releases every pending note and leaves none pending.
pub proof fn lemma_set_mode_flushes_pending(s: RouterState, mode: SynthMode)
    ensures
        spec_set_mode(s, mode).1.release_pending == s.pending,
        spec_set_mode(s, mode).0.pending == 0,
        spec_set_mode(s, mode).0.held.len() == 0,
        spec_set_mode(s, mode).0.mode == mode,
{
}

/// A pedal-down event never touches the pending releases and asks nothing of
/// the voices; the next pedal-up releases exactly what was pending before it,
/// however many pedal-down events (a continuous controller re-sending values
/// >= 64) came in between.
pub proof fn lemma_pedal_down_keeps_pending(s: RouterState)
    ensures
        spec_sustain_pedal(s, true).0.pending == s.pending,
        spec_sustain_pedal(s, true).0.sustain_on,
        spec_sustain_pedal(s, true).1 == no_actions(),
        spec_sustain_pedal(spec_sustain_pedal(s, true).0, true).0.pending == s.pending,
        spec_sustain_pedal(spec_sustain_pedal(s, true).0, false).1.release_pending == s.pending,
        spec_sustain_pedal(spec_sustain_pedal(spec_sustain_pedal(s, true).0, true).0, false).1.release_pending
            == s.pending,
        spec_sustain_pedal(spec_sustain_pedal(s, true).0, false).0.pending == 0,
{
}

/// A pedal-up with the pedal down releases exactly the pending notes and leaves
/// none pending.
pub proof fn lemma_pedal_up_releases_all_pending(s: RouterState)
    requires
        s.sustain_on,
    ensures
        spec_sustain_pedal(s, false).1.release_pending == s.pending,
        spec_sustain_pedal(s, false).0.pending == 0,
        !spec_sustain_pedal(s, false).0.sustain_on,
{
}

/// A deferred note-off adds its note to the pending releases and keeps every
/// note that was already pending: the new bitmap is `pending | (1 << midi)`.
pub proof fn lemma_deferred_note_off_keeps_pending(s: RouterState, midi: u8)
    requires
        s.mode == SynthMode::Poly,
        s.sustain_on,
        midi < 128,
    ensures
        spec_note_off(s, midi).1 == no_actions(),
        bitmap_has(spec_note_off(s, midi).0.pending, midi as int),
        forall|m: int|
            #![trigger bitmap_has(spec_note_off(s, midi).0.pending, m)]
            bitmap_has(spec_note_off(s, midi).0.pending, m) == (m == midi || bitmap_has(
                s.pending,
                m,
            )),
        spec_note_off(s, midi).0.sustain_on,
{
    crate::sustain_state::lemma_bitmap_set(s.pending, midi as u128);
}

/// Two note-offs under the pedal are both released by the pedal-up: deferring
/// a second note never loses the first.
pub proof fn lemma_two_deferred_notes_both_released(s: RouterState, a: u8, b: u8)
    requires
        s.mode == SynthMode::Poly,
        s.sustain_on,
        a < 128,
        b < 128,
    ensures
        bitmap_has(
            spec_sustain_pedal(spec_note_off(spec_note_off(s, a).0, b).0, false).1.release_pending,
            a as int,
        ),
        bitmap_has(
            spec_sustain_pedal(spec_note_off(spec_note_off(s, a).0, b).0, false).1.release_pending,
            b as int,
        ),
{
    lemma_deferred_note_off_keeps_pending(s, a);
    lemma_deferred_note_off_keeps_pending(spec_note_off(s, a).0, b);
}

/// A note-off never loses a pending release, and either releases its own note
/// at once or defers it (poly mode, pedal down, note below 128) into the pending
/// releases; it never releases another note.
pub proof fn lemma_note_off_releases_or_defers(s: RouterState, midi: u8)
    ensures
        forall|m: int|
            #![trigger bitmap_has(spec_note_off(s, midi).0.pending, m)]
            bitmap_has(s.pending, m) ==> bitmap_has(spec_note_off(s, midi).0.pending, m),
        spec_note_off(s, midi).1.release_note == Some(midi) || (s.mode == SynthMode::Poly
            && s.sustain_on && midi < 128 && bitmap_has(spec_note_off(s, midi).0.pending, midi as int)),
        spec_note_off(s, midi).1.release_note == Some(midi) || spec_note_off(s, midi).1.release_note
            == None::<u8>,
{
    if midi < 128 {
        crate::sustain_state::lemma_bitmap_set(s.pending, midi as u128);
    }
}

/// In mono mode every note-off releases its own note, whether or not any key is
/// held (a voice started in poly mode before a switch is released at key-up).
pub proof fn lemma_mono_note_off_releases_own_note(s: RouterState, midi: u8)
    requires
        s.mode == SynthMode::Mono,
    ensures
        spec_note_off(s, midi).1.release_note == Some(midi),
        s.held.len() == 0 ==> spec_note_off(s, midi).1.release_note == Some(midi),
{
}

/// A mode switch with nothing pending leaves the pedal as it is, in both
/// directions; with releases pending, it releases them all.
pub proof fn lemma_set_mode_keeps_pedal_without_pending(s: RouterState, m: SynthMode)
    ensures
        s.pending == 0 ==> spec_set_mode(s, m).0.sustain_on == s.sustain_on,
        s.pending == 0 ==> spec_set_mode(s, SynthMode::Poly).0.sustain_on == s.sustain_on,
        s.pending == 0 ==> spec_set_mode(s, SynthMode::Mono).0.sustain_on == s.sustain_on,
        spec_set_mode(s, m).1.release_pending == s.pending,
        spec_set_mode(s, m).0.pending == 0,
{
}

/// Control-change decoding is exact: only controllers 1, 7, 64 and 123 are
/// handled, each as its own control, and every other controller is ignored.
pub proof fn lemma_control_change_exact(cc: u8)
    ensures
        (spec_control_change(cc) == Some(ControlChange::ModWheel)) <==> cc == 1,
        (spec_control_change(cc) == Some(ControlChange::ChannelVolume)) <==> cc == 7,
        (spec_control_change(cc) == Some(ControlChange::SustainPedal)) <==> cc == 64,
        (spec_control_change(cc) == Some(ControlChange::AllNotesOff)) <==> cc == 123,
        (spec_control_change(cc) is Some) <==> (cc == 1 || cc == 7 || cc == 64 || cc == 123),
{
}

/// A note-on always plays its note, drops only its own pending release (the
/// other pending notes stay pending), and releases at most the previous top key
/// of mono mode, never the note itself.
pub proof fn lemma_note_on_keeps_other_pending(s: RouterState, midi: u8)
    ensures
        spec_note_on(s, midi).1.trigger == Some(midi),
        spec_note_on(s, midi).1.revive == None::<u8>,
        !spec_note_on(s, midi).1.release_all,
        spec_note_on(s, midi).1.release_pending == 0,
        !bitmap_has(spec_note_on(s, midi).0.pending, midi as int),
        forall|m: int|
            #![trigger bitmap_has(spec_note_on(s, midi).0.pending, m)]
            m != midi ==> bitmap_has(spec_note_on(s, midi).0.pending, m) == bitmap_has(
                s.pending,
                m,
            ),
        spec_note_on(s, midi).1.release_note != Some(midi),
        spec_note_on(s, midi).1.release_note matches Some(p) ==> s.mode == SynthMode::Mono
            && top_of(s.held) == Some(p),
        spec_note_on(s, midi).0.sustain_on == s.sustain_on,
{
    if midi < 128 {
        lemma_bitmap_clear(s.pending, midi as u128);
    }
}

/// A pedal-up without the pedal down releases nothing and keeps the pending
/// releases.
pub proof fn lemma_pedal_up_when_up_is_inert(s: RouterState)
    requires
        !s.sustain_on,
    ensures
        spec_sustain_pedal(s, false).1 == no_actions(),
        spec_sustain_pedal(s, false).0.pending == s.pending,
        !spec_sustain_pedal(s, false).0.sustain_on,
{
}

} // verus!
