//! Note-handling core of a physically modelled (Karplus–Strong) synthesizer:
//! the held-key stack, sustain-pedal bookkeeping, voice allocation and
//! stealing, the excitation noise generator and the MIDI control decoding.

pub mod hold_stack;
pub mod sustain_state;
pub mod rng;
pub mod lfo;
pub mod params;
pub mod note_allocator;
pub mod voice_pool;
pub mod karplus_strong;
pub mod dispersion;
pub mod engine;
