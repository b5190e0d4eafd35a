# dsp_core

Verified note-handling core of a Karplus–Strong synthesizer.

- `src/` (Verus): the mono-mode key history (`hold_stack`), sustain-pedal
  bookkeeping (`sustain_state`), note routing of the engine (`engine::NoteRouter`:
  poly/mono, last-note priority, pedal, All Notes Off, mode switch), voice
  allocation and stealing (`voice_pool`, `note_allocator`), the xorshift noise
  generator (`rng`), string-count and unison layout and delay-line indexing
  (`karplus_strong`), the inharmonicity table index (`dispersion`) and the
  decoding of parameter, instrument, LFO and control-change codes.
- `app/`: the floating-point audio path (string models, filters, body
  resonator, LFO, smoothing, soft clipper, the engine that applies the routing
  decisions) and the C ABI for the AudioWorklet host.
- `tests/`: tests of the library.
