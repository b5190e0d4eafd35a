//! Selectors of the global LFO: its waveform and its destinations.
//! The oscillator itself computes in floating point and is not part of this crate.

use vstd::prelude::*;

verus! {

/// LFO waveform.
#[derive(Debug, Clone, Copy, PartialEq, Eq, Structural)]
pub enum LfoWaveform {
    Sine,
    Triangle,
}

/// Wire code of a waveform (0 = Sine, 1 = Triangle).
pub open spec fn waveform_code(w: LfoWaveform) -> u32 {
    match w {
        LfoWaveform::Sine => 0,
        LfoWaveform::Triangle => 1,
    }
}

/// The waveform with code `value`, if any.
pub open spec fn waveform_from_code(value: u32) -> Option<LfoWaveform> {
    match value {
        0 => Some(LfoWaveform::Sine),
        1 => Some(LfoWaveform::Triangle),
        _ => None,
    }
}

impl LfoWaveform {
    pub fn from_u32(value: u32) -> (r: Option<Self>)
        ensures
            r == waveform_from_code(value),
    {
        match value {
            0 => Some(Self::Sine),
            1 => Some(Self::Triangle),
            _ => None,
        }
    }
}

/// LFO destination.
#[derive(Debug, Clone, Copy, PartialEq, Eq, Structural)]
pub enum LfoDestination {
    Pitch,
    Brightness,
    Volume,
}

/// Wire code of a destination (0 = Pitch, 1 = Brightness, 2 = Volume).
pub open spec fn destination_code(d: LfoDestination) -> u32 {
    match d {
        LfoDestination::Pitch => 0,
        LfoDestination::Brightness => 1,
        LfoDestination::Volume => 2,
    }
}

/// The destination with code `value`, if any.
pub open spec fn destination_from_code(value: u32) -> Option<LfoDestination> {
    match value {
        0 => Some(LfoDestination::Pitch),
        1 => Some(LfoDestination::Brightness),
        2 => Some(LfoDestination::Volume),
        _ => None,
    }
}

impl LfoDestination {
    pub fn from_u32(value: u32) -> (r: Option<Self>)
        ensures
            r == destination_from_code(value),
    {
        match value {
            0 => Some(Self::Pitch),
            1 => Some(Self::Brightness),
            2 => Some(Self::Volume),
            _ => None,
        }
    }
}

/// Decoding is the inverse of the wire code: every waveform decodes from its own
/// code, and a code that decodes names the waveform that has it.
pub proof fn lemma_waveform_code_roundtrip(w: LfoWaveform, value: u32)
    ensures
        waveform_from_code(waveform_code(w)) == Some(w),
        waveform_from_code(value) matches Some(x) ==> waveform_code(x) == value,
{
}

/// Decoding is the inverse of the wire code for destinations.
pub proof fn lemma_destination_code_roundtrip(d: LfoDestination, value: u32)
    ensures
        destination_from_code(destination_code(d)) == Some(d),
        destination_from_code(value) matches Some(x) ==> destination_code(x) == value,
{
}

} // verus!
