//! Parameter and instrument identifiers with their wire codes.
//! The parameter ranges and the body-mode tables are floating-point data and are
//! not part of this crate.

use vstd::prelude::*;

verus! {

/// Synth parameter, addressed by its code in `set_param`.
#[non_exhaustive]
#[derive(Debug, Copy, Clone, Eq, PartialEq, Structural)]
pub enum ParamId {
    Damping,
    Brightness,
    OutputGain,
    PickPosition,
    BodyWet,
}

/// Wire code of a parameter; also its index in the descriptor table.
pub open spec fn param_code(p: ParamId) -> u32 {
    match p {
        ParamId::Damping => 0,
        ParamId::Brightness => 1,
        ParamId::OutputGain => 2,
        ParamId::PickPosition => 3,
        ParamId::BodyWet => 4,
    }
}

/// The parameter with code `value`, if any.
pub open spec fn param_from_code(value: u32) -> Option<ParamId> {
    match value {
        0 => Some(ParamId::Damping),
        1 => Some(ParamId::Brightness),
        2 => Some(ParamId::OutputGain),
        3 => Some(ParamId::PickPosition),
        4 => Some(ParamId::BodyWet),
        _ => None,
    }
}

impl ParamId {
    pub fn from_u32(value: u32) -> (r: Option<Self>)
        ensures
            r == param_from_code(value),
    {
        match value {
            0 => Some(Self::Damping),
            1 => Some(Self::Brightness),
            2 => Some(Self::OutputGain),
            3 => Some(Self::PickPosition),
            4 => Some(Self::BodyWet),
            _ => None,
        }
    }
}

/// Number of instrument presets.
pub const INSTRUMENT_KIND_COUNT: usize = 8;

/// Instrument preset.
#[non_exhaustive]
#[derive(Debug, Copy, Clone, Eq, PartialEq, Structural)]
pub enum InstrumentKind {
    Default,
    GuitarClassical,
    Ukulele,
    Mandolin,
    Bass,
    GuitarSteel,
    Sitar,
    Piano,
}

/// Wire code of an instrument preset.
pub open spec fn instrument_code(k: InstrumentKind) -> u32 {
    match k {
        InstrumentKind::Default => 0,
        InstrumentKind::GuitarClassical => 1,
        InstrumentKind::Ukulele => 2,
        InstrumentKind::Mandolin => 3,
        InstrumentKind::Bass => 4,
        InstrumentKind::GuitarSteel => 5,
        InstrumentKind::Sitar => 6,
        InstrumentKind::Piano => 7,
    }
}

/// The instrument preset with code `value`, if any.
pub open spec fn instrument_from_code(value: u32) -> Option<InstrumentKind> {
    match value {
        0 => Some(InstrumentKind::Default),
        1 => Some(InstrumentKind::GuitarClassical),
        2 => Some(InstrumentKind::Ukulele),
        3 => Some(InstrumentKind::Mandolin),
        4 => Some(InstrumentKind::Bass),
        5 => Some(InstrumentKind::GuitarSteel),
        6 => Some(InstrumentKind::Sitar),
        7 => Some(InstrumentKind::Piano),
        _ => None,
    }
}

impl InstrumentKind {
    pub fn from_u32(value: u32) -> (r: Option<Self>)
        ensures
            r == instrument_from_code(value),
    {
        match value {
            0 => Some(Self::Default),
            1 => Some(Self::GuitarClassical),
            2 => Some(Self::Ukulele),
            3 => Some(Self::Mandolin),
            4 => Some(Self::Bass),
            5 => Some(Self::GuitarSteel),
            6 => Some(Self::Sitar),
            7 => Some(Self::Piano),
            _ => None,
        }
    }
}

/// Decoding is the inverse of the wire code for parameters.
pub proof fn lemma_param_code_roundtrip(p: ParamId, value: u32)
    ensures
        param_from_code(param_code(p)) == Some(p),
        param_from_code(value) matches Some(x) ==> param_code(x) == value,
{
}

/// Decoding is the inverse of the wire code for instrument presets, and exactly
/// the codes below `INSTRUMENT_KIND_COUNT` name a preset.
pub proof fn lemma_instrument_code_roundtrip(k: InstrumentKind, value: u32)
    ensures
        instrument_from_code(instrument_code(k)) == Some(k),
        instrument_from_code(value) matches Some(x) ==> instrument_code(x) == value,
        instrument_from_code(value) is Some <==> value < INSTRUMENT_KIND_COUNT,
        instrument_code(k) < INSTRUMENT_KIND_COUNT,
{
}

} // verus!
