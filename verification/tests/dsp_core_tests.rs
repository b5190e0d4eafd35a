use dsp_core::lfo::{LfoDestination, LfoWaveform};
use dsp_core::params::{InstrumentKind, ParamId};

#[test]
fn test_paramid_roundtrip() {
    assert_eq!(ParamId::from_u32(0), Some(ParamId::Damping));
    assert_eq!(ParamId::from_u32(1), Some(ParamId::Brightness));
    assert_eq!(ParamId::from_u32(2), Some(ParamId::OutputGain));
    assert_eq!(ParamId::from_u32(99), None);
    assert_eq!(ParamId::Damping as u32, 0);
    assert_eq!(ParamId::Brightness as u32, 1);
    assert_eq!(ParamId::OutputGain as u32, 2);
}

#[test]
fn paramid_all_codes_roundtrip() {
    for code in 0u32..5 {
        let p = ParamId::from_u32(code).expect("codes 0..5 name a parameter");
        assert_eq!(p as u32, code);
    }
    assert_eq!(ParamId::from_u32(3), Some(ParamId::PickPosition));
    assert_eq!(ParamId::from_u32(4), Some(ParamId::BodyWet));
    assert_eq!(ParamId::from_u32(5), None);
    assert_eq!(ParamId::from_u32(u32::MAX), None);
}

#[test]
fn instrument_kind_codes_roundtrip() {
    for code in 0u32..8 {
        let k = InstrumentKind::from_u32(code).expect("codes 0..8 name an instrument");
        assert_eq!(k as u32, code);
    }
    assert_eq!(InstrumentKind::from_u32(7), Some(InstrumentKind::Piano));
    assert_eq!(InstrumentKind::from_u32(8), None);
}

#[test]
fn lfo_selector_codes() {
    assert_eq!(LfoWaveform::from_u32(0), Some(LfoWaveform::Sine));
    assert_eq!(LfoWaveform::from_u32(1), Some(LfoWaveform::Triangle));
    assert_eq!(LfoWaveform::from_u32(2), None);
    assert_eq!(LfoDestination::from_u32(0), Some(LfoDestination::Pitch));
    assert_eq!(LfoDestination::from_u32(1), Some(LfoDestination::Brightness));
    assert_eq!(LfoDestination::from_u32(2), Some(LfoDestination::Volume));
    assert_eq!(LfoDestination::from_u32(3), None);
}
