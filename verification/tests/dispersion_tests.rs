use dsp_core::dispersion::{b_curve_index, B_CURVE_LEN, DISPERSION_STAGES};

#[test]
fn b_curve_index_clamps_to_keyboard() {
    assert_eq!(b_curve_index(0), 0);
    assert_eq!(b_curve_index(20), 0);
    assert_eq!(b_curve_index(21), 0);
    assert_eq!(b_curve_index(60), 39);
    assert_eq!(b_curve_index(108), 87);
    assert_eq!(b_curve_index(109), 87);
    assert_eq!(b_curve_index(127), 87);
    assert_eq!(b_curve_index(255), 87);
    for midi in 0u8..=255 {
        assert!(b_curve_index(midi) < B_CURVE_LEN);
    }
    assert_eq!(B_CURVE_LEN, 88);
    assert_eq!(DISPERSION_STAGES, 8);
}
