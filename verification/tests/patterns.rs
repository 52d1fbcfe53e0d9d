use gcode::patterns::tick_is_skipped;

#[test]
fn multiples_of_a_modulus_are_skipped() {
    assert!(tick_is_skipped(0, &[5]));
    assert!(tick_is_skipped(10, &[5]));
    assert!(!tick_is_skipped(11, &[5]));
    assert!(tick_is_skipped(9, &[5, 3]));
    assert!(!tick_is_skipped(7, &[5, 3]));
}

#[test]
fn no_modulus_skips_nothing() {
    assert!(!tick_is_skipped(0, &[]));
    assert!(!tick_is_skipped(60, &[]));
}
