use rf_spectrum::bandwidth::half_power_bounds;

#[test]
fn symmetric_peak_has_centered_run() {
    // Power falls symmetrically around the peak: the run reaches
    // equally far on both sides of bin 2.
    let powers: Vec<i64> = vec![0, 2, 8, 2, 0];
    let (l, r) = half_power_bounds(&powers, 2, 5);
    assert_eq!((l, r), (1, 3));
    assert_eq!(r - 2, 2 - l);
}

#[test]
fn wider_symmetric_peak() {
    let powers: Vec<i64> = vec![-20, -10, 6, 9, 10, 9, 6, -10, -20];
    let (l, r) = half_power_bounds(&powers, 4, 7);
    assert_eq!((l, r), (2, 6));
    assert_eq!(r - 4, 4 - l);
}

#[test]
fn scan_saturates_at_both_edges() {
    // No crossing before either edge: the run reaches the buffer ends
    // and the width is the distance to them, not an error.
    let powers: Vec<i64> = vec![10, 10, 10, 10];
    let (l, r) = half_power_bounds(&powers, 2, 5);
    assert_eq!((l, r), (0, 3));
}

#[test]
fn peak_at_or_below_threshold_does_not_move() {
    let powers: Vec<i64> = vec![10, 3, 10];
    let (l, r) = half_power_bounds(&powers, 1, 3);
    assert_eq!((l, r), (1, 1));
}

#[test]
fn asymmetric_peak_has_uneven_run() {
    let powers: Vec<i64> = vec![0, 7, 9, 8, 7, 6, 0];
    let (l, r) = half_power_bounds(&powers, 2, 6);
    assert_eq!((l, r), (0, 5));
    let (l2, r2) = half_power_bounds(&powers, 2, 7);
    assert_eq!((l2, r2), (1, 4));
}
