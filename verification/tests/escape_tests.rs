//! The escape-time estimator, exercised against the hardware double
//! arithmetic the bit patterns stand for.

use mandelbrot::escape::escape_iterations;

const FOUR: u64 = 0x4010_0000_0000_0000;

/// The plain double-precision escape loop, as a reference to compare the
/// library's bit-pattern arithmetic against.
fn reference_count(cr: f64, ci: f64, threshold: f64, max_iters: u16) -> (u16, f64, f64) {
    let mut x = 0.0f64;
    let mut y = 0.0f64;
    let mut i: u16 = 0;
    while x * x + y * y <= threshold && i < max_iters {
        let xt = x * x - y * y + cr;
        y = 2.0 * x * y + ci;
        x = xt;
        i += 1;
    }
    (i, x, y)
}

#[test]
fn origin_never_escapes() {
    for max_iters in [1u16, 2, 10, 255, 1000] {
        let out = escape_iterations(0, 0, FOUR, max_iters);
        assert_eq!(out.iterations, max_iters);
        assert!(!out.escaped);
        assert_eq!(out.zr, 0);
        assert_eq!(out.zi, 0);
    }
}

#[test]
fn estimator_is_deterministic() {
    let cr = (-0.7436f64).to_bits();
    let ci = 0.1318f64.to_bits();
    let a = escape_iterations(cr, ci, FOUR, 500);
    let b = escape_iterations(cr, ci, FOUR, 500);
    assert_eq!(a, b);
}

#[test]
fn far_real_axis_points_escape_within_two_iterations() {
    // |c| > 2 on the real axis escapes at once; c = 2 needs a second step.
    for c in [2.5f64, -2.5, 3.0, -100.0] {
        let out = escape_iterations(c.to_bits(), 0.0f64.to_bits(), FOUR, 50);
        assert_eq!(out.iterations, 1, "c = {c}");
        assert!(out.escaped);
    }
    let out = escape_iterations(2.0f64.to_bits(), 0.0f64.to_bits(), FOUR, 50);
    assert_eq!(out.iterations, 2);
    assert!(out.escaped);
}

#[test]
fn boundary_point_minus_two_never_escapes() {
    // c = -2 lies in the set: its orbit is 0, -2, 2, 2, ... with |z|^2 = 4,
    // never exceeding the threshold.
    let out = escape_iterations((-2.0f64).to_bits(), 0, FOUR, 30);
    assert_eq!(out.iterations, 30);
    assert!(!out.escaped);
}

#[test]
fn count_never_exceeds_cap() {
    for (cr, ci) in [(0.0f64, 0.0f64), (-1.0, 0.0), (0.3, 0.5), (-0.5, 0.6)] {
        for max_iters in [0u16, 1, 7, 100] {
            let out = escape_iterations(cr.to_bits(), ci.to_bits(), FOUR, max_iters);
            assert!(out.iterations <= max_iters);
        }
    }
}

#[test]
fn matches_double_precision_reference() {
    let points = [
        (-0.5f64, 0.5f64),
        (0.3, 0.1),
        (-1.2, 0.3),
        (0.25, 0.0),
        (-0.75, 0.1),
        (0.001, -0.9),
    ];
    for (cr, ci) in points {
        for threshold in [4.0f64, 1000.0] {
            let (want_i, want_x, want_y) = reference_count(cr, ci, threshold, 200);
            let out = escape_iterations(cr.to_bits(), ci.to_bits(), threshold.to_bits(), 200);
            assert_eq!(out.iterations, want_i, "c = {cr} + {ci}i, threshold {threshold}");
            assert_eq!(out.zr, want_x.to_bits());
            assert_eq!(out.zi, want_y.to_bits());
            assert_eq!(out.escaped, want_i < 200);
        }
    }
}

#[test]
fn zero_cap_yields_zero_iterations() {
    let out = escape_iterations(0.3f64.to_bits(), 0.4f64.to_bits(), FOUR, 0);
    assert_eq!(out.iterations, 0);
    assert!(!out.escaped);
}
