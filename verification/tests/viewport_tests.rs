//! Viewport validation and the pixel-to-plane mapping, against the
//! double-precision formulas they stand for.

use mandelbrot::escape::EscapeMode;
use mandelbrot::viewport::{pixel_to_complex, RenderConfig, RenderError, Viewport};

fn standard_config() -> RenderConfig {
    // The standard view: center -0.5 + 0i, zoom 1 (an imaginary span of
    // 2^(2-1) = 2), 1440 columns at a 1.6 aspect ratio.
    RenderConfig {
        real_center: (-0.5f64).to_bits(),
        imag_center: 0.0f64.to_bits(),
        imag_span: 2.0f64.to_bits(),
        aspect_ratio: 1.6f64.to_bits(),
        pixel_width: 1440,
        max_iters: 255,
        threshold: 4.0f64.to_bits(),
        mode: EscapeMode::Discrete,
    }
}

#[test]
fn standard_view_geometry_matches_double_precision_reference() {
    let cfg = standard_config();
    let v = Viewport::from_config(&cfg).unwrap();

    let height = 2.0f64;
    let width = height * 1.6;
    let pixel_size = width / (1440.0 - 1.0);
    let row_steps = (height / pixel_size).round();
    let realized = row_steps * pixel_size;
    let want_left = -0.5 - width / 2.0;
    let want_bottom = 0.0 - height / 2.0;

    assert_eq!(v.pixel_width, 1440);
    assert_eq!(v.pixel_height, 1 + row_steps as u32);
    assert_eq!(v.real_span, width.to_bits());
    assert_eq!(v.imag_span, realized.to_bits());
    assert_eq!(v.left, want_left.to_bits());
    assert_eq!(v.bottom, want_bottom.to_bits());
}

#[test]
fn single_column_viewport_is_rejected() {
    let mut cfg = standard_config();
    cfg.pixel_width = 1;
    assert_eq!(Viewport::from_config(&cfg).unwrap_err(), RenderError::InvalidViewport);
    cfg.pixel_width = 0;
    assert_eq!(Viewport::from_config(&cfg).unwrap_err(), RenderError::InvalidViewport);
}

#[test]
fn non_finite_inputs_are_rejected() {
    let mut cfg = standard_config();
    cfg.real_center = f64::NAN.to_bits();
    assert_eq!(Viewport::from_config(&cfg).unwrap_err(), RenderError::InvalidViewport);

    let mut cfg = standard_config();
    cfg.imag_span = f64::INFINITY.to_bits();
    assert_eq!(Viewport::from_config(&cfg).unwrap_err(), RenderError::InvalidViewport);
}

#[test]
fn degenerate_spans_are_rejected() {
    let mut cfg = standard_config();
    cfg.imag_span = 0.0f64.to_bits();
    assert_eq!(Viewport::from_config(&cfg).unwrap_err(), RenderError::InvalidViewport);

    let mut cfg = standard_config();
    cfg.imag_span = (-2.0f64).to_bits();
    assert_eq!(Viewport::from_config(&cfg).unwrap_err(), RenderError::InvalidViewport);

    let mut cfg = standard_config();
    cfg.aspect_ratio = 0.0f64.to_bits();
    assert_eq!(Viewport::from_config(&cfg).unwrap_err(), RenderError::InvalidViewport);
}

#[test]
fn pixel_map_matches_double_precision_reference() {
    let cfg = standard_config();
    let v = Viewport::from_config(&cfg).unwrap();
    let w = v.pixel_width;
    let h = v.pixel_height;

    let height = 2.0f64;
    let width = height * 1.6;
    let pixel_size = width / (w as f64 - 1.0);
    let realized = (height / pixel_size).round() * pixel_size;
    let left = -0.5 - width / 2.0;
    let bottom = 0.0 - height / 2.0;

    for (x, y) in [(0u32, 0u32), (w - 1, 0), (0, h - 1), (w - 1, h - 1), (w / 2, h / 3)] {
        let want_re = x as f64 / (w as f64 - 1.0) * width + left;
        let want_im = (1.0 - y as f64 / (h as f64 - 1.0)) * realized + bottom;
        let (re, im) = pixel_to_complex(&v, x, y);
        assert_eq!(re, want_re.to_bits(), "column {x}");
        assert_eq!(im, want_im.to_bits(), "row {y}");
    }
}

#[test]
fn mapped_corners_stay_inside_the_viewport() {
    let cfg = standard_config();
    let v = Viewport::from_config(&cfg).unwrap();
    let w = v.pixel_width;
    let h = v.pixel_height;
    let left = f64::from_bits(v.left);
    let bottom = f64::from_bits(v.bottom);
    let right = left + f64::from_bits(v.real_span);
    // Row 0 maps to bottom plus the realized span: (pixel_height - 1)
    // exactly square pixels, which may slightly differ from the request.
    let realized_top = bottom + f64::from_bits(v.imag_span);
    for (x, y) in [(0u32, 0u32), (w - 1, 0), (0, h - 1), (w - 1, h - 1)] {
        let (re, im) = pixel_to_complex(&v, x, y);
        let re = f64::from_bits(re);
        let im = f64::from_bits(im);
        assert!(re >= left && re <= right, "re {re} out of [{left}, {right}]");
        assert!(im >= bottom && im <= realized_top, "im {im} out of [{bottom}, {realized_top}]");
    }
}

#[test]
fn row_zero_is_the_top_of_the_image() {
    let cfg = standard_config();
    let v = Viewport::from_config(&cfg).unwrap();
    let (_, im_top) = pixel_to_complex(&v, 0, 0);
    let (_, im_bottom) = pixel_to_complex(&v, 0, v.pixel_height - 1);
    assert!(f64::from_bits(im_top) > f64::from_bits(im_bottom));
}
