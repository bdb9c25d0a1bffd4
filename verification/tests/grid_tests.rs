//! Grid evaluation: the end-to-end discrete render, the job enumeration,
//! and order-independent assembly.

use mandelbrot::color::PixelColor;
use mandelbrot::escape::EscapeMode;
use mandelbrot::grid::{assemble, pixel_jobs, render_discrete};
use mandelbrot::viewport::{RenderConfig, RenderError, Viewport};

fn gray(s: u8) -> PixelColor {
    PixelColor { r: s, g: s, b: s }
}

/// A 3x3 grid over real and imaginary spans [-0.1, 0.1]: every point lies
/// deep inside the set's main body.
fn tiny_config() -> RenderConfig {
    RenderConfig {
        real_center: 0.0f64.to_bits(),
        imag_center: 0.0f64.to_bits(),
        imag_span: 0.2f64.to_bits(),
        aspect_ratio: 1.0f64.to_bits(),
        pixel_width: 3,
        max_iters: 10,
        threshold: 4.0f64.to_bits(),
        mode: EscapeMode::Discrete,
    }
}

#[test]
fn near_origin_grid_renders_uniform_black() {
    let cfg = tiny_config();
    let v = Viewport::from_config(&cfg).unwrap();
    assert_eq!(v.pixel_width, 3);
    assert_eq!(v.pixel_height, 3);
    let img = render_discrete(&v, cfg.threshold, cfg.max_iters).unwrap();
    assert_eq!(img.width(), 3);
    assert_eq!(img.height(), 3);
    for x in 0..3 {
        for y in 0..3 {
            assert_eq!(img.get(x, y), gray(0), "pixel ({x}, {y})");
        }
    }
}

#[test]
fn pixel_jobs_enumerates_each_coordinate_once() {
    let jobs = pixel_jobs(3, 2);
    assert_eq!(jobs, vec![(0, 0), (0, 1), (1, 0), (1, 1), (2, 0), (2, 1)]);
    let jobs = pixel_jobs(1, 1);
    assert_eq!(jobs, vec![(0, 0)]);
}

#[test]
fn assembly_is_independent_of_arrival_order() {
    let cfg = tiny_config();
    let v = Viewport::from_config(&cfg).unwrap();
    let sequential = render_discrete(&v, cfg.threshold, cfg.max_iters).unwrap();

    // Re-evaluate every pixel job independently, then hand the results in
    // as if they had completed in some other order.
    let mut results = Vec::new();
    for (x, y) in pixel_jobs(v.pixel_width, v.pixel_height) {
        let (cr, ci) = mandelbrot::viewport::pixel_to_complex(&v, x, y);
        let out = mandelbrot::escape::escape_iterations(cr, ci, cfg.threshold, cfg.max_iters);
        let (s, frac) = mandelbrot::color::quantize_discrete(out.iterations, cfg.max_iters);
        let color = mandelbrot::color::color_pixel(s, frac);
        results.push(((x, y), color));
    }
    results.reverse();
    results.swap(0, 4);

    let img = assemble(v.pixel_width, v.pixel_height, &results).unwrap();
    for x in 0..v.pixel_width {
        for y in 0..v.pixel_height {
            assert_eq!(img.get(x, y), sequential.get(x, y), "pixel ({x}, {y})");
        }
    }
}

#[test]
fn assembly_accepts_exactly_a_complete_result_set() {
    let a = gray(1);
    let b = gray(2);
    let c = gray(3);
    let d = gray(4);
    let full = vec![((1u32, 0u32), b), ((0, 1), c), ((0, 0), a), ((1, 1), d)];
    let img = assemble(2, 2, &full).unwrap();
    assert_eq!(img.get(0, 0), a);
    assert_eq!(img.get(1, 0), b);
    assert_eq!(img.get(0, 1), c);
    assert_eq!(img.get(1, 1), d);
}

#[test]
fn assembly_refuses_a_duplicated_result() {
    let twice = vec![
        ((0u32, 0u32), gray(1)),
        ((1, 0), gray(2)),
        ((0, 0), gray(3)),
        ((1, 1), gray(4)),
    ];
    assert_eq!(assemble(2, 2, &twice).unwrap_err(), RenderError::WorkerFailure);
}

#[test]
fn assembly_refuses_a_missing_result() {
    let short = vec![((0u32, 0u32), gray(1)), ((1, 0), gray(2)), ((0, 1), gray(3))];
    assert_eq!(assemble(2, 2, &short).unwrap_err(), RenderError::WorkerFailure);
}

#[test]
fn assembly_refuses_an_out_of_range_result() {
    let stray = vec![
        ((0u32, 0u32), gray(1)),
        ((1, 0), gray(2)),
        ((0, 1), gray(3)),
        ((2, 1), gray(4)),
    ];
    assert_eq!(assemble(2, 2, &stray).unwrap_err(), RenderError::WorkerFailure);
}

#[test]
fn boundary_grid_matches_a_double_precision_reference() {
    // A grid straddling the set's boundary: some pixels inside (black),
    // some bright, some in the dithered near-black range.
    let cfg = RenderConfig {
        real_center: (-0.5f64).to_bits(),
        imag_center: 0.0f64.to_bits(),
        imag_span: 2.0f64.to_bits(),
        aspect_ratio: 1.6f64.to_bits(),
        pixel_width: 8,
        max_iters: 64,
        threshold: 4.0f64.to_bits(),
        mode: EscapeMode::Discrete,
    };
    let v = Viewport::from_config(&cfg).unwrap();
    let img = render_discrete(&v, cfg.threshold, cfg.max_iters).unwrap();

    let height = 2.0f64;
    let width = height * 1.6;
    let left = -0.5 - width / 2.0;
    let bottom = 0.0 - height / 2.0;
    let w = v.pixel_width;
    let h = v.pixel_height;
    let pixel_size = width / (w as f64 - 1.0);
    let realized = (height / pixel_size).round() * pixel_size;
    let mut seen_inside = false;
    let mut seen_escaped = false;
    for x in 0..w {
        for y in 0..h {
            let cr = x as f64 / (w as f64 - 1.0) * width + left;
            let ci = (1.0 - y as f64 / (h as f64 - 1.0)) * realized + bottom;
            let mut zx = 0.0f64;
            let mut zy = 0.0f64;
            let mut i: u16 = 0;
            while zx * zx + zy * zy <= 4.0 && i < 64 {
                let t = zx * zx - zy * zy + cr;
                zy = 2.0 * zx * zy + ci;
                zx = t;
                i += 1;
            }
            let s = (i as f64 / 64.0 * 255.0) as u8;
            let c = img.get(x, y);
            if s == 255 {
                seen_inside = true;
                assert_eq!(c, gray(0), "pixel ({x}, {y})");
            } else if s > 40 {
                seen_escaped = true;
                assert_eq!(c, gray(s), "pixel ({x}, {y})");
            } else {
                seen_escaped = true;
                assert!(c.r <= s && s <= c.r.saturating_add(2), "pixel ({x}, {y})");
                assert_eq!(c.g, c.r);
                assert_eq!(c.b, c.r);
            }
        }
    }
    assert!(seen_inside && seen_escaped);
}

#[test]
fn wide_threshold_render_is_still_black_near_the_origin() {
    // The continuous-coloring variants widen the escape threshold; discrete
    // rendering near the origin stays uniform black there too.
    let mut cfg = tiny_config();
    cfg.threshold = 1000.0f64.to_bits();
    let v = Viewport::from_config(&cfg).unwrap();
    let img = render_discrete(&v, cfg.threshold, cfg.max_iters).unwrap();
    for x in 0..3 {
        for y in 0..3 {
            assert_eq!(img.get(x, y), gray(0));
        }
    }
}
