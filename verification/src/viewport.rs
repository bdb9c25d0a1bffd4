//! The viewport: the rectangular region of the complex plane being rendered
//! and its mapping to pixel coordinates. The imaginary span is quantized to
//! a whole number of rows of the same pixel size as the columns, so pixels
//! are square; row 0 is the top of the image (the maximum imaginary part).
//! All real-valued inputs are binary64 bit patterns and every derived value
//! is pinned by the named IEEE-754 operations of `crate::binary64`.

use vstd::prelude::*;
use crate::binary64::{
    add64, add_of, div64, div_of, is_finite_bits, lt64, lt_of, mul64, mul_of, of_u64, of_u64_of,
    round64, round_half_away_of, sub64, sub_of, to_u32, to_u32_of,
};
use crate::escape::EscapeMode;

verus! {

/// Why a render request was refused or a render failed.
#[derive(Clone, Copy, PartialEq, Eq, Structural, Debug)]
pub enum RenderError {
    /// The requested viewport is unusable: fewer than two pixel columns, a
    /// non-finite or non-positive span, or a pixel grid too large to hold.
    InvalidViewport,
    /// A pixel evaluation went missing or arrived twice: the whole render
    /// is abandoned rather than an incomplete image passed off as done.
    WorkerFailure,
    /// The encoder could not write the finished image out.
    EncodingFailure,
}

/// A render request: the center of the view, the spans, the grid width and
/// the estimator parameters. The real-valued fields are binary64 bit
/// patterns; callers with a zoom factor derive the imaginary span as
/// `2^(2 - zoom)` before building the request.
#[derive(Clone, Copy)]
pub struct RenderConfig {
    /// Bit pattern of the real coordinate at the center of the view.
    pub real_center: u64,
    /// Bit pattern of the imaginary coordinate at the center of the view.
    pub imag_center: u64,
    /// Bit pattern of the requested imaginary-axis span.
    pub imag_span: u64,
    /// Bit pattern of the width : height aspect ratio.
    pub aspect_ratio: u64,
    /// Number of pixel columns; at least 2, since the column map divides
    /// by `pixel_width - 1`.
    pub pixel_width: u32,
    /// Iteration cap of the escape-time estimator.
    pub max_iters: u16,
    /// Bit pattern of the squared-magnitude escape threshold.
    pub threshold: u64,
    /// Whether pixels are colored from the discrete count or the smoothed
    /// escape value.
    pub mode: EscapeMode,
}

/// The real-axis span: the imaginary span times the aspect ratio.
pub open spec fn real_span_of(cfg: RenderConfig) -> u64 {
    mul_of(cfg.imag_span, cfg.aspect_ratio)
}

/// The size of one (square) pixel: the real span divided over the
/// `pixel_width - 1` steps between column centers.
pub open spec fn pixel_size_of(cfg: RenderConfig) -> u64 {
    div_of(real_span_of(cfg), sub_of(of_u64_of(cfg.pixel_width as u64), of_u64_of(1)))
}

/// How many row steps the imaginary span covers, rounded to the nearest
/// whole row (ties away from zero).
pub open spec fn row_steps_of(cfg: RenderConfig) -> u32 {
    to_u32_of(round_half_away_of(div_of(cfg.imag_span, pixel_size_of(cfg))))
}

/// The real coordinate of the left edge: the center minus half the span.
pub open spec fn left_of(cfg: RenderConfig) -> u64 {
    sub_of(cfg.real_center, div_of(real_span_of(cfg), of_u64_of(2)))
}

/// The imaginary coordinate of the bottom edge: the center minus half the
/// requested span.
pub open spec fn bottom_of(cfg: RenderConfig) -> u64 {
    sub_of(cfg.imag_center, div_of(cfg.imag_span, of_u64_of(2)))
}

/// The imaginary span the grid realizes: `(pixel_height - 1)` whole pixel
/// sizes, so pixels are exactly square. It may slightly differ from the
/// requested span, which rarely is a whole number of rows.
pub open spec fn realized_imag_span_of(cfg: RenderConfig) -> u64 {
    mul_of(of_u64_of(row_steps_of(cfg) as u64), pixel_size_of(cfg))
}

/// A config is acceptable when the grid has at least two columns, every
/// real-valued input is finite, both spans are strictly positive, and the
/// row count does not overflow.
pub open spec fn config_acceptable(cfg: RenderConfig) -> bool {
    &&& cfg.pixel_width >= 2
    &&& is_finite_bits(cfg.real_center)
    &&& is_finite_bits(cfg.imag_center)
    &&& is_finite_bits(cfg.imag_span)
    &&& is_finite_bits(cfg.aspect_ratio)
    &&& lt_of(0u64, cfg.imag_span)
    &&& lt_of(0u64, cfg.aspect_ratio)
    &&& row_steps_of(cfg) < u32::MAX
}

/// The realized viewport geometry: grid dimensions, spans and the lower
/// left corner of the region, all derived once per render.
#[derive(Clone, Copy, Debug)]
pub struct Viewport {
    /// Number of pixel columns (at least 2).
    pub pixel_width: u32,
    /// Number of pixel rows (at least 1): one more than the number of
    /// whole row steps the imaginary span covers.
    pub pixel_height: u32,
    /// Bit pattern of the real-axis span.
    pub real_span: u64,
    /// Bit pattern of the realized imaginary span: `(pixel_height - 1)`
    /// whole pixel sizes, so pixels are exactly square. It may slightly
    /// differ from the requested span.
    pub imag_span: u64,
    /// Bit pattern of the real coordinate of the left edge.
    pub left: u64,
    /// Bit pattern of the imaginary coordinate of the bottom edge.
    pub bottom: u64,
}

impl Viewport {
    /// Derives the pixel grid and region corner from a render request,
    /// rejecting exactly the unacceptable configs.
    pub fn from_config(cfg: &RenderConfig) -> (r: Result<Viewport, RenderError>)
        ensures
            r is Ok <==> config_acceptable(*cfg),
            r is Ok ==> {
                let v = r->Ok_0;
                &&& v.pixel_width == cfg.pixel_width
                &&& v.pixel_height == row_steps_of(*cfg) + 1
                &&& v.pixel_height >= 1
                &&& v.real_span == real_span_of(*cfg)
                &&& v.imag_span == realized_imag_span_of(*cfg)
                &&& v.left == left_of(*cfg)
                &&& v.bottom == bottom_of(*cfg)
            },
            r is Err ==> r->Err_0 == RenderError::InvalidViewport,
    {
        if cfg.pixel_width < 2 {
            return Err(RenderError::InvalidViewport);
        }
        let finite = crate::binary64::finite64(cfg.real_center)
            && crate::binary64::finite64(cfg.imag_center)
            && crate::binary64::finite64(cfg.imag_span)
            && crate::binary64::finite64(cfg.aspect_ratio);
        if !finite {
            return Err(RenderError::InvalidViewport);
        }
        if !(lt64(0, cfg.imag_span) && lt64(0, cfg.aspect_ratio)) {
            return Err(RenderError::InvalidViewport);
        }
        let real_span = mul64(cfg.imag_span, cfg.aspect_ratio);
        let columns = sub64(of_u64(cfg.pixel_width as u64), of_u64(1));
        let pixel_size = div64(real_span, columns);
        let row_steps = to_u32(round64(div64(cfg.imag_span, pixel_size)));
        if row_steps == u32::MAX {
            return Err(RenderError::InvalidViewport);
        }
        let realized = mul64(of_u64(row_steps as u64), pixel_size);
        let two = of_u64(2);
        let left = sub64(cfg.real_center, div64(real_span, two));
        let bottom = sub64(cfg.imag_center, div64(cfg.imag_span, two));
        Ok(
            Viewport {
                pixel_width: cfg.pixel_width,
                pixel_height: row_steps + 1,
                real_span,
                imag_span: realized,
                left,
                bottom,
            },
        )
    }
}

/// The real part a pixel column maps to:
/// `x / (pixel_width - 1) * real_span + left`.
pub open spec fn map_re_of(v: Viewport, x: u32) -> u64 {
    add_of(
        mul_of(
            div_of(of_u64_of(x as u64), sub_of(of_u64_of(v.pixel_width as u64), of_u64_of(1))),
            v.real_span,
        ),
        v.left,
    )
}

/// The imaginary part a pixel row maps to:
/// `(1 - y / (pixel_height - 1)) * realized_imag_span + bottom`; row 0 is
/// the top, and each row step downward is exactly one pixel size.
pub open spec fn map_im_of(v: Viewport, y: u32) -> u64 {
    add_of(
        mul_of(
            sub_of(
                of_u64_of(1),
                div_of(
                    of_u64_of(y as u64),
                    sub_of(of_u64_of(v.pixel_height as u64), of_u64_of(1)),
                ),
            ),
            v.imag_span,
        ),
        v.bottom,
    )
}

/// Maps a pixel coordinate to the complex point at its center, as a pair
/// of bit patterns. Deterministic: the point is a function of the viewport
/// and the coordinate alone.
pub fn pixel_to_complex(v: &Viewport, x: u32, y: u32) -> (p: (u64, u64))
    requires
        x < v.pixel_width,
        y < v.pixel_height,
    ensures
        p.0 == map_re_of(*v, x),
        p.1 == map_im_of(*v, y),
{
    let one = of_u64(1);
    let re = add64(
        mul64(div64(of_u64(x as u64), sub64(of_u64(v.pixel_width as u64), one)), v.real_span),
        v.left,
    );
    let im = add64(
        mul64(
            sub64(one, div64(of_u64(y as u64), sub64(of_u64(v.pixel_height as u64), one))),
            v.imag_span,
        ),
        v.bottom,
    );
    (re, im)
}

} // verus!
