//! The color mapper: quantizes a scaled escape value to an 8-bit grayscale
//! level and applies ordered random dithering to the near-black range, where
//! integer quantization shows visible banding. The quantization arithmetic
//! goes through the named IEEE-754 operations of `crate::binary64`; the
//! randomness enters only as two Bernoulli decisions, so the mapping from
//! level and decisions to color is fully pinned.

use vstd::prelude::*;
use crate::binary64::{
    div64, div_of, lt64, lt_of, mul64, mul_of, of_u64, of_u64_of, sub64, sub_of, to_u8, to_u8_of,
};

verus! {

/// An 8-bit RGB triple. Grayscale output sets all three channels equal.
#[derive(Clone, Copy, PartialEq, Eq, Structural, Debug)]
pub struct PixelColor {
    pub r: u8,
    pub g: u8,
    pub b: u8,
}

/// The grayscale color of a given intensity.
pub open spec fn gray_spec(s: u8) -> PixelColor {
    PixelColor { r: s, g: s, b: s }
}

/// Quantized intensity above which no dithering is applied: banding is
/// imperceptible in the brighter range.
pub open spec fn dither_ceiling() -> u8 {
    40
}

/// The dithered intensity: each of the two Bernoulli decisions lowers the
/// level by one, and a level that would fall below zero is clamped to zero.
pub open spec fn dithered_level_spec(s: u8, sub_frac: bool, sub_half: bool) -> u8 {
    let drop = (if sub_frac { 1int } else { 0int }) + (if sub_half { 1int } else { 0int });
    if s >= drop {
        (s - drop) as u8
    } else {
        0u8
    }
}

/// The color assigned to a quantized intensity, given the two dithering
/// decisions: level 255 (a point that never escaped) is pure black; levels
/// above the dithering ceiling pass through unchanged; the near-black rest
/// is dithered.
pub open spec fn color_spec(s: u8, sub_frac: bool, sub_half: bool) -> PixelColor {
    if s == 255 {
        gray_spec(0)
    } else if s > dither_ceiling() {
        gray_spec(s)
    } else {
        gray_spec(dithered_level_spec(s, sub_frac, sub_half))
    }
}

/// Maps a quantized intensity and the two dithering decisions to the output
/// color.
pub fn map_color(s: u8, sub_frac: bool, sub_half: bool) -> (c: PixelColor)
    ensures
        c == color_spec(s, sub_frac, sub_half),
{
    if s == 255 {
        PixelColor { r: 0, g: 0, b: 0 }
    } else if s > 40 {
        PixelColor { r: s, g: s, b: s }
    } else {
        let drop: u8 = (if sub_frac { 1u8 } else { 0u8 }) + (if sub_half { 1u8 } else { 0u8 });
        let level: u8 = if s >= drop {
            s - drop
        } else {
            0
        };
        PixelColor { r: level, g: level, b: level }
    }
}

/// A point inside the set (level 255) is pure black, whatever the random
/// decisions were.
pub proof fn lemma_inside_always_black(sub_frac: bool, sub_half: bool)
    ensures
        color_spec(255, sub_frac, sub_half) == gray_spec(0),
{
}

/// Levels above the dithering ceiling and below 255 pass through exactly,
/// untouched by randomness.
pub proof fn lemma_bright_levels_exact(s: u8, sub_frac: bool, sub_half: bool)
    requires
        dither_ceiling() < s < 255,
    ensures
        color_spec(s, sub_frac, sub_half) == gray_spec(s),
{
}

/// A dithered level stays within two steps below the quantized level, never
/// exceeds it, and never wraps around: the output is grayscale with all
/// channels equal to a value in `{s-2, s-1, s}` clamped at zero.
pub proof fn lemma_dither_bounds(s: u8, sub_frac: bool, sub_half: bool)
    requires
        s <= dither_ceiling(),
    ensures
        color_spec(s, sub_frac, sub_half).r <= s,
        s <= color_spec(s, sub_frac, sub_half).r + 2,
        color_spec(s, sub_frac, sub_half).g == color_spec(s, sub_frac, sub_half).r,
        color_spec(s, sub_frac, sub_half).b == color_spec(s, sub_frac, sub_half).r,
{
}

/// Every output of the color mapper is grayscale: the three channels are
/// equal, whatever the level and the random decisions.
pub proof fn lemma_always_grayscale(s: u8, sub_frac: bool, sub_half: bool)
    ensures
        color_spec(s, sub_frac, sub_half).g == color_spec(s, sub_frac, sub_half).r,
        color_spec(s, sub_frac, sub_half).b == color_spec(s, sub_frac, sub_half).r,
{
}

/// The escape value scaled into [0, 255]: `value / max * 255` in binary64.
pub open spec fn scaled255_of(value: u64, max_iters: u16) -> u64 {
    mul_of(div_of(value, of_u64_of(max_iters as u64)), of_u64_of(255))
}

/// The quantized intensity of an escape value: the scaled value truncated
/// to an 8-bit level.
pub open spec fn level_of(value: u64, max_iters: u16) -> u8 {
    to_u8_of(scaled255_of(value, max_iters))
}

/// The fractional remainder the quantization dropped, as a bit pattern;
/// it drives the first dithering decision.
pub open spec fn frac_of(value: u64, max_iters: u16) -> u64 {
    sub_of(scaled255_of(value, max_iters), of_u64_of(level_of(value, max_iters) as u64))
}

/// Quantizes an escape value (a binary64 bit pattern in `[0, max_iters]`)
/// to an 8-bit intensity and the dropped fractional remainder. A value that
/// equals the cap itself — a point that never escaped — quantizes to level
/// 255, because a finite nonzero cap divided by itself is exactly one.
pub fn quantize(value: u64, max_iters: u16) -> (q: (u8, u64))
    ensures
        q.0 == level_of(value, max_iters),
        q.1 == frac_of(value, max_iters),
        value == of_u64_of(max_iters as u64) && max_iters >= 1 ==> q.0 == 255,
{
    let m = of_u64(max_iters as u64);
    let c255 = of_u64(255);
    let scaled = div64(value, m);
    let s255 = mul64(scaled, c255);
    let s = to_u8(s255);
    let frac = sub64(s255, of_u64(s as u64));
    (s, frac)
}

/// Quantizes a discrete escape count against the cap: the count converted
/// to binary64 and scaled. A count equal to the cap quantizes to level 255.
pub fn quantize_discrete(count: u16, max_iters: u16) -> (q: (u8, u64))
    ensures
        q.0 == level_of(of_u64_of(count as u64), max_iters),
        q.1 == frac_of(of_u64_of(count as u64), max_iters),
        count == max_iters && max_iters >= 1 ==> q.0 == 255,
{
    let v = of_u64(count as u64);
    quantize(v, max_iters)
}

/// Relies on `rand::random::<u64>()`: 64 independent uniform random bits
/// from the thread-local generator. Nothing is promised of the value.
#[verifier::external_body]
fn random_entropy() -> u64 {
    rand::random::<u64>()
}

/// A uniform sample in [0, 1): the top 53 bits of the entropy divided by
/// 2^53, in binary64 (the division by a power of two is exact).
pub open spec fn unit_of(entropy: u64) -> u64 {
    div_of(of_u64_of(entropy >> 11), of_u64_of(0x20_0000_0000_0000))
}

/// One half in binary64: one divided by two, which is exact.
pub open spec fn half_of() -> u64 {
    div_of(of_u64_of(1), of_u64_of(2))
}

/// Builds the uniform [0, 1) sample a given 64-bit entropy word yields.
pub fn unit_sample(entropy: u64) -> (r: u64)
    ensures
        r == unit_of(entropy),
{
    div64(of_u64(entropy >> 11), of_u64(0x20_0000_0000_0000))
}

/// Colors a pixel from its quantized intensity, fractional remainder and
/// two entropy words: the first dithering decision fires when the first
/// unit sample lies below the fractional remainder, the second when the
/// second sample lies below one half. Deterministic in its arguments.
pub fn color_pixel_with(s: u8, frac: u64, entropy_frac: u64, entropy_half: u64) -> (c: PixelColor)
    ensures
        c == color_spec(
            s,
            lt_of(unit_of(entropy_frac), frac),
            lt_of(unit_of(entropy_half), half_of()),
        ),
{
    let sample_frac = unit_sample(entropy_frac);
    let sample_half = unit_sample(entropy_half);
    let one = of_u64(1);
    let two = of_u64(2);
    let half = div64(one, two);
    let sub_frac = lt64(sample_frac, frac);
    let sub_half = lt64(sample_half, half);
    map_color(s, sub_frac, sub_half)
}

/// Colors a pixel from its quantized intensity and fractional remainder,
/// drawing fresh randomness for the dithering decisions. Whatever the
/// randomness produced, the result is the color of `s` under some pair of
/// dithering decisions; outside the dithered range no randomness is drawn
/// and the color is pinned exactly.
pub fn color_pixel(s: u8, frac: u64) -> (c: PixelColor)
    ensures
        exists|sub_frac: bool, sub_half: bool| c == color_spec(s, sub_frac, sub_half),
        s == 255 ==> c == gray_spec(0),
        dither_ceiling() < s < 255 ==> c == gray_spec(s),
{
    if s <= 40 {
        let e1 = random_entropy();
        let e2 = random_entropy();
        let c = color_pixel_with(s, frac, e1, e2);
        proof {
            let b1 = lt_of(unit_of(e1), frac);
            let b2 = lt_of(unit_of(e2), half_of());
            assert(c == color_spec(s, b1, b2));
        }
        c
    } else {
        let c = map_color(s, false, false);
        proof {
            assert(c == color_spec(s, false, false));
        }
        c
    }
}

} // verus!
