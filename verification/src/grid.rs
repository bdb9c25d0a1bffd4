//! Grid evaluation: enumerating the pixel jobs, assembling completed
//! (coordinate, color) results — in whatever order they arrive — into a
//! complete raster, and a single-threaded renderer for the discrete mode.
//! The assembly refuses duplicated, out-of-range or missing results rather
//! than pass off a partially-filled image as done.

use vstd::prelude::*;
use vstd::arithmetic::div_mod::lemma_fundamental_div_mod_converse;
use crate::color::{color_pixel, color_spec, gray_spec, level_of, quantize_discrete, PixelColor};
use crate::escape::{escape_count, escape_iterations};
use crate::raster::Raster;
use crate::viewport::{map_im_of, map_re_of, pixel_to_complex, RenderError, Viewport};

verus! {

/// One completed pixel evaluation: the coordinate it belongs to and the
/// color computed for it.
pub type PixelResult = ((u32, u32), PixelColor);

/// The row-major cell index of a coordinate in a grid `w` columns wide.
pub open spec fn cell_of(w: u32, c: (u32, u32)) -> int {
    c.1 * w as int + c.0
}

/// Every result lies inside the `w x h` grid.
pub open spec fn all_in_range(rs: Seq<PixelResult>, w: u32, h: u32) -> bool {
    forall|k: int| 0 <= k < rs.len() ==> (#[trigger] rs[k]).0.0 < w && rs[k].0.1 < h
}

/// No two results claim the same coordinate.
pub open spec fn distinct_coords(rs: Seq<PixelResult>) -> bool {
    forall|k1: int, k2: int|
        0 <= k1 < k2 < rs.len() ==> (#[trigger] rs[k1]).0 != (#[trigger] rs[k2]).0
}

/// Some result claims the coordinate `(x, y)`.
pub open spec fn has_result(rs: Seq<PixelResult>, x: u32, y: u32) -> bool {
    exists|k: int| 0 <= k < rs.len() && (#[trigger] rs[k]).0 == (x, y)
}

/// Every coordinate of the `w x h` grid has a result.
pub open spec fn covers(rs: Seq<PixelResult>, w: u32, h: u32) -> bool {
    forall|x: u32, y: u32| x < w && y < h ==> #[trigger] has_result(rs, x, y)
}

/// A result stream that fills the grid exactly: in range, duplicate-free
/// and complete.
pub open spec fn complete_results(rs: Seq<PixelResult>, w: u32, h: u32) -> bool {
    all_in_range(rs, w, h) && distinct_coords(rs) && covers(rs, w, h)
}

/// Distinct in-range coordinates occupy distinct cells.
proof fn lemma_cell_injective(w: u32, h: u32, a: (u32, u32), b: (u32, u32))
    requires
        a.0 < w && a.1 < h,
        b.0 < w && b.1 < h,
        cell_of(w, a) == cell_of(w, b),
    ensures
        a == b,
{
    assert(a.1 * w as int + a.0 == b.1 * w as int + b.0 ==> a.0 == b.0 && a.1 == b.1)
        by (nonlinear_arith)
        requires
            a.0 < w && a.1 < h,
            b.0 < w && b.1 < h,
    ;
}

/// An in-range coordinate's cell lies inside the grid's cell range.
proof fn lemma_cell_in_grid(w: u32, h: u32, c: (u32, u32))
    requires
        c.0 < w && c.1 < h,
    ensures
        0 <= cell_of(w, c) < w as int * h as int,
{
    assert(0 <= c.1 * w as int + c.0 < w as int * h as int) by (nonlinear_arith)
        requires
            c.0 < w && c.1 < h,
    ;
}

/// Lists every pixel coordinate of a `w x h` grid exactly once, columns
/// outermost: job `x * h + y` is the coordinate `(x, y)`.
pub fn pixel_jobs(w: u32, h: u32) -> (jobs: Vec<(u32, u32)>)
    requires
        h >= 1,
        w as int * h as int <= usize::MAX as int,
    ensures
        jobs@.len() == w as int * h as int,
        forall|k: int|
            0 <= k < jobs@.len() ==> #[trigger] jobs@[k] == (
                (k / h as int) as u32,
                (k % h as int) as u32,
            ),
        forall|x: u32, y: u32|
            x < w && y < h ==> #[trigger] jobs@[x as int * h as int + y as int] == (x, y),
{
    let mut jobs: Vec<(u32, u32)> = Vec::new();
    let mut x: u32 = 0;
    while x < w
        invariant
            x <= w,
            h >= 1,
            w as int * h as int <= usize::MAX as int,
            jobs@.len() == x as int * h as int,
            forall|k: int|
                0 <= k < jobs@.len() ==> #[trigger] jobs@[k] == (
                    (k / h as int) as u32,
                    (k % h as int) as u32,
                ),
        decreases w - x,
    {
        let mut y: u32 = 0;
        while y < h
            invariant
                x < w,
                y <= h,
                h >= 1,
                w as int * h as int <= usize::MAX as int,
                jobs@.len() == x as int * h as int + y as int,
                forall|k: int|
                    0 <= k < jobs@.len() ==> #[trigger] jobs@[k] == (
                        (k / h as int) as u32,
                        (k % h as int) as u32,
                    ),
            decreases h - y,
        {
            proof {
                let xi = x as int;
                let yi = y as int;
                let wi = w as int;
                let hi = h as int;
                assert((xi + 1) * hi <= wi * hi && xi * hi + yi < (xi + 1) * hi)
                    by (nonlinear_arith)
                    requires
                        0 <= xi < wi,
                        0 <= yi < hi,
                ;
                lemma_fundamental_div_mod_converse(xi * hi + yi, hi, xi, yi);
            }
            jobs.push((x, y));
            y = y + 1;
        }
        proof {
            let xi = x as int;
            let hi = h as int;
            assert(xi * hi + hi == (xi + 1) * hi) by (nonlinear_arith);
        }
        x = x + 1;
    }
    proof {
        assert forall|x0: u32, y0: u32| x0 < w && y0 < h implies #[trigger] jobs@[x0 as int
            * h as int + y0 as int] == (x0, y0) by {
            let xi = x0 as int;
            let yi = y0 as int;
            let wi = w as int;
            let hi = h as int;
            assert((xi + 1) * hi <= wi * hi && 0 <= xi * hi + yi && xi * hi + yi < (xi + 1) * hi)
                by (nonlinear_arith)
                requires
                    0 <= xi < wi,
                    0 <= yi < hi,
            ;
            lemma_fundamental_div_mod_converse(xi * hi + yi, hi, xi, yi);
        }
    }
    jobs
}

/// Collects completed pixel results, arrived in any order, into a raster.
/// Succeeds exactly on a complete result stream — every coordinate once,
/// none out of range — and then every cell holds the color computed for
/// its coordinate; otherwise the whole render is refused.
pub fn assemble(w: u32, h: u32, results: &Vec<PixelResult>) -> (r: Result<Raster, RenderError>)
    requires
        w as int * h as int <= usize::MAX as int,
    ensures
        r is Ok <==> complete_results(results@, w, h),
        r is Ok ==> {
            let img = r->Ok_0;
            &&& img.wf()
            &&& img.spec_width() == w
            &&& img.spec_height() == h
            &&& forall|k: int|
                0 <= k < results@.len() ==> (#[trigger] results@[k]).1 == img.at(
                    results@[k].0.0 as int,
                    results@[k].0.1 as int,
                )
        },
        r is Err ==> r->Err_0 == RenderError::WorkerFailure,
{
    let total: usize = (w as u64 * h as u64) as usize;
    let mut img = Raster::new(w, h);
    let mut written: Vec<bool> = Vec::new();
    let mut i: usize = 0;
    while i < total
        invariant
            i <= total,
            written@.len() == i,
            forall|j: int| 0 <= j < i ==> !(#[trigger] written@[j]),
        decreases total - i,
    {
        written.push(false);
        i = i + 1;
    }

    let mut k: usize = 0;
    while k < results.len()
        invariant
            w as int * h as int <= usize::MAX as int,
            total == w as int * h as int,
            k <= results@.len(),
            written@.len() == total,
            img.wf(),
            img.spec_width() == w,
            img.spec_height() == h,
            forall|j: int|
                0 <= j < k ==> (#[trigger] results@[j]).0.0 < w && results@[j].0.1 < h,
            forall|j1: int, j2: int|
                0 <= j1 < j2 < k ==> (#[trigger] results@[j1]).0 != (#[trigger] results@[j2]).0,
            forall|j: int|
                0 <= j < k ==> (#[trigger] results@[j]).1 == img.at(
                    results@[j].0.0 as int,
                    results@[j].0.1 as int,
                ),
            forall|c: int|
                0 <= c < total ==> (#[trigger] written@[c] <==> exists|j: int|
                    0 <= j < k && cell_of(w, (#[trigger] results@[j]).0) == c),
        decreases results@.len() - k,
    {
        let ((x, y), color) = results[k];
        if !(x < w && y < h) {
            return Err(RenderError::WorkerFailure);
        }
        proof {
            lemma_cell_in_grid(w, h, (x, y));
        }
        let cell: usize = (y as u64 * w as u64 + x as u64) as usize;
        if written[cell] {
            proof {
                let j = choose|j: int|
                    0 <= j < k && cell_of(w, (#[trigger] results@[j]).0) == cell as int;
                lemma_cell_injective(w, h, results@[j].0, (x, y));
            }
            return Err(RenderError::WorkerFailure);
        }
        written[cell] = true;
        img.put(x, y, color);
        proof {
            assert forall|j1: int, j2: int| 0 <= j1 < j2 < k + 1 implies (
            #[trigger] results@[j1]).0 != (#[trigger] results@[j2]).0 by {
                if j2 == k && results@[j1].0 == results@[j2].0 {
                    assert(cell_of(w, results@[j1].0) == cell as int);
                }
            }
            assert forall|j: int| 0 <= j < k + 1 implies (#[trigger] results@[j]).1 == img.at(
                results@[j].0.0 as int,
                results@[j].0.1 as int,
            ) by {
                if j < k && results@[j].0 != (x, y) {
                    lemma_cell_in_grid(w, h, results@[j].0);
                }
            }
        }
        k = k + 1;
    }

    let mut c: usize = 0;
    while c < total
        invariant
            total == w as int * h as int,
            written@.len() == total,
            forall|j: int| 0 <= j < c ==> #[trigger] written@[j],
            forall|j: int|
                0 <= j < total ==> (#[trigger] written@[j] <==> exists|m: int|
                    0 <= m < results@.len() && cell_of(w, (#[trigger] results@[m]).0) == j),
        decreases total - c,
    {
        if !written[c] {
            proof {
                assert(!covers(results@, w, h)) by {
                    let ci = c as int;
                    let wi = w as int;
                    let hi = h as int;
                    assert(wi >= 1 && hi >= 1) by (nonlinear_arith)
                        requires
                            0 <= ci && ci < wi * hi,
                            0 <= wi,
                            0 <= hi,
                    ;
                    vstd::arithmetic::div_mod::lemma_fundamental_div_mod(ci, wi);
                    let qx = ci % wi;
                    let qy = ci / wi;
                    assert(qy < hi && 0 <= qy && 0 <= qx && qx < wi) by (nonlinear_arith)
                        requires
                            ci == wi * (ci / wi) + ci % wi,
                            ci < wi * hi,
                            wi >= 1,
                            0 <= ci % wi && ci % wi < wi,
                            0 <= ci / wi,
                            qx == ci % wi,
                            qy == ci / wi,
                    ;
                    let cx = qx as u32;
                    let cy = qy as u32;
                    assert(cx as int == qx && cy as int == qy);
                    assert(qy * wi == wi * qy) by (nonlinear_arith);
                    assert(cell_of(w, (cx, cy)) == ci);
                    if covers(results@, w, h) {
                        assert(has_result(results@, cx, cy));
                        let m = choose|m: int|
                            0 <= m < results@.len() && (#[trigger] results@[m]).0 == (cx, cy);
                        assert(cell_of(w, results@[m].0) == ci);
                        assert(written@[ci]);
                    }
                }
            }
            return Err(RenderError::WorkerFailure);
        }
        c = c + 1;
    }

    proof {
        assert forall|x: u32, y: u32| x < w && y < h implies #[trigger] has_result(
            results@,
            x,
            y,
        ) by {
            lemma_cell_in_grid(w, h, (x, y));
            let cc = cell_of(w, (x, y));
            assert(written@[cc]);
            let m = choose|m: int|
                0 <= m < results@.len() && cell_of(w, (#[trigger] results@[m]).0) == cc;
            lemma_cell_injective(w, h, results@[m].0, (x, y));
        }
    }
    Ok(img)
}

/// Assembly does not depend on arrival order: two complete result streams
/// that hold the same results — one, say, a permutation of the other —
/// fill every cell of their rasters identically.
pub proof fn lemma_assembly_order_irrelevant(
    rs1: Seq<PixelResult>,
    rs2: Seq<PixelResult>,
    img1: Raster,
    img2: Raster,
    w: u32,
    h: u32,
)
    requires
        forall|e: PixelResult| rs1.contains(e) <==> rs2.contains(e),
        complete_results(rs1, w, h),
        complete_results(rs2, w, h),
        forall|k: int|
            0 <= k < rs1.len() ==> (#[trigger] rs1[k]).1 == img1.at(
                rs1[k].0.0 as int,
                rs1[k].0.1 as int,
            ),
        forall|k: int|
            0 <= k < rs2.len() ==> (#[trigger] rs2[k]).1 == img2.at(
                rs2[k].0.0 as int,
                rs2[k].0.1 as int,
            ),
    ensures
        forall|x: u32, y: u32|
            x < w && y < h ==> img1.at(x as int, y as int) == img2.at(x as int, y as int),
{
    assert forall|x: u32, y: u32| x < w && y < h implies img1.at(x as int, y as int) == img2.at(
        x as int,
        y as int,
    ) by {
        assert(has_result(rs1, x, y));
        let k1 = choose|k: int| 0 <= k < rs1.len() && (#[trigger] rs1[k]).0 == (x, y);
        assert(rs1.contains(rs1[k1]));
        assert(rs2.contains(rs1[k1]));
        let k2 = choose|k: int| 0 <= k < rs2.len() && #[trigger] rs2[k] == rs1[k1];
        assert(rs2[k2].1 == img2.at(x as int, y as int));
    }
}

/// The escape count of the complex point at the center of pixel `(x, y)`.
pub open spec fn pixel_count(v: Viewport, threshold: u64, max_iters: u16, x: u32, y: u32) -> nat {
    escape_count(map_re_of(v, x), map_im_of(v, y), threshold, max_iters as nat)
}

/// The quantized intensity of pixel `(x, y)` under discrete coloring.
pub open spec fn pixel_level(v: Viewport, threshold: u64, max_iters: u16, x: u32, y: u32) -> u8 {
    level_of(count_bits_of(pixel_count(v, threshold, max_iters, x, y)), max_iters)
}

/// The binary64 bit pattern of an iteration count.
pub open spec fn count_bits_of(n: nat) -> u64 {
    crate::binary64::of_u64_of(n as u64)
}

/// What the discrete renderer guarantees of one finished cell: a pixel
/// whose point never escaped (intensity 255, in particular any pixel whose
/// escape count reached the cap) is pure black; a pixel in the bright range
/// holds exactly its quantized intensity; a near-black pixel holds a
/// grayscale intensity within two dithering steps below its quantized one.
pub open spec fn cell_ok(
    img: Raster,
    v: Viewport,
    threshold: u64,
    max_iters: u16,
    x: u32,
    y: u32,
) -> bool {
    let s = pixel_level(v, threshold, max_iters, x, y);
    let c = img.at(x as int, y as int);
    &&& (s == 255 ==> c == gray_spec(0))
    &&& (40 < s < 255 ==> c == gray_spec(s))
    &&& (s <= 40 ==> c.r <= s && s <= c.r + 2 && c.g == c.r && c.b == c.r)
    &&& (pixel_count(v, threshold, max_iters, x, y) == max_iters && max_iters >= 1 ==> c
        == gray_spec(0))
}

/// Renders the whole grid single-threadedly in discrete mode: every pixel
/// coordinate is evaluated exactly once, its escape count quantized and
/// colored, and the color written to its own cell. Each cell's intensity
/// is pinned to its pixel's escape count, up to the two dithering steps of
/// the near-black range; a pixel whose orbit never escapes — count equal
/// to the cap — is pure black.
pub fn render_discrete(v: &Viewport, threshold: u64, max_iters: u16) -> (r: Result<
    Raster,
    RenderError,
>)
    ensures
        r is Ok <==> v.pixel_width as int * v.pixel_height as int <= usize::MAX as int,
        r is Err ==> r->Err_0 == RenderError::InvalidViewport,
        r is Ok ==> {
            let img = r->Ok_0;
            &&& img.wf()
            &&& img.spec_width() == v.pixel_width
            &&& img.spec_height() == v.pixel_height
            &&& forall|x: u32, y: u32|
                x < v.pixel_width && y < v.pixel_height ==> #[trigger] cell_ok(
                    img,
                    *v,
                    threshold,
                    max_iters,
                    x,
                    y,
                )
        },
{
    let w = v.pixel_width;
    let h = v.pixel_height;
    proof {
        let wi = w as int;
        let hi = h as int;
        assert(wi * hi < 0x1_0000_0000_0000_0000) by (nonlinear_arith)
            requires
                0 <= wi < 0x1_0000_0000,
                0 <= hi < 0x1_0000_0000,
        ;
    }
    if w as u64 * h as u64 > usize::MAX as u64 {
        return Err(RenderError::InvalidViewport);
    }
    let mut img = Raster::new(w, h);
    let mut x: u32 = 0;
    while x < w
        invariant
            x <= w,
            w == v.pixel_width,
            h == v.pixel_height,
            img.wf(),
            img.spec_width() == w,
            img.spec_height() == h,
            forall|i: u32, j: u32|
                i < x && j < h ==> #[trigger] cell_ok(img, *v, threshold, max_iters, i, j),
        decreases w - x,
    {
        let mut y: u32 = 0;
        while y < h
            invariant
                x < w,
                y <= h,
                w == v.pixel_width,
                h == v.pixel_height,
                img.wf(),
                img.spec_width() == w,
                img.spec_height() == h,
                forall|i: u32, j: u32|
                    (i < x && j < h) || (i == x && j < y) ==> #[trigger] cell_ok(
                        img,
                        *v,
                        threshold,
                        max_iters,
                        i,
                        j,
                    ),
            decreases h - y,
        {
            let (cr, ci) = pixel_to_complex(v, x, y);
            let outcome = escape_iterations(cr, ci, threshold, max_iters);
            let (level, frac) = quantize_discrete(outcome.iterations, max_iters);
            let color = color_pixel(level, frac);
            let ghost img0 = img;
            img.put(x, y, color);
            proof {
                assert(level == pixel_level(*v, threshold, max_iters, x, y));
                if level <= 40 {
                    let (b1, b2) = choose|b1: bool, b2: bool|
                        color == crate::color::color_spec(level, b1, b2);
                    crate::color::lemma_dither_bounds(level, b1, b2);
                }
                assert(cell_ok(img, *v, threshold, max_iters, x, y));
                assert forall|i: u32, j: u32|
                    (i < x && j < h) || (i == x && j < y + 1) implies #[trigger] cell_ok(
                    img,
                    *v,
                    threshold,
                    max_iters,
                    i,
                    j,
                ) by {
                    if !(i == x && j == y) {
                        assert(cell_ok(img0, *v, threshold, max_iters, i, j));
                        assert(img.at(i as int, j as int) == img0.at(i as int, j as int));
                    }
                }
            }
            y = y + 1;
        }
        x = x + 1;
    }
    Ok(img)
}

} // verus!
