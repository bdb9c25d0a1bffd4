//! The escape-time estimator: iterate `z <- z*z + c` from `z = 0` and count
//! the steps taken before `|z|^2` exceeds the escape threshold or the
//! iteration cap is reached. All values are binary64 bit patterns and every
//! arithmetic step goes through the named IEEE-754 operations of
//! `crate::binary64`, so the count and the final orbit point are pinned
//! exactly by the contract.

use vstd::prelude::*;
use crate::binary64::{
    add64, add_of, le64, le_of, mul64, mul_of, of_u64, of_u64_of, sub64, sub_of,
};

verus! {

/// How the estimator reports its result: the bare iteration count, or the
/// count together with the data the smoothed (continuous) coloring needs.
#[derive(Clone, Copy, PartialEq, Eq, Structural, Debug)]
pub enum EscapeMode {
    Discrete,
    Continuous,
}

/// What one run of the estimator produced: the number of iterations taken
/// (capped at the maximum), whether the orbit left the threshold before the
/// cap, and the final orbit point, as bit patterns.
#[derive(Clone, Copy, PartialEq, Eq, Structural, Debug)]
pub struct EscapeOutcome {
    pub iterations: u16,
    pub escaped: bool,
    pub zr: u64,
    pub zi: u64,
}

/// Real part of one iteration step: `zr*zr - zi*zi + cr`.
pub open spec fn step_re_of(zr: u64, zi: u64, cr: u64) -> u64 {
    add_of(sub_of(mul_of(zr, zr), mul_of(zi, zi)), cr)
}

/// Imaginary part of one iteration step: `2*zr*zi + ci`.
pub open spec fn step_im_of(zr: u64, zi: u64, ci: u64) -> u64 {
    add_of(mul_of(of_u64_of(2), mul_of(zr, zi)), ci)
}

/// Squared magnitude of the orbit point: `zr*zr + zi*zi`.
pub open spec fn norm_sq_of(zr: u64, zi: u64) -> u64 {
    add_of(mul_of(zr, zr), mul_of(zi, zi))
}

/// The orbit has left the escape region: its squared magnitude is not
/// `<=` the threshold (an orbit that reaches NaN counts as escaped, as
/// the IEEE comparison is false there).
pub open spec fn escaped_at(zr: u64, zi: u64, threshold: u64) -> bool {
    !le_of(norm_sq_of(zr, zi), threshold)
}

/// The orbit point after `n` iterations of `z <- z*z + c` from `z = 0`.
pub open spec fn orbit(cr: u64, ci: u64, n: nat) -> (u64, u64)
    decreases n,
{
    if n == 0 {
        (0u64, 0u64)
    } else {
        let p = orbit(cr, ci, (n - 1) as nat);
        (step_re_of(p.0, p.1, cr), step_im_of(p.0, p.1, ci))
    }
}

/// Iterations the loop still performs when the orbit stands at `z` with
/// `budget` iterations left before the cap.
pub open spec fn count_from(cr: u64, ci: u64, threshold: u64, z: (u64, u64), budget: nat) -> nat
    decreases budget,
{
    if budget == 0 || escaped_at(z.0, z.1, threshold) {
        0
    } else {
        1 + count_from(
            cr,
            ci,
            threshold,
            (step_re_of(z.0, z.1, cr), step_im_of(z.0, z.1, ci)),
            (budget - 1) as nat,
        )
    }
}

/// The escape count of `c`: how many iterations the estimator performs
/// before the orbit escapes or the cap `max_iters` is reached.
pub open spec fn escape_count(cr: u64, ci: u64, threshold: u64, max_iters: nat) -> nat {
    count_from(cr, ci, threshold, (0u64, 0u64), max_iters)
}

/// The loop never performs more iterations than its budget allows.
pub proof fn lemma_count_from_bounded(cr: u64, ci: u64, threshold: u64, z: (u64, u64), budget: nat)
    ensures
        count_from(cr, ci, threshold, z, budget) <= budget,
    decreases budget,
{
    if budget != 0 && !escaped_at(z.0, z.1, threshold) {
        lemma_count_from_bounded(
            cr,
            ci,
            threshold,
            (step_re_of(z.0, z.1, cr), step_im_of(z.0, z.1, ci)),
            (budget - 1) as nat,
        );
    }
}

/// The discrete escape count never exceeds the iteration cap.
pub proof fn lemma_escape_count_capped(cr: u64, ci: u64, threshold: u64, max_iters: nat)
    ensures
        escape_count(cr, ci, threshold, max_iters) <= max_iters,
{
    lemma_count_from_bounded(cr, ci, threshold, (0u64, 0u64), max_iters);
}

/// Runs the escape-time loop for the point `c`, given as the bit patterns
/// of its real and imaginary parts, against the given squared-magnitude
/// threshold. The result is a function of the arguments alone: the count,
/// the escape flag and the final orbit point are all pinned, so repeated
/// calls on equal inputs agree. The origin never escapes: on `c = 0` and
/// a threshold that positive zero compares `<=` against (any ordinary
/// non-negative threshold, such as the binary64 value of 4), the count is
/// exactly the cap.
pub fn escape_iterations(cr: u64, ci: u64, threshold: u64, max_iters: u16) -> (r: EscapeOutcome)
    ensures
        r.iterations as nat == escape_count(cr, ci, threshold, max_iters as nat),
        r.iterations <= max_iters,
        (r.zr, r.zi) == orbit(cr, ci, r.iterations as nat),
        r.escaped == (r.iterations < max_iters),
        cr == 0 && ci == 0 && le_of(0u64, threshold) ==> r.iterations == max_iters,
{
    let mut zr: u64 = 0;
    let mut zi: u64 = 0;
    let mut i: u16 = 0;

    loop
        invariant
            i <= max_iters,
            (zr, zi) == orbit(cr, ci, i as nat),
            escape_count(cr, ci, threshold, max_iters as nat) == i as nat + count_from(
                cr,
                ci,
                threshold,
                (zr, zi),
                (max_iters - i) as nat,
            ),
            cr == 0 && ci == 0 ==> zr == 0 && zi == 0,
        decreases max_iters - i,
    {
        proof {
            lemma_count_from_bounded(cr, ci, threshold, (zr, zi), (max_iters - i) as nat);
            crate::binary64::lemma_zero_pattern();
        }
        let xx = mul64(zr, zr);
        let yy = mul64(zi, zi);
        let norm_sq = add64(xx, yy);
        if !(le64(norm_sq, threshold) && i < max_iters) {
            assert(count_from(cr, ci, threshold, (zr, zi), (max_iters - i) as nat) == 0);
            return EscapeOutcome { iterations: i, escaped: i < max_iters, zr, zi };
        }
        let re = add64(sub64(xx, yy), cr);
        let two = of_u64(2);
        let im = add64(mul64(two, mul64(zr, zi)), ci);
        zr = re;
        zi = im;
        i = i + 1;
    }
}

} // verus!
