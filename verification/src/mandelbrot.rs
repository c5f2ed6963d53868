//! Escape-time evaluation of the recurrence z <- z^2 + c.
//!
//! Points of the complex plane are fixed-point values (see [`crate::fixed`]).
//! One orbit step squares z, rescales each product by `FP` with truncating
//! division, adds c, and clamps each component to `[-8, 8]`; clamping cannot
//! change whether the orbit has left the escape radius 2, so the reported
//! escape count is unaffected by it.

use vstd::prelude::*;
use crate::fixed::{FP, CLAMP_BOUND, tdiv, clamp_spec, tdiv_i64, clamp_i128};

verus! {

/// Default iteration cap.
pub const MAX_ITERATIONS: u32 = 1000;

/// Squared escape radius (2.0)^2 in squared fixed-point units.
pub const ESCAPE_RADIUS_SQ: i64 = 4 * FP * FP;

/// Real part of one orbit step z^2 + c, clamped.
pub open spec fn step_re(zx: int, zy: int, cx: int) -> int {
    clamp_spec(tdiv(zx * zx - zy * zy, FP as int) + cx)
}

/// Imaginary part of one orbit step z^2 + c, clamped.
pub open spec fn step_im(zx: int, zy: int, cy: int) -> int {
    clamp_spec(tdiv(2 * zx * zy, FP as int) + cy)
}

/// The orbit point (zx, zy) lies outside the escape radius: |z| > 2.
pub open spec fn escaped(zx: int, zy: int) -> bool {
    zx * zx + zy * zy > 4 * (FP as int) * (FP as int)
}

/// Completed applications of z <- z^2 + c, starting from (zx, zy), before
/// the orbit first escapes; `fuel` if it never does within `fuel` steps.
pub open spec fn iterate_from(zx: int, zy: int, cx: int, cy: int, fuel: nat) -> nat
    decreases fuel,
{
    if fuel == 0 {
        0
    } else {
        let nx = step_re(zx, zy, cx);
        let ny = step_im(zx, zy, cy);
        if escaped(nx, ny) {
            0
        } else {
            (1 + iterate_from(nx, ny, cx, cy, (fuel - 1) as nat)) as nat
        }
    }
}

/// Escape count of the point c, starting the orbit from z = 0.
pub open spec fn iterations_spec(cx: int, cy: int, max: nat) -> nat {
    iterate_from(0, 0, cx, cy, max)
}

/// A point whose squared magnitude already exceeds the escape radius
/// diverges immediately: its escape count is 0.
pub proof fn lemma_escape_immediate(cx: int, cy: int, max: nat)
    requires
        cx * cx + cy * cy > 4 * (FP as int) * (FP as int),
    ensures
        iterations_spec(cx, cy, max) == 0,
{
    if max > 0 {
        let nx = step_re(0, 0, cx);
        let ny = step_im(0, 0, cy);
        assert(nx == clamp_spec(cx) && ny == clamp_spec(cy));
        assert(escaped(nx, ny)) by (nonlinear_arith)
            requires
                nx == clamp_spec(cx),
                ny == clamp_spec(cy),
                cx * cx + cy * cy > 4 * (FP as int) * (FP as int),
                FP == 16777216,
                CLAMP_BOUND == 8 * FP;
    }
}

/// The orbit of the plane origin stays at the origin, so the origin
/// never escapes: its escape count is exactly the cap.
pub proof fn lemma_origin_capped(max: nat)
    ensures
        iterations_spec(0, 0, max) == max,
    decreases max,
{
    if max > 0 {
        assert(step_re(0, 0, 0) == 0 && step_im(0, 0, 0) == 0);
        lemma_origin_capped((max - 1) as nat);
        assert(iterate_from(0, 0, 0, 0, max) == 1 + iterate_from(0, 0, 0, 0, (max - 1) as nat));
    }
}

/// Escape-time evaluation is deterministic: the result is a function of
/// the point and the cap alone, so two evaluations of one input agree.
pub proof fn lemma_iterations_deterministic(cx: int, cy: int, max: nat, r1: nat, r2: nat)
    requires
        r1 == iterations_spec(cx, cy, max),
        r2 == iterations_spec(cx, cy, max),
    ensures
        r1 == r2,
{
}

/// Escape-time evaluation: the number of completed orbit steps before the
/// point c = (cx, cy) diverges, capped at `max_iterations`.  The cap value
/// itself is the sentinel for "presumed inside the set".
pub fn get_iterations(cx: i64, cy: i64, max_iterations: u32) -> (r: u32)
    ensures
        r == iterations_spec(cx as int, cy as int, max_iterations as nat),
        r <= max_iterations,
        cx * cx + cy * cy > 4 * (FP as int) * (FP as int) ==> r == 0,
        cx == 0 && cy == 0 ==> r == max_iterations,
{
    let mut zx: i64 = 0;
    let mut zy: i64 = 0;
    let mut count: u32 = 0;
    let ghost max = max_iterations as nat;
    while count < max_iterations
        invariant
            count <= max_iterations,
            zx * zx + zy * zy <= 4 * (FP as int) * (FP as int),
            -CLAMP_BOUND <= zx <= CLAMP_BOUND,
            -CLAMP_BOUND <= zy <= CLAMP_BOUND,
            max == max_iterations as nat,
            iterations_spec(cx as int, cy as int, max) == count + iterate_from(
                zx as int,
                zy as int,
                cx as int,
                cy as int,
                (max - count) as nat,
            ),
        decreases max_iterations - count,
    {
        proof {
            assert(-2 * (FP as int) <= zx <= 2 * (FP as int) && -2 * (FP as int) <= zy <= 2 * (
            FP as int)) by (nonlinear_arith)
                requires
                    zx * zx + zy * zy <= 4 * (FP as int) * (FP as int),
                    FP == 16777216;
            assert(zx * zx <= 4 * (FP as int) * (FP as int) && zy * zy <= 4 * (FP as int) * (
            FP as int) && zx * zx >= 0 && zy * zy >= 0 && -8 * (FP as int) * (FP as int) <= 2 * zx
                * zy <= 8 * (FP as int) * (FP as int)) by (nonlinear_arith)
                requires
                    -2 * (FP as int) <= zx <= 2 * (FP as int),
                    -2 * (FP as int) <= zy <= 2 * (FP as int),
                    FP == 16777216;
        }
        let t1: i64 = zx * zx - zy * zy;
        let t2: i64 = 2 * zx * zy;
        let d1: i64 = tdiv_i64(t1, FP);
        let d2: i64 = tdiv_i64(t2, FP);
        let nx: i64 = clamp_i128(d1 as i128 + cx as i128);
        let ny: i64 = clamp_i128(d2 as i128 + cy as i128);
        proof {
            assert(nx == step_re(zx as int, zy as int, cx as int));
            assert(ny == step_im(zx as int, zy as int, cy as int));
            assert(nx * nx + ny * ny <= 128 * (FP as int) * (FP as int)) by (nonlinear_arith)
                requires
                    -CLAMP_BOUND <= nx <= CLAMP_BOUND,
                    -CLAMP_BOUND <= ny <= CLAMP_BOUND,
                    FP == 16777216,
                    CLAMP_BOUND == 8 * FP;
            assert(nx * nx >= 0 && ny * ny >= 0) by (nonlinear_arith);
        }
        let sq: i64 = nx * nx + ny * ny;
        proof {
            // One unfolding of the spec at the current fuel.
            assert((max - count) as nat > 0);
            assert(iterate_from(zx as int, zy as int, cx as int, cy as int, (max - count) as nat)
                == if escaped(nx as int, ny as int) {
                0
            } else {
                (1 + iterate_from(
                    nx as int,
                    ny as int,
                    cx as int,
                    cy as int,
                    (max - count - 1) as nat,
                )) as nat
            });
        }
        if sq > ESCAPE_RADIUS_SQ {
            proof {
                if cx == 0 && cy == 0 {
                    lemma_origin_capped(max);
                }
                if cx as int * cx as int + cy as int * cy as int > 4 * (FP as int) * (
                FP as int) {
                    lemma_escape_immediate(cx as int, cy as int, max);
                }
            }
            return count;
        }
        zx = nx;
        zy = ny;
        count = count + 1;
    }
    proof {
        if cx as int * cx as int + cy as int * cy as int > 4 * (FP as int) * (FP as int) {
            lemma_escape_immediate(cx as int, cy as int, max);
        }
    }
    count
}

} // verus!
