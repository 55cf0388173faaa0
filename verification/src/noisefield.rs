//! Seeded coherent noise over the block grid, in 2^16 fixed point: random
//! values on an integer lattice, blended between lattice points with
//! smoothstep-weighted interpolation. A sample is a pure function of
//! (seed, salt, point), so generation is reproducible from the seed alone.
//!
//! A fixed-point value v stands for the real number v / 65536; samples lie
//! in [-65536, 65536] (that is, in [-1, 1]).

use crate::coords::floor_div;
use crate::sampling::{roll_mod, spec_roll_mod};
use vstd::arithmetic::div_mod::{
    lemma_div_by_multiple, lemma_div_is_ordered, lemma_div_multiples_vanish,
    lemma_div_pos_is_pos, lemma_fundamental_div_mod,
};
use vstd::prelude::*;

verus! {

/// Fixed-point radix: 2^16.
pub const FIXED_ONE: i64 = 65536;

/// The lattice sample at integer lattice point (u, v, w): uniform in
/// [-65536, 65536].
pub open spec fn spec_lattice(seed: u32, salt: u64, u: i64, v: i64, w: i64) -> int {
    spec_roll_mod(seed, salt, u, v, w, 131073) as int - 65536
}

fn lattice(seed: u32, salt: u64, u: i64, v: i64, w: i64) -> (r: i64)
    ensures
        r == spec_lattice(seed, salt, u, v, w),
        -65536 <= r <= 65536,
{
    (roll_mod(seed, salt, u, v, w, 131073) as i64) - 65536
}

/// Smoothstep weight of a fractional position t in [0, 65536]:
/// t^2 (3 - 2 t) scaled to fixed point.
pub open spec fn spec_smooth(t: int) -> int {
    (t * t * (3 * 65536 - 2 * t)) / (65536int * 65536int)
}

pub proof fn lemma_smooth_bounds(t: int)
    requires
        0 <= t <= 65536,
    ensures
        0 <= spec_smooth(t) <= 65536,
{
    let f: int = 65536;
    let num: int = t * t * (3 * f - 2 * t);
    assert(t * t * (3 * 65536 - 2 * t) >= 0) by (nonlinear_arith)
        requires
            0 <= t <= 65536,
    ;
    assert(65536int * (65536int * 65536int) - t * t * (3 * 65536 - 2 * t) == (65536 - t) * (65536
        - t) * (65536 + 2 * t)) by (nonlinear_arith);
    assert((65536int - t) * (65536int - t) * (65536int + 2 * t) >= 0) by (nonlinear_arith)
        requires
            0 <= t <= 65536,
    ;
    lemma_div_pos_is_pos(num, f * f);
    lemma_div_is_ordered(num, f * (f * f), f * f);
    lemma_div_by_multiple(f, f * f);
}

fn smooth(t: i64) -> (r: i64)
    requires
        0 <= t <= 65536,
    ensures
        r == spec_smooth(t as int),
        0 <= r <= 65536,
{
    proof {
        lemma_smooth_bounds(t as int);
        assert(0 <= t * t <= 65536int * 65536int) by (nonlinear_arith)
            requires
                0 <= t <= 65536,
        ;
        assert(t * t * (3 * 65536 - 2 * t) <= (65536int * 65536int) * (3 * 65536)) by (nonlinear_arith)
            requires
                0 <= t <= 65536,
        ;
    }
    floor_div(t * t * (3 * 65536 - 2 * t), 65536 * 65536)
}

/// Linear interpolation from a to b by the fixed-point weight t.
pub open spec fn spec_lerp(a: int, b: int, t: int) -> int {
    a + ((b - a) * t) / 65536
}

pub proof fn lemma_lerp_bounds(a: int, b: int, t: int)
    requires
        -65536 <= a <= 65536,
        -65536 <= b <= 65536,
        0 <= t <= 65536,
    ensures
        -65536 <= spec_lerp(a, b, t) <= 65536,
{
    let f: int = 65536;
    assert((b - a) * f == f * (b - a)) by (nonlinear_arith);
    lemma_div_multiples_vanish(b - a, f);
    if b >= a {
        assert(0 <= (b - a) * t && (b - a) * t <= (b - a) * f) by (nonlinear_arith)
            requires
                b >= a,
                0 <= t <= f,
        ;
        lemma_div_pos_is_pos((b - a) * t, f);
        lemma_div_is_ordered((b - a) * t, (b - a) * f, f);
    } else {
        assert((b - a) * f <= (b - a) * t && (b - a) * t <= 0) by (nonlinear_arith)
            requires
                b < a,
                0 <= t <= f,
        ;
        lemma_div_is_ordered((b - a) * f, (b - a) * t, f);
        lemma_div_is_ordered((b - a) * t, 0, f);
        assert(0int / f == 0);
    }
}

fn lerp(a: i64, b: i64, t: i64) -> (r: i64)
    requires
        -65536 <= a <= 65536,
        -65536 <= b <= 65536,
        0 <= t <= 65536,
    ensures
        r == spec_lerp(a as int, b as int, t as int),
        -65536 <= r <= 65536,
{
    proof {
        lemma_lerp_bounds(a as int, b as int, t as int);
    }
    a + floor_div((b - a) * t, 65536)
}

/// Splits a fixed-point coordinate into its lattice cell and fractional part.
pub open spec fn spec_cell(x: i64) -> int {
    x as int / 65536
}

pub open spec fn spec_frac(x: i64) -> int {
    x as int % 65536
}

/// 2-D coherent noise at fixed-point point (x, z).
pub open spec fn spec_noise2(seed: u32, salt: u64, x: i64, z: i64) -> int {
    let u = spec_cell(x);
    let v = spec_cell(z);
    let sx = spec_smooth(spec_frac(x));
    let sz = spec_smooth(spec_frac(z));
    let c00 = spec_lattice(seed, salt, u as i64, v as i64, 0);
    let c10 = spec_lattice(seed, salt, (u + 1) as i64, v as i64, 0);
    let c01 = spec_lattice(seed, salt, u as i64, (v + 1) as i64, 0);
    let c11 = spec_lattice(seed, salt, (u + 1) as i64, (v + 1) as i64, 0);
    spec_lerp(spec_lerp(c00, c10, sx), spec_lerp(c01, c11, sx), sz)
}

/// 3-D coherent noise at fixed-point point (x, y, z).
pub open spec fn spec_noise3(seed: u32, salt: u64, x: i64, y: i64, z: i64) -> int {
    let u = spec_cell(x);
    let v = spec_cell(y);
    let w = spec_cell(z);
    let sx = spec_smooth(spec_frac(x));
    let sy = spec_smooth(spec_frac(y));
    let sz = spec_smooth(spec_frac(z));
    let c000 = spec_lattice(seed, salt, u as i64, v as i64, w as i64);
    let c100 = spec_lattice(seed, salt, (u + 1) as i64, v as i64, w as i64);
    let c010 = spec_lattice(seed, salt, u as i64, (v + 1) as i64, w as i64);
    let c110 = spec_lattice(seed, salt, (u + 1) as i64, (v + 1) as i64, w as i64);
    let c001 = spec_lattice(seed, salt, u as i64, v as i64, (w + 1) as i64);
    let c101 = spec_lattice(seed, salt, (u + 1) as i64, v as i64, (w + 1) as i64);
    let c011 = spec_lattice(seed, salt, u as i64, (v + 1) as i64, (w + 1) as i64);
    let c111 = spec_lattice(seed, salt, (u + 1) as i64, (v + 1) as i64, (w + 1) as i64);
    let i00 = spec_lerp(c000, c100, sx);
    let i10 = spec_lerp(c010, c110, sx);
    let i01 = spec_lerp(c001, c101, sx);
    let i11 = spec_lerp(c011, c111, sx);
    spec_lerp(spec_lerp(i00, i10, sy), spec_lerp(i01, i11, sy), sz)
}

/// Bound on the fixed-point coordinates noise is sampled at; wide enough
/// for every in-range cell position under the generation scales.
pub const NOISE_COORD_LIMIT: i64 = 0x10000000000;

pub proof fn lemma_noise2_bounds(seed: u32, salt: u64, x: i64, z: i64)
    ensures
        -65536 <= spec_noise2(seed, salt, x, z) <= 65536,
{
    lemma_fundamental_div_mod(x as int, 65536);
    lemma_fundamental_div_mod(z as int, 65536);
    lemma_smooth_bounds(spec_frac(x));
    lemma_smooth_bounds(spec_frac(z));
    let u = spec_cell(x);
    let v = spec_cell(z);
    let sx = spec_smooth(spec_frac(x));
    let sz = spec_smooth(spec_frac(z));
    let c00 = spec_lattice(seed, salt, u as i64, v as i64, 0);
    let c10 = spec_lattice(seed, salt, (u + 1) as i64, v as i64, 0);
    let c01 = spec_lattice(seed, salt, u as i64, (v + 1) as i64, 0);
    let c11 = spec_lattice(seed, salt, (u + 1) as i64, (v + 1) as i64, 0);
    lemma_lerp_bounds(c00, c10, sx);
    lemma_lerp_bounds(c01, c11, sx);
    lemma_lerp_bounds(spec_lerp(c00, c10, sx), spec_lerp(c01, c11, sx), sz);
}

/// Samples 2-D noise at fixed-point point (x, z).
pub fn noise2(seed: u32, salt: u64, x: i64, z: i64) -> (r: i64)
    requires
        -NOISE_COORD_LIMIT <= x <= NOISE_COORD_LIMIT,
        -NOISE_COORD_LIMIT <= z <= NOISE_COORD_LIMIT,
    ensures
        r == spec_noise2(seed, salt, x, z),
        -65536 <= r <= 65536,
{
    let u = floor_div(x, 65536);
    let v = floor_div(z, 65536);
    let fx = x - 65536 * u;
    let fz = z - 65536 * v;
    proof {
        lemma_fundamental_div_mod(x as int, 65536);
        lemma_fundamental_div_mod(z as int, 65536);
    }
    let sx = smooth(fx);
    let sz = smooth(fz);
    let c00 = lattice(seed, salt, u, v, 0);
    let c10 = lattice(seed, salt, u + 1, v, 0);
    let c01 = lattice(seed, salt, u, v + 1, 0);
    let c11 = lattice(seed, salt, u + 1, v + 1, 0);
    lerp(lerp(c00, c10, sx), lerp(c01, c11, sx), sz)
}

/// Samples 3-D noise at fixed-point point (x, y, z).
pub fn noise3(seed: u32, salt: u64, x: i64, y: i64, z: i64) -> (r: i64)
    requires
        -NOISE_COORD_LIMIT <= x <= NOISE_COORD_LIMIT,
        -NOISE_COORD_LIMIT <= y <= NOISE_COORD_LIMIT,
        -NOISE_COORD_LIMIT <= z <= NOISE_COORD_LIMIT,
    ensures
        r == spec_noise3(seed, salt, x, y, z),
        -65536 <= r <= 65536,
{
    let u = floor_div(x, 65536);
    let v = floor_div(y, 65536);
    let w = floor_div(z, 65536);
    let fx = x - 65536 * u;
    let fy = y - 65536 * v;
    let fz = z - 65536 * w;
    proof {
        lemma_fundamental_div_mod(x as int, 65536);
        lemma_fundamental_div_mod(y as int, 65536);
        lemma_fundamental_div_mod(z as int, 65536);
    }
    let sx = smooth(fx);
    let sy = smooth(fy);
    let sz = smooth(fz);
    let c000 = lattice(seed, salt, u, v, w);
    let c100 = lattice(seed, salt, u + 1, v, w);
    let c010 = lattice(seed, salt, u, v + 1, w);
    let c110 = lattice(seed, salt, u + 1, v + 1, w);
    let c001 = lattice(seed, salt, u, v, w + 1);
    let c101 = lattice(seed, salt, u + 1, v, w + 1);
    let c011 = lattice(seed, salt, u, v + 1, w + 1);
    let c111 = lattice(seed, salt, u + 1, v + 1, w + 1);
    let i00 = lerp(c000, c100, sx);
    let i10 = lerp(c010, c110, sx);
    let i01 = lerp(c001, c101, sx);
    let i11 = lerp(c011, c111, sx);
    lerp(lerp(i00, i10, sy), lerp(i01, i11, sy), sz)
}

} // verus!
