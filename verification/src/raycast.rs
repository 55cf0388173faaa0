//! Grid ray marching: starting from a fixed-point origin, repeatedly step
//! to the nearest grid-plane crossing along the ray, query the world at the
//! newly entered cell, and stop at the first non-air cell or once the
//! traveled distance exceeds the given bound.
//!
//! Positions and directions are in 2^16 fixed point: a coordinate v stands
//! for the real number v / 65536, and one cell is one unit wide. The
//! traveled parameter t of the point origin + t * direction is tracked
//! exactly, as a rational with a per-axis denominator.

use crate::world::World;
use vstd::prelude::*;

verus! {

/// Fixed-point bound on ray origins and travel distance.
pub const RAY_COORD_LIMIT: i64 = 0x10000000000;

/// A ray hit: the boundary-crossing point (fixed point, rounded toward
/// negative infinity) and the coordinate of the hit cell.
#[derive(Clone, Copy, PartialEq, Eq, Structural, Debug)]
pub struct RayHit {
    pub hx: i64,
    pub hy: i64,
    pub hz: i64,
    pub cell_x: i64,
    pub cell_y: i64,
    pub cell_z: i64,
}

/// The positive denominator of an axis's crossing times.
pub open spec fn spec_den(d: i64) -> int {
    if d >= 0 {
        d as int
    } else {
        -(d as int)
    }
}

/// Steps of the march: enough boundary crossings to exhaust any ray of
/// length `max_t` whose direction components do not exceed one cell per
/// unit.
pub open spec fn spec_ray_fuel(max_t: i64) -> nat {
    (3 * (max_t as int / 65536) + 9) as nat
}

/// The outcome of one crossing at parameter t_num / t_den into the cell
/// (cx, cy, cz): out of distance, a hit, or march on.
pub open spec fn spec_march_outcome(
    w: World,
    dx: i64,
    dy: i64,
    dz: i64,
    ox: i64,
    oy: i64,
    oz: i64,
    max_t: i64,
    cx: int,
    cy: int,
    cz: int,
    nx: int,
    ny: int,
    nz: int,
    t_num: int,
    t_den: int,
    fuel: nat,
) -> Option<RayHit>
    decreases fuel, 0int,
{
    if t_num * 65536 > (max_t as int) * t_den {
        None
    } else if w.spec_block_at(cx, cy, cz) != 0 {
        Some(
            RayHit {
                hx: (ox as int + (t_num * (dx as int)) / t_den) as i64,
                hy: (oy as int + (t_num * (dy as int)) / t_den) as i64,
                hz: (oz as int + (t_num * (dz as int)) / t_den) as i64,
                cell_x: cx as i64,
                cell_y: cy as i64,
                cell_z: cz as i64,
            },
        )
    } else if fuel == 0 {
        None
    } else {
        spec_ray_march(w, dx, dy, dz, ox, oy, oz, max_t, cx, cy, cz, nx, ny, nz, (fuel - 1) as nat)
    }
}

/// The march from a cursor state: pick the axis with the nearest boundary
/// (x before y before z on ties), cross it, and resolve the outcome.
pub open spec fn spec_ray_march(
    w: World,
    dx: i64,
    dy: i64,
    dz: i64,
    ox: i64,
    oy: i64,
    oz: i64,
    max_t: i64,
    cx: int,
    cy: int,
    cz: int,
    nx: int,
    ny: int,
    nz: int,
    fuel: nat,
) -> Option<RayHit>
    decreases fuel, 1int,
{
    if fuel == 0 || (dx == 0 && dy == 0 && dz == 0) {
        None
    } else {
        let pick_x = dx != 0 && (dy == 0 || nx * spec_den(dy) <= ny * spec_den(dx)) && (dz == 0
            || nx * spec_den(dz) <= nz * spec_den(dx));
        let pick_y = !pick_x && dy != 0 && (dz == 0 || ny * spec_den(dz) <= nz * spec_den(dy));
        if pick_x {
            spec_march_outcome(
                w,
                dx,
                dy,
                dz,
                ox,
                oy,
                oz,
                max_t,
                if dx > 0 {
                    cx + 1
                } else {
                    cx - 1
                },
                cy,
                cz,
                nx + 65536,
                ny,
                nz,
                nx,
                spec_den(dx),
                fuel,
            )
        } else if pick_y {
            spec_march_outcome(
                w,
                dx,
                dy,
                dz,
                ox,
                oy,
                oz,
                max_t,
                cx,
                if dy > 0 {
                    cy + 1
                } else {
                    cy - 1
                },
                cz,
                nx,
                ny + 65536,
                nz,
                ny,
                spec_den(dy),
                fuel,
            )
        } else {
            spec_march_outcome(
                w,
                dx,
                dy,
                dz,
                ox,
                oy,
                oz,
                max_t,
                cx,
                cy,
                if dz > 0 {
                    cz + 1
                } else {
                    cz - 1
                },
                nx,
                ny,
                nz + 65536,
                nz,
                spec_den(dz),
                fuel,
            )
        }
    }
}

/// The initial per-axis numerator: the distance (scaled by the axis's
/// denominator over 65536) from the origin to the first boundary crossed.
pub open spec fn spec_init_num(o: i64, d: i64, c: int) -> int {
    if d > 0 {
        (c + 1) * 65536 - o as int
    } else {
        o as int - c * 65536
    }
}

/// What a full ray cast returns: the first non-air cell the ray enters
/// within `max_t` of travel, or nothing.
pub open spec fn spec_cast_ray(
    w: World,
    ox: i64,
    oy: i64,
    oz: i64,
    dx: i64,
    dy: i64,
    dz: i64,
    max_t: i64,
) -> Option<RayHit> {
    let cx = ox as int / 65536;
    let cy = oy as int / 65536;
    let cz = oz as int / 65536;
    spec_ray_march(
        w,
        dx,
        dy,
        dz,
        ox,
        oy,
        oz,
        max_t,
        cx,
        cy,
        cz,
        spec_init_num(ox, dx, cx),
        spec_init_num(oy, dy, cy),
        spec_init_num(oz, dz, cz),
        spec_ray_fuel(max_t),
    )
}

/// Grid ray march over the world. Pure query: reads block state only.
#[verifier::loop_isolation(false)]
#[verifier::rlimit(100)]
pub fn dda(world: &World, ox: i64, oy: i64, oz: i64, dx: i64, dy: i64, dz: i64, max_t: i64) -> (r:
    Option<RayHit>)
    requires
        world.wf(),
        -RAY_COORD_LIMIT <= ox <= RAY_COORD_LIMIT,
        -RAY_COORD_LIMIT <= oy <= RAY_COORD_LIMIT,
        -RAY_COORD_LIMIT <= oz <= RAY_COORD_LIMIT,
        -65536 <= dx <= 65536,
        -65536 <= dy <= 65536,
        -65536 <= dz <= 65536,
        0 <= max_t <= RAY_COORD_LIMIT,
    ensures
        r == spec_cast_ray(*world, ox, oy, oz, dx, dy, dz, max_t),
        r matches Some(h) ==> world.spec_block_at(
            h.cell_x as int,
            h.cell_y as int,
            h.cell_z as int,
        ) != 0,
{
    let ghost target = spec_cast_ray(*world, ox, oy, oz, dx, dy, dz, max_t);
    let mut cx = crate::coords::floor_div(ox, 65536);
    let mut cy = crate::coords::floor_div(oy, 65536);
    let mut cz = crate::coords::floor_div(oz, 65536);
    let mut nx: i64 = if dx > 0 {
        (cx + 1) * 65536 - ox
    } else {
        ox - cx * 65536
    };
    let mut ny: i64 = if dy > 0 {
        (cy + 1) * 65536 - oy
    } else {
        oy - cy * 65536
    };
    let mut nz: i64 = if dz > 0 {
        (cz + 1) * 65536 - oz
    } else {
        oz - cz * 65536
    };
    let mut fuel: u64 = 3 * ((max_t / 65536) as u64) + 9;
    proof {
        vstd::arithmetic::div_mod::lemma_fundamental_div_mod(ox as int, 65536);
        vstd::arithmetic::div_mod::lemma_fundamental_div_mod(oy as int, 65536);
        vstd::arithmetic::div_mod::lemma_fundamental_div_mod(oz as int, 65536);
        vstd::arithmetic::div_mod::lemma_div_pos_is_pos(max_t as int, 65536);
        vstd::arithmetic::div_mod::lemma_div_is_ordered(max_t as int, RAY_COORD_LIMIT as int, 65536);
        assert(max_t / 65536 == max_t as int / 65536);
    }
    if dx == 0 && dy == 0 && dz == 0 {
        return None;
    }
    while fuel > 0
        invariant
            !(dx == 0 && dy == 0 && dz == 0),
            fuel <= spec_ray_fuel(max_t),
            -0x2000000000 <= cx <= 0x2000000000,
            -0x2000000000 <= cy <= 0x2000000000,
            -0x2000000000 <= cz <= 0x2000000000,
            0 <= nx <= 0x30000000000 + 65536 * (spec_ray_fuel(max_t) - fuel),
            0 <= ny <= 0x30000000000 + 65536 * (spec_ray_fuel(max_t) - fuel),
            0 <= nz <= 0x30000000000 + 65536 * (spec_ray_fuel(max_t) - fuel),
            cx as int <= ox as int / 65536 + (spec_ray_fuel(max_t) - fuel),
            cx as int >= ox as int / 65536 - (spec_ray_fuel(max_t) - fuel),
            cy as int <= oy as int / 65536 + (spec_ray_fuel(max_t) - fuel),
            cy as int >= oy as int / 65536 - (spec_ray_fuel(max_t) - fuel),
            cz as int <= oz as int / 65536 + (spec_ray_fuel(max_t) - fuel),
            cz as int >= oz as int / 65536 - (spec_ray_fuel(max_t) - fuel),
            spec_ray_march(
                *world,
                dx,
                dy,
                dz,
                ox,
                oy,
                oz,
                max_t,
                cx as int,
                cy as int,
                cz as int,
                nx as int,
                ny as int,
                nz as int,
                fuel as nat,
            ) == target,
        decreases fuel,
    {
        let denx: i64 = if dx >= 0 {
            dx
        } else {
            -dx
        };
        let deny: i64 = if dy >= 0 {
            dy
        } else {
            -dy
        };
        let denz: i64 = if dz >= 0 {
            dz
        } else {
            -dz
        };
        proof {
            let bound: int = 0x30000000000 + 65536 * (spec_ray_fuel(max_t) - fuel);
            assert(nx * deny <= bound * 65536 && ny * denx <= bound * 65536 && nx * denz <= bound
                * 65536 && nz * denx <= bound * 65536 && ny * denz <= bound * 65536 && nz * deny
                <= bound * 65536) by (nonlinear_arith)
                requires
                    0 <= nx <= bound,
                    0 <= ny <= bound,
                    0 <= nz <= bound,
                    0 <= denx <= 65536,
                    0 <= deny <= 65536,
                    0 <= denz <= 65536,
            ;
            assert(bound * 65536 < 0x7fffffffffffffff) by (nonlinear_arith)
                requires
                    bound <= 0x30000000000 + 65536 * spec_ray_fuel(max_t),
                    spec_ray_fuel(max_t) <= 3 * 0x1000000 + 9,
            ;
        }
        let pick_x = dx != 0 && (dy == 0 || nx * deny <= ny * denx) && (dz == 0 || nx * denz <= nz
            * denx);
        let pick_y = !pick_x && dy != 0 && (dz == 0 || ny * denz <= nz * deny);
        let t_num: i64;
        let t_den: i64;
        if pick_x {
            t_num = nx;
            t_den = denx;
            cx = if dx > 0 {
                cx + 1
            } else {
                cx - 1
            };
            nx = nx + 65536;
        } else if pick_y {
            t_num = ny;
            t_den = deny;
            cy = if dy > 0 {
                cy + 1
            } else {
                cy - 1
            };
            ny = ny + 65536;
        } else {
            t_num = nz;
            t_den = denz;
            cz = if dz > 0 {
                cz + 1
            } else {
                cz - 1
            };
            nz = nz + 65536;
        }
        proof {
            let bound: int = 0x30000000000 + 65536 * (spec_ray_fuel(max_t) - fuel);
            assert(t_num * 65536 <= bound * 65536) by (nonlinear_arith)
                requires
                    0 <= t_num <= bound,
            ;
            assert((max_t as int) * (t_den as int) <= 0x10000000000 * 65536) by (nonlinear_arith)
                requires
                    0 <= max_t <= 0x10000000000,
                    0 <= t_den <= 65536,
            ;
        }
        if t_num * 65536 > max_t * t_den {
            proof {
                assert(target is None);
            }
            return None;
        }
        let id = world.block_at_global_pos(cx, cy, cz);
        if id != 0 {
            proof {
                let bound: int = 0x30000000000 + 65536 * (spec_ray_fuel(max_t) - fuel);
                assert(-(bound * 65536) <= t_num * (dx as int) && t_num * (dx as int) <= bound
                    * 65536) by (nonlinear_arith)
                    requires
                        0 <= t_num <= bound,
                        -65536 <= dx <= 65536,
                ;
                assert(-(bound * 65536) <= t_num * (dy as int) && t_num * (dy as int) <= bound
                    * 65536) by (nonlinear_arith)
                    requires
                        0 <= t_num <= bound,
                        -65536 <= dy <= 65536,
                ;
                assert(-(bound * 65536) <= t_num * (dz as int) && t_num * (dz as int) <= bound
                    * 65536) by (nonlinear_arith)
                    requires
                        0 <= t_num <= bound,
                        -65536 <= dz <= 65536,
                ;
            }
            proof {
                crate::coords::lemma_div_magnitude(t_num as int * dx as int, t_den as int);
                crate::coords::lemma_div_magnitude(t_num as int * dy as int, t_den as int);
                crate::coords::lemma_div_magnitude(t_num as int * dz as int, t_den as int);
            }
            let hx = ox + crate::coords::floor_div(t_num * dx, t_den);
            let hy = oy + crate::coords::floor_div(t_num * dy, t_den);
            let hz = oz + crate::coords::floor_div(t_num * dz, t_den);
            return Some(RayHit { hx, hy, hz, cell_x: cx, cell_y: cy, cell_z: cz });
        }
        fuel = fuel - 1;
    }
    proof {
        assert(target is None);
    }
    None
}

impl World {
    /// Casts a ray from `origin` along `direction` (both in 2^16 fixed
    /// point) and returns the first non-air cell entered within
    /// `max_distance` of travel, together with the crossing point.
    pub fn cast_ray(
        &self,
        ox: i64,
        oy: i64,
        oz: i64,
        dx: i64,
        dy: i64,
        dz: i64,
        max_distance: i64,
    ) -> (r: Option<RayHit>)
        requires
            self.wf(),
            -RAY_COORD_LIMIT <= ox <= RAY_COORD_LIMIT,
            -RAY_COORD_LIMIT <= oy <= RAY_COORD_LIMIT,
            -RAY_COORD_LIMIT <= oz <= RAY_COORD_LIMIT,
            -65536 <= dx <= 65536,
            -65536 <= dy <= 65536,
            -65536 <= dz <= 65536,
            0 <= max_distance <= RAY_COORD_LIMIT,
        ensures
            r == spec_cast_ray(*self, ox, oy, oz, dx, dy, dz, max_distance),
            r matches Some(h) ==> self.spec_block_at(
                h.cell_x as int,
                h.cell_y as int,
                h.cell_z as int,
            ) != 0,
    {
        dda(self, ox, oy, oz, dx, dy, dz, max_distance)
    }
}

} // verus!
