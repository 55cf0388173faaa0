//! The seeded randomness source of world generation: per-cell and
//! per-lattice-point random rolls, pure functions of the world seed and the
//! rolled position, so that one (seed, radius) pair always reproduces the
//! same world.

use rand::{RngCore, SeedableRng};
use vstd::prelude::*;

verus! {

/// Salt for the per-cell ore roll.
pub const SALT_ORE: u64 = 1;

/// Salt for the per-cell foliage roll.
pub const SALT_FOLIAGE: u64 = 2;

/// Salt for the decorative-plant kind roll.
pub const SALT_DECOR: u64 = 3;

/// Salt for the surface-noise lattice.
pub const SALT_NOISE_SURFACE: u64 = 4;

/// Salt for the cave-noise lattice.
pub const SALT_NOISE_CAVE: u64 = 5;

/// The first draw of a freshly seeded standard generator.
pub uninterp spec fn roll_of(s: u64) -> u64;

/// Relies on rand::rngs::StdRng::seed_from_u64 and RngCore::next_u64: the
/// first draw of a freshly seeded generator is a pure integer function of
/// the seed, identical in every process.
#[verifier::external_body]
pub(crate) fn seeded_roll(s: u64) -> (r: u64)
    ensures
        r == roll_of(s),
{
    let mut rng = rand::rngs::StdRng::seed_from_u64(s);
    rng.next_u64()
}

/// Mixes the world seed, a purpose salt and a cell position into one
/// generator seed (Fowler-Noll-Vo style).
pub open spec fn spec_cell_seed(seed: u32, salt: u64, x: i64, y: i64, z: i64) -> u64 {
    let h0 = (seed as u64).wrapping_add(salt.wrapping_mul(0x9e3779b97f4a7c15));
    let h1 = (h0 ^ (x as u64)).wrapping_mul(0x100000001b3);
    let h2 = (h1 ^ (y as u64)).wrapping_mul(0x100000001b3);
    (h2 ^ (z as u64)).wrapping_mul(0x100000001b3)
}

pub fn cell_seed(seed: u32, salt: u64, x: i64, y: i64, z: i64) -> (r: u64)
    ensures
        r == spec_cell_seed(seed, salt, x, y, z),
{
    let h0 = (seed as u64).wrapping_add(salt.wrapping_mul(0x9e3779b97f4a7c15));
    let h1 = (h0 ^ (x as u64)).wrapping_mul(0x100000001b3);
    let h2 = (h1 ^ (y as u64)).wrapping_mul(0x100000001b3);
    (h2 ^ (z as u64)).wrapping_mul(0x100000001b3)
}

/// A per-cell roll in [0, m), as world generation consumes it.
pub open spec fn spec_roll_mod(seed: u32, salt: u64, x: i64, y: i64, z: i64, m: u64) -> u64
    recommends
        m > 0,
{
    roll_of(spec_cell_seed(seed, salt, x, y, z)) % m
}

pub fn roll_mod(seed: u32, salt: u64, x: i64, y: i64, z: i64, m: u64) -> (r: u64)
    requires
        m > 0,
    ensures
        r == spec_roll_mod(seed, salt, x, y, z, m),
        r < m,
{
    seeded_roll(cell_seed(seed, salt, x, y, z)) % m
}

} // verus!
