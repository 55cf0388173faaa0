//! Coordinate arithmetic: splitting a global cell position into a chunk
//! coordinate (floor division by 16) and a local cell index in [0,16) per
//! axis, linearizing local indices, and packing chunk coordinates into the
//! integer keys the chunk store is indexed by.

use vstd::arithmetic::div_mod::{
    lemma_fundamental_div_mod, lemma_fundamental_div_mod_converse,
};
use vstd::prelude::*;

verus! {

/// Chunk coordinate, in chunk-grid units (one unit = 16 cells).
#[derive(Clone, Copy, PartialEq, Eq, Structural, Debug, Hash)]
pub struct ChunkPos {
    pub x: i64,
    pub y: i64,
    pub z: i64,
}

/// Cell index inside one chunk: every axis lies in [0, 16).
#[derive(Clone, Copy, PartialEq, Eq, Structural, Debug, Hash)]
pub struct LocalPos {
    pub x: usize,
    pub y: usize,
    pub z: usize,
}

/// Chunk coordinates representable by a packed key: one half-open interval
/// per axis, wide enough for every region this library generates plus the
/// neighbors that deferred writes can target.
pub const KEY_SPAN: i64 = 0x100000;

/// Width of one packed-key digit.
pub const KEY_RADIX: u64 = 0x200000;

pub open spec fn spec_in_key_range(c: ChunkPos) -> bool {
    -KEY_SPAN <= c.x < KEY_SPAN && -KEY_SPAN <= c.y < KEY_SPAN && -KEY_SPAN <= c.z < KEY_SPAN
}

pub fn in_key_range(c: ChunkPos) -> (r: bool)
    ensures
        r == spec_in_key_range(c),
{
    -KEY_SPAN <= c.x && c.x < KEY_SPAN && -KEY_SPAN <= c.y && c.y < KEY_SPAN && -KEY_SPAN <= c.z
        && c.z < KEY_SPAN
}

/// The packed key of a chunk coordinate: three 21-bit digits.
pub open spec fn spec_key(c: ChunkPos) -> int {
    (c.x + KEY_SPAN) * (KEY_RADIX * KEY_RADIX) + (c.y + KEY_SPAN) * KEY_RADIX + (c.z + KEY_SPAN)
}

pub open spec fn spec_chunk_of(x: int, y: int, z: int) -> ChunkPos {
    ChunkPos { x: (x / 16) as i64, y: (y / 16) as i64, z: (z / 16) as i64 }
}

/// Linear index of a local cell: x-major, then y, then z.
pub open spec fn spec_lin(lx: int, ly: int, lz: int) -> int {
    lx * 256 + ly * 16 + lz
}

/// Linear index of the local cell of a global position.
pub open spec fn spec_cell_index(x: int, y: int, z: int) -> int {
    spec_lin(x % 16, y % 16, z % 16)
}

pub proof fn lemma_cell_index_bounds(x: int, y: int, z: int)
    ensures
        0 <= spec_cell_index(x, y, z) < 4096,
{
    lemma_fundamental_div_mod(x, 16);
    lemma_fundamental_div_mod(y, 16);
    lemma_fundamental_div_mod(z, 16);
}

/// Floor division by a positive divisor, matching the mathematical `/` of
/// specifications.
pub fn floor_div(a: i64, d: i64) -> (q: i64)
    requires
        0 < d,
    ensures
        q == a as int / d as int,
{
    if a >= 0 {
        proof {
            lemma_fundamental_div_mod(a as int, d as int);
        }
        ((a as u64) / (d as u64)) as i64
    } else {
        let m: u64 = (-(a + 1)) as u64;
        let q0: u64 = m / (d as u64);
        proof {
            let mi: int = m as int;
            let di: int = d as int;
            let q: int = -(mi / di) - 1;
            let r: int = di - 1 - mi % di;
            lemma_fundamental_div_mod(mi, di);
            assert(a as int == q * di + r) by (nonlinear_arith)
                requires
                    mi == di * (mi / di) + mi % di,
                    a as int == -mi - 1,
                    q == -(mi / di) - 1,
                    r == di - 1 - mi % di,
            ;
            lemma_fundamental_div_mod_converse(a as int, di, q, r);
        }
        -(q0 as i64) - 1
    }
}

/// Floor division by a positive divisor never grows a value's magnitude.
pub proof fn lemma_div_magnitude(a: int, d: int)
    requires
        1 <= d,
    ensures
        a >= 0 ==> 0 <= a / d <= a,
        a < 0 ==> a <= a / d <= 0,
{
    lemma_fundamental_div_mod(a, d);
    vstd::arithmetic::div_mod::lemma_mod_bound(a, d);
    assert((a >= 0 ==> 0 <= a / d <= a) && (a < 0 ==> a <= a / d <= 0)) by (nonlinear_arith)
        requires
            a == d * (a / d) + a % d,
            0 <= a % d < d,
            1 <= d,
    ;
}

/// Splits one axis value into its chunk coordinate and local index.
pub fn split_axis(v: i64) -> (r: (i64, i64))
    ensures
        r.0 == v as int / 16,
        r.1 == v as int % 16,
        0 <= r.1 < 16,
        v == 16 * r.0 + r.1,
{
    let q: i64 = if v >= 0 {
        ((v as u64) / 16) as i64
    } else {
        let m: u64 = (-(v + 1)) as u64;
        -((m / 16) as i64) - 1
    };
    proof {
        if v >= 0 {
            lemma_fundamental_div_mod(v as int, 16);
        } else {
            let m: int = -(v as int) - 1;
            lemma_fundamental_div_mod(m, 16);
            // v == 16 * (-(m/16) - 1) + (15 - m % 16), and the remainder is in [0,16)
            lemma_fundamental_div_mod_converse(v as int, 16, -(m / 16) - 1, 15 - m % 16);
        }
    }
    let l: i64 = v - 16 * q;
    (q, l)
}

/// Resolves a global cell position to its owning chunk coordinate and the
/// cell's local index inside that chunk.
pub fn chunk_and_block_index(x: i64, y: i64, z: i64) -> (r: (ChunkPos, LocalPos))
    ensures
        r.0 == spec_chunk_of(x as int, y as int, z as int),
        r.1.x == x as int % 16,
        r.1.y == y as int % 16,
        r.1.z == z as int % 16,
        r.1.x < 16 && r.1.y < 16 && r.1.z < 16,
{
    let (cx, lx) = split_axis(x);
    let (cy, ly) = split_axis(y);
    let (cz, lz) = split_axis(z);
    (
        ChunkPos { x: cx, y: cy, z: cz },
        LocalPos { x: lx as usize, y: ly as usize, z: lz as usize },
    )
}

/// Linear index of a local cell.
pub fn lin_index(l: LocalPos) -> (r: usize)
    requires
        l.x < 16,
        l.y < 16,
        l.z < 16,
    ensures
        r == spec_lin(l.x as int, l.y as int, l.z as int),
        r < 4096,
{
    l.x * 256 + l.y * 16 + l.z
}

/// Packs a chunk coordinate into the key the chunk store uses.
pub fn chunk_key(c: ChunkPos) -> (r: u64)
    requires
        spec_in_key_range(c),
    ensures
        r == spec_key(c),
{
    let a: u64 = (c.x + KEY_SPAN) as u64;
    let b: u64 = (c.y + KEY_SPAN) as u64;
    let d: u64 = (c.z + KEY_SPAN) as u64;
    proof {
        assert(a * 0x40000000000 <= 0x1fffff * 0x40000000000) by (nonlinear_arith)
            requires
                a <= 0x1fffff,
        ;
        assert(b * 0x200000 <= 0x1fffff * 0x200000) by (nonlinear_arith)
            requires
                b <= 0x1fffff,
        ;
    }
    a * (KEY_RADIX * KEY_RADIX) + b * KEY_RADIX + d
}

/// Distinct in-range coordinates pack to distinct keys.
pub proof fn lemma_key_injective_ne(c1: ChunkPos, c2: ChunkPos)
    requires
        spec_in_key_range(c1),
        spec_in_key_range(c2),
        c1 != c2,
    ensures
        spec_key(c1) != spec_key(c2),
{
    if spec_key(c1) == spec_key(c2) {
        lemma_key_injective(c1, c2);
    }
}

/// Packed keys are injective: equal keys come from equal coordinates.
pub proof fn lemma_key_injective(c1: ChunkPos, c2: ChunkPos)
    requires
        spec_in_key_range(c1),
        spec_in_key_range(c2),
        spec_key(c1) == spec_key(c2),
    ensures
        c1 == c2,
{
    let m: int = KEY_RADIX as int;
    let a1: int = c1.x + KEY_SPAN;
    let b1: int = c1.y + KEY_SPAN;
    let d1: int = c1.z + KEY_SPAN;
    let a2: int = c2.x + KEY_SPAN;
    let b2: int = c2.y + KEY_SPAN;
    let d2: int = c2.z + KEY_SPAN;
    let k: int = spec_key(c1);
    assert(k == (a1 * m + b1) * m + d1) by (nonlinear_arith)
        requires
            k == a1 * (m * m) + b1 * m + d1,
    ;
    assert(k == (a2 * m + b2) * m + d2) by (nonlinear_arith)
        requires
            k == a2 * (m * m) + b2 * m + d2,
    ;
    assert(0 <= a1 * m + b1 && 0 <= a2 * m + b2) by (nonlinear_arith)
        requires
            0 <= a1 < m,
            0 <= b1 < m,
            0 <= a2 < m,
            0 <= b2 < m,
    ;
    lemma_fundamental_div_mod_converse(k, m, a1 * m + b1, d1);
    lemma_fundamental_div_mod_converse(k, m, a2 * m + b2, d2);
    assert(a1 * m + b1 == a2 * m + b2);
    lemma_fundamental_div_mod_converse(a1 * m + b1, m, a1, b1);
    lemma_fundamental_div_mod_converse(a2 * m + b2, m, a2, b2);
}

} // verus!
