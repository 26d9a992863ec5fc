//! Origins of grids placed on a grid of grids, and the laws that make neighbouring grids
//! fit together.
use vstd::prelude::*;

use crate::direction::{dir_q, dir_r, direction};
use crate::grid::{hex_index, neighbor_grid_dir, outside_layers};
use crate::hex::{cube_fits_i32, fits_i32, hex_layer, Hex};
use crate::spiral::{
    hex_spiral_pos, lemma_hex_to_spiral_to_hex, lemma_valid_ring_segment, segment_of,
    spiral_pos_wide, tile_count, trunc_rem,
};

verus! {

/// One axis of the origin of a grid of `n` layers whose super position lies `steps`
/// tiles along segment direction `a` of super layer `l`; `b` and `c` are the directions
/// two further on and two back, on the same axis.
pub open spec fn origin_axis(a: int, b: int, c: int, l: int, steps: int, n: int) -> int {
    a * l * (2 * n + 1) + b * steps * (2 * n + 1) + c * n * l + a * steps * n
}

/// Whether one axis of the origin formula can be evaluated, left to right, in `i32`.
pub open spec fn origin_axis_fits(a: int, b: int, c: int, l: int, steps: int, n: int) -> bool {
    let ls = 2 * n + 1;
    &&& fits_i32(a * l) && fits_i32(a * l * ls)
    &&& fits_i32(b * steps) && fits_i32(b * steps * ls)
    &&& fits_i32(c * n) && fits_i32(c * n * l)
    &&& fits_i32(a * steps) && fits_i32(a * steps * n)
    &&& fits_i32(a * l * ls + b * steps * ls)
    &&& fits_i32(a * l * ls + b * steps * ls + c * n * l)
    &&& fits_i32(a * l * ls + b * steps * ls + c * n * l + a * steps * n)
}

/// The segment of the super position `(sq, sr)` in its super layer.
pub open spec fn super_segment(sq: int, sr: int) -> int {
    segment_of(hex_layer(sq, sr), hex_spiral_pos(sq, sr))
}

/// The number of tiles the super position `(sq, sr)` lies along its segment.
pub open spec fn super_steps(sq: int, sr: int) -> int {
    trunc_rem(hex_spiral_pos(sq, sr), hex_layer(sq, sr))
}

/// The `q` coordinate of the origin of a grid of `n` layers at super position `(sq, sr)`;
/// the centre grid, at super position `(0, 0)`, has its origin at `(0, 0)`.
pub open spec fn origin_q(sq: int, sr: int, n: int) -> int {
    let seg = super_segment(sq, sr);
    if hex_layer(sq, sr) == 0 {
        0
    } else {
        origin_axis(
            dir_q(seg % 6),
            dir_q((seg + 2) % 6),
            dir_q((seg - 2) % 6),
            hex_layer(sq, sr),
            super_steps(sq, sr),
            n,
        )
    }
}

/// The `r` coordinate of the origin of a grid of `n` layers at super position `(sq, sr)`.
pub open spec fn origin_r(sq: int, sr: int, n: int) -> int {
    let seg = super_segment(sq, sr);
    if hex_layer(sq, sr) == 0 {
        0
    } else {
        origin_axis(
            dir_r(seg % 6),
            dir_r((seg + 2) % 6),
            dir_r((seg - 2) % 6),
            hex_layer(sq, sr),
            super_steps(sq, sr),
            n,
        )
    }
}

/// Whether the origin of a grid of `n` layers at super position `(sq, sr)` can be
/// computed: the super position's spiral position fits, and (outside the centre grid)
/// the formula does not overflow.
pub open spec fn origin_ok(sq: int, sr: int, n: int) -> bool {
    let seg = super_segment(sq, sr);
    let l = hex_layer(sq, sr);
    let steps = super_steps(sq, sr);
    &&& cube_fits_i32(sq, sr)
    &&& fits_i32(hex_spiral_pos(sq, sr))
    &&& l >= 1 ==> origin_axis_fits(
        dir_q(seg % 6),
        dir_q((seg + 2) % 6),
        dir_q((seg - 2) % 6),
        l,
        steps,
        n,
    )
    &&& l >= 1 ==> origin_axis_fits(
        dir_r(seg % 6),
        dir_r((seg + 2) % 6),
        dir_r((seg - 2) % 6),
        l,
        steps,
        n,
    )
}

/// Whether `x` is a value of `i32`.
fn fits_i32_wide(x: i64) -> (res: bool)
    ensures
        res == fits_i32(x as int),
{
    i32::MIN as i64 <= x && x <= i32::MAX as i64
}

/// Whether one axis of the origin formula can be evaluated in `i32`.
fn origin_axis_fits_check(a: i64, b: i64, c: i64, l: i64, steps: i64, n: i64) -> (res: bool)
    requires
        -2 <= a <= 2,
        -2 <= b <= 2,
        -2 <= c <= 2,
        1 <= l <= i32::MAX,
        0 <= steps < l,
        0 <= n <= 255,
    ensures
        res == origin_axis_fits(a as int, b as int, c as int, l as int, steps as int, n as int),
{
    let ls = 2 * n + 1;
    proof {
        assert(-0x100000000 <= a * l <= 0x100000000) by (nonlinear_arith)
            requires
                -2 <= a <= 2,
                1 <= l <= 0x7fffffff,
        ;
        assert(-0x40000000000 <= a * l * ls <= 0x40000000000) by (nonlinear_arith)
            requires
                -2 <= a <= 2,
                1 <= l <= 0x7fffffff,
                1 <= ls <= 511,
        ;
        assert(-0x100000000 <= b * steps <= 0x100000000) by (nonlinear_arith)
            requires
                -2 <= b <= 2,
                0 <= steps <= 0x7fffffff,
        ;
        assert(-0x40000000000 <= b * steps * ls <= 0x40000000000) by (nonlinear_arith)
            requires
                -2 <= b <= 2,
                0 <= steps <= 0x7fffffff,
                1 <= ls <= 511,
        ;
        assert(-512 <= c * n <= 512) by (nonlinear_arith)
            requires
                -2 <= c <= 2,
                0 <= n <= 255,
        ;
        assert(-0x40000000000 <= c * n * l <= 0x40000000000) by (nonlinear_arith)
            requires
                -2 <= c <= 2,
                0 <= n <= 255,
                1 <= l <= 0x7fffffff,
        ;
        assert(-0x100000000 <= a * steps <= 0x100000000) by (nonlinear_arith)
            requires
                -2 <= a <= 2,
                0 <= steps <= 0x7fffffff,
        ;
        assert(-0x40000000000 <= a * steps * n <= 0x40000000000) by (nonlinear_arith)
            requires
                -2 <= a <= 2,
                0 <= steps <= 0x7fffffff,
                0 <= n <= 255,
        ;
    }
    let t1 = a * l * ls;
    let t2 = b * steps * ls;
    let t3 = c * n * l;
    let t4 = a * steps * n;
    fits_i32_wide(a * l) && fits_i32_wide(t1) && fits_i32_wide(b * steps) && fits_i32_wide(t2)
        && fits_i32_wide(c * n) && fits_i32_wide(t3) && fits_i32_wide(a * steps) && fits_i32_wide(
        t4,
    ) && fits_i32_wide(t1 + t2) && fits_i32_wide(t1 + t2 + t3) && fits_i32_wide(t1 + t2 + t3 + t4)
}

/// Whether the origin of a grid of `n` layers at super position `(sq, sr)` can be
/// computed (what `calculate_origin` requires).
pub fn origin_ok_check(sq: i32, sr: i32, n: u8) -> (res: bool)
    ensures
        res == origin_ok(sq as int, sr as int, n as int),
{
    if sq == i32::MIN || sr == i32::MIN {
        return false;
    }
    let s = -(sq as i64) - (sr as i64);
    if s <= i32::MIN as i64 || s > i32::MAX as i64 {
        return false;
    }
    let pos = spiral_pos_wide(sq, sr);
    let l = Hex { q: sq, r: sr }.get_layer() as i64;
    if l < 1 {
        return true;
    }
    proof {
        lemma_hex_to_spiral_to_hex(sq as int, sr as int);
        lemma_valid_ring_segment(l as int, pos as int);
    }
    if pos > i32::MAX as i64 {
        return false;
    }
    let seg = pos / l;
    let steps = pos % l;
    let a = direction(seg as usize);
    let b = direction(((seg + 2) % 6) as usize);
    let c = direction(((seg + 4) % 6) as usize);
    proof {
        assert(seg % 6 == seg);
        assert((seg - 2) % 6 == (seg + 4) % 6);
        assert(-2 <= a.q <= 2 && -2 <= a.r <= 2);
    }
    origin_axis_fits_check(a.q as i64, b.q as i64, c.q as i64, l, steps, n as i64)
        && origin_axis_fits_check(a.r as i64, b.r as i64, c.r as i64, l, steps, n as i64)
}

/// The `q` coordinate of `q * (2n + 1, -n) + r * (n, n + 1)`: the lattice point of
/// grids of `n` layers at super position `(q, r)`.
pub open spec fn lattice_q(q: int, r: int, n: int) -> int {
    q * (2 * n + 1) + r * n
}

/// The `r` coordinate of the lattice point of grids of `n` layers at super position
/// `(q, r)`.
pub open spec fn lattice_r(q: int, r: int, n: int) -> int {
    -q * n + r * (n + 1)
}

/// The origin of a grid is linear in its super position: grids of `n` layers at super
/// position `(q, r)` have their centre at `q * (2n + 1, -n) + r * (n, n + 1)`.
#[verifier::spinoff_prover]
pub proof fn law_origin_is_lattice(sq: int, sr: int, n: int)
    ensures
        origin_q(sq, sr, n) == lattice_q(sq, sr, n),
        origin_r(sq, sr, n) == lattice_r(sq, sr, n),
{
    let l = hex_layer(sq, sr);
    if l == 0 {
        assert(sq == 0 && sr == 0);
        return;
    }
    let pos = hex_spiral_pos(sq, sr);
    lemma_hex_to_spiral_to_hex(sq, sr);
    crate::spiral::lemma_valid_ring_segment(l, pos);
    let k = segment_of(l, pos);
    let j = trunc_rem(pos, l);
    crate::spiral::lemma_spiral_at(l, pos, k, j);
    let x = l * n;
    let y = j * n;
    let seg = k;
    assert(super_steps(sq, sr) == j);
    assert(super_segment(sq, sr) == seg);
    assert(origin_q(sq, sr, n) == origin_axis(dir_q(seg % 6), dir_q((seg + 2) % 6), dir_q((seg - 2) % 6), l, j, n));
    assert(origin_r(sq, sr, n) == origin_axis(dir_r(seg % 6), dir_r((seg + 2) % 6), dir_r((seg - 2) % 6), l, j, n));
    if k == 0 {
        assert((k + 2) % 6 == 2 && (k - 2) % 6 == 4);
        assert(k % 6 == 0);
        lemma_origin_axis(0, 1, -1, l, j, n);
        lemma_origin_axis(-1, 0, 1, l, j, n);
        assert(origin_q(sq, sr, n) == origin_axis(0, 1, -1, l, j, n));
        assert(origin_r(sq, sr, n) == origin_axis(-1, 0, 1, l, j, n));
        assert(origin_q(sq, sr, n) == 2 * y + j - x);
        assert(origin_r(sq, sr, n) == -x - l - y);
        assert(lattice_q(sq, sr, n) == 2 * y + j - x) by (nonlinear_arith)
            requires
                sq == j,
                sr == -l,
                x == l * n,
                y == j * n,
        ;
        assert(lattice_r(sq, sr, n) == -x - l - y) by (nonlinear_arith)
            requires
                sq == j,
                sr == -l,
                x == l * n,
                y == j * n,
        ;
    } else if k == 1 {
        assert((k + 2) % 6 == 3 && (k - 2) % 6 == 5);
        assert(k % 6 == 1);
        lemma_origin_axis(1, 0, -1, l, j, n);
        lemma_origin_axis(-1, 1, 0, l, j, n);
        assert(origin_q(sq, sr, n) == origin_axis(1, 0, -1, l, j, n));
        assert(origin_r(sq, sr, n) == origin_axis(-1, 1, 0, l, j, n));
        assert(origin_q(sq, sr, n) == x + l + y);
        assert(origin_r(sq, sr, n) == -2 * x - l + y + j);
        assert(lattice_q(sq, sr, n) == x + l + y) by (nonlinear_arith)
            requires
                sq == l,
                sr == -l + j,
                x == l * n,
                y == j * n,
        ;
        assert(lattice_r(sq, sr, n) == -2 * x - l + y + j) by (nonlinear_arith)
            requires
                sq == l,
                sr == -l + j,
                x == l * n,
                y == j * n,
        ;
    } else if k == 2 {
        assert((k + 2) % 6 == 4 && (k - 2) % 6 == 0);
        assert(k % 6 == 2);
        lemma_origin_axis(1, -1, 0, l, j, n);
        lemma_origin_axis(0, 1, -1, l, j, n);
        assert(origin_q(sq, sr, n) == origin_axis(1, -1, 0, l, j, n));
        assert(origin_r(sq, sr, n) == origin_axis(0, 1, -1, l, j, n));
        assert(origin_q(sq, sr, n) == 2 * x + l - y - j);
        assert(origin_r(sq, sr, n) == 2 * y + j - x);
        assert(lattice_q(sq, sr, n) == 2 * x + l - y - j) by (nonlinear_arith)
            requires
                sq == l - j,
                sr == j,
                x == l * n,
                y == j * n,
        ;
        assert(lattice_r(sq, sr, n) == 2 * y + j - x) by (nonlinear_arith)
            requires
                sq == l - j,
                sr == j,
                x == l * n,
                y == j * n,
        ;
    } else if k == 3 {
        assert((k + 2) % 6 == 5 && (k - 2) % 6 == 1);
        assert(k % 6 == 3);
        lemma_origin_axis(0, -1, 1, l, j, n);
        lemma_origin_axis(1, 0, -1, l, j, n);
        assert(origin_q(sq, sr, n) == origin_axis(0, -1, 1, l, j, n));
        assert(origin_r(sq, sr, n) == origin_axis(1, 0, -1, l, j, n));
        assert(origin_q(sq, sr, n) == x - 2 * y - j);
        assert(origin_r(sq, sr, n) == x + l + y);
        assert(lattice_q(sq, sr, n) == x - 2 * y - j) by (nonlinear_arith)
            requires
                sq == -j,
                sr == l,
                x == l * n,
                y == j * n,
        ;
        assert(lattice_r(sq, sr, n) == x + l + y) by (nonlinear_arith)
            requires
                sq == -j,
                sr == l,
                x == l * n,
                y == j * n,
        ;
    } else if k == 4 {
        assert((k + 2) % 6 == 0 && (k - 2) % 6 == 2);
        assert(k % 6 == 4);
        lemma_origin_axis(-1, 0, 1, l, j, n);
        lemma_origin_axis(1, -1, 0, l, j, n);
        assert(origin_q(sq, sr, n) == origin_axis(-1, 0, 1, l, j, n));
        assert(origin_r(sq, sr, n) == origin_axis(1, -1, 0, l, j, n));
        assert(origin_q(sq, sr, n) == -x - l - y);
        assert(origin_r(sq, sr, n) == 2 * x + l - y - j);
        assert(lattice_q(sq, sr, n) == -x - l - y) by (nonlinear_arith)
            requires
                sq == -l,
                sr == l - j,
                x == l * n,
                y == j * n,
        ;
        assert(lattice_r(sq, sr, n) == 2 * x + l - y - j) by (nonlinear_arith)
            requires
                sq == -l,
                sr == l - j,
                x == l * n,
                y == j * n,
        ;
    } else {
        assert((k + 2) % 6 == 1 && (k - 2) % 6 == 3);
        assert(k % 6 == 5);
        lemma_origin_axis(-1, 1, 0, l, j, n);
        lemma_origin_axis(0, -1, 1, l, j, n);
        assert(origin_q(sq, sr, n) == origin_axis(-1, 1, 0, l, j, n));
        assert(origin_r(sq, sr, n) == origin_axis(0, -1, 1, l, j, n));
        assert(origin_q(sq, sr, n) == -2 * x - l + y + j);
        assert(origin_r(sq, sr, n) == x - 2 * y - j);
        assert(lattice_q(sq, sr, n) == -2 * x - l + y + j) by (nonlinear_arith)
            requires
                sq == -l + j,
                sr == -j,
                x == l * n,
                y == j * n,
        ;
        assert(lattice_r(sq, sr, n) == x - 2 * y - j) by (nonlinear_arith)
            requires
                sq == -l + j,
                sr == -j,
                x == l * n,
                y == j * n,
        ;
    }
}

/// The lattice offset is additive in the super position.
proof fn lemma_lattice_additive(a: int, b: int, c: int, e: int, n: int)
    ensures
        lattice_q(a + c, b + e, n) == lattice_q(a, b, n) + lattice_q(c, e, n),
        lattice_r(a + c, b + e, n) == lattice_r(a, b, n) + lattice_r(c, e, n),
{
    assert(lattice_q(a + c, b + e, n) == lattice_q(a, b, n) + lattice_q(c, e, n))
        by (nonlinear_arith);
    assert(lattice_r(a + c, b + e, n) == lattice_r(a, b, n) + lattice_r(c, e, n))
        by (nonlinear_arith);
}

/// Grids of `n` layers at super positions `P` and `P + dir(k)` are neighbours: when a
/// border tile of the grid at `P` has its neighbour in direction `d` outside of the grid,
/// and `k` is the neighbouring grid's direction reported for it, then the neighbour's
/// coordinates converted into the grid at `P + dir(k)` (adding the origin of `P`,
/// subtracting that of `P + dir(k)`) lie within `n` layers, and so its spiral index is
/// below the tile count of a grid of `n` layers.
pub proof fn law_border_neighbor_found_in_neighbor_grid(
    pq: int,
    pr: int,
    q: int,
    r: int,
    d: int,
    n: int,
)
    requires
        n >= 0,
        0 <= d < 6,
        hex_layer(q, r) <= n,
        outside_layers(q + dir_q(d), r + dir_r(d), n),
    ensures
        ({
            let k = neighbor_grid_dir(q, r, d);
            let lq = q + dir_q(d) + origin_q(pq, pr, n) - origin_q(pq + dir_q(k), pr + dir_r(k), n);
            let lr = r + dir_r(d) + origin_r(pq, pr, n) - origin_r(pq + dir_q(k), pr + dir_r(k), n);
            &&& hex_layer(lq, lr) <= n
            &&& hex_index(lq, lr) < tile_count(n)
        }),
{
    let k = neighbor_grid_dir(q, r, d);
    law_origin_is_lattice(pq, pr, n);
    law_origin_is_lattice(pq + dir_q(k), pr + dir_r(k), n);
    lemma_lattice_additive(pq, pr, dir_q(k), dir_r(k), n);
    law_border_neighbor_in_adjacent_grid(q, r, d, n);
    let lq = q + dir_q(d) + origin_q(pq, pr, n) - origin_q(pq + dir_q(k), pr + dir_r(k), n);
    let lr = r + dir_r(d) + origin_r(pq, pr, n) - origin_r(pq + dir_q(k), pr + dir_r(k), n);
    crate::spiral::law_layer_bound_iff_index_bound(lq, lr, n);
}

/// The origin formula, expanded over the products `l * n` and `steps * n`.
proof fn lemma_origin_axis(a: int, b: int, c: int, l: int, steps: int, n: int)
    ensures
        origin_axis(a, b, c, l, steps, n) == a * (2 * (l * n) + l) + b * (2 * (steps * n)
            + steps) + c * (l * n) + a * (steps * n),
{
    assert(a * l * (2 * n + 1) == a * (2 * (l * n) + l)) by (nonlinear_arith);
    assert(b * steps * (2 * n + 1) == b * (2 * (steps * n) + steps)) by (nonlinear_arith);
    assert(c * n * l == c * (l * n)) by (nonlinear_arith);
    assert(a * steps * n == a * (steps * n)) by (nonlinear_arith);
}

/// A tile of a grid of `n` layers whose neighbour in direction `d` lies outside the
/// grid: that neighbour lies within the grid in direction `neighbor_grid_dir`, at the
/// local coordinates obtained by subtracting that grid's lattice offset.
pub proof fn law_border_neighbor_in_adjacent_grid(q: int, r: int, d: int, n: int)
    requires
        n >= 0,
        0 <= d < 6,
        hex_layer(q, r) <= n,
        outside_layers(q + dir_q(d), r + dir_r(d), n),
    ensures
        ({
            let k = neighbor_grid_dir(q, r, d);
            hex_layer(
                q + dir_q(d) - lattice_q(dir_q(k), dir_r(k), n),
                r + dir_r(d) - lattice_r(dir_q(k), dir_r(k), n),
            ) <= n
        }),
{
    let k = neighbor_grid_dir(q, r, d);
    assert(0 <= k < 6);
    if k == 0 {
        assert(lattice_q(0, -1, n) == -n && lattice_r(0, -1, n) == -n - 1);
    } else if k == 1 {
        assert(lattice_q(1, -1, n) == n + 1 && lattice_r(1, -1, n) == -2 * n - 1);
    } else if k == 2 {
        assert(lattice_q(1, 0, n) == 2 * n + 1 && lattice_r(1, 0, n) == -n);
    } else if k == 3 {
        assert(lattice_q(0, 1, n) == n && lattice_r(0, 1, n) == n + 1);
    } else if k == 4 {
        assert(lattice_q(-1, 1, n) == -n - 1 && lattice_r(-1, 1, n) == 2 * n + 1);
    } else {
        assert(lattice_q(-1, 0, n) == -2 * n - 1 && lattice_r(-1, 0, n) == n);
    }
}

/// A hexagon lies outside the `n` layers around the origin exactly when its layer
/// (its distance to the origin) exceeds `n`.
pub proof fn law_outside_layers_is_distance(q: int, r: int, n: int)
    ensures
        outside_layers(q, r, n) <==> hex_layer(q, r) > n,
{
}

} // verus!
