//! Spiral indexing of a hexagonal grid.
//!
//! Tile 0 is the origin; the tiles of layer `l >= 1` follow, `6 * l` of them, starting
//! at `l` steps in direction 0 from the origin and walking the ring in six segments of
//! `l` tiles. A [`Spiral`] holds a layer and a position within the layer.
use vstd::prelude::*;

use crate::direction::{dir_q, dir_r, get_dir};
use crate::hex::{cube_fits_i32, fits_i32, hex_layer, int_abs, Hex, Hex32};

verus! {

/// Rust's integer division, which rounds toward zero.
pub open spec fn trunc_div(a: int, b: int) -> int {
    if a >= 0 {
        a / b
    } else {
        -((-a) / b)
    }
}

/// Rust's integer remainder, which takes the sign of the dividend.
pub open spec fn trunc_rem(a: int, b: int) -> int {
    if a >= 0 {
        a % b
    } else {
        -((-a) % b)
    }
}

/// The segment (side of the hexagonal ring) of position `pos` in layer `layer`.
pub open spec fn segment_of(layer: int, pos: int) -> int {
    if layer <= 0 {
        0
    } else {
        trunc_div(pos, layer)
    }
}

/// The `q` coordinate of the tile at position `pos` in layer `layer`:
/// `layer` steps along the segment's direction, then `pos % layer` steps along the
/// direction two further on.
pub open spec fn spiral_q(layer: int, pos: int) -> int {
    let seg = segment_of(layer, pos);
    dir_q(seg % 6) * layer + dir_q((seg + 2) % 6) * trunc_rem(pos, layer)
}

/// The `r` coordinate of the tile at position `pos` in layer `layer`.
pub open spec fn spiral_r(layer: int, pos: int) -> int {
    let seg = segment_of(layer, pos);
    dir_r(seg % 6) * layer + dir_r((seg + 2) % 6) * trunc_rem(pos, layer)
}

/// Whether `(layer, pos)` names a tile of a ring: a layer of at least one, and a
/// position within the `6 * layer` tiles of that ring.
pub open spec fn valid_ring_pos(layer: int, pos: int) -> bool {
    layer >= 1 && 0 <= pos < 6 * layer
}

/// The position of the hexagon `(q, r)` within its layer.
pub open spec fn hex_spiral_pos(q: int, r: int) -> int {
    let l = hex_layer(q, r);
    let s = -q - r;
    if l <= 0 {
        0
    } else if r == -l {
        q
    } else if q == l {
        l - s
    } else if s == -l {
        2 * l + r
    } else if r == l {
        3 * l - q
    } else if q == -l {
        4 * l + s
    } else {
        5 * l - r
    }
}

/// The number of tiles in the layers before `layer`, including the origin tile.
pub open spec fn tiles_before(layer: int) -> int {
    3 * layer * (layer - 1) + 1
}

/// The number of tiles in a hexagon made of `layers` rings around the origin tile.
pub open spec fn tile_count(layers: int) -> int {
    3 * (layers + 1) * layers + 1
}

/// The spiral index of position `pos` in layer `layer`.
pub open spec fn spiral_index(layer: int, pos: int) -> int {
    if layer <= 0 {
        0
    } else {
        tiles_before(layer) + pos
    }
}

/// Whether the tile with spiral index `i` lies in layer `l`.
pub open spec fn in_layer(l: int, i: int) -> bool {
    l >= 1 && 3 * (l - 1) * l < i <= 3 * l * (l + 1)
}

/// The layer of the tile with spiral index `i` (for `i >= 1`).
pub open spec fn index_layer(i: int) -> int {
    choose|l: int| #[trigger] in_layer(l, i)
}

/// The position within its layer of the tile with spiral index `i` (for `i >= 1`).
pub open spec fn index_pos(i: int) -> int {
    i - tiles_before(index_layer(i))
}

/// The `q` coordinate of the tile with spiral index `i`.
pub open spec fn index_q(i: int) -> int {
    if i <= 0 {
        0
    } else {
        spiral_q(index_layer(i), index_pos(i))
    }
}

/// The `r` coordinate of the tile with spiral index `i`.
pub open spec fn index_r(i: int) -> int {
    if i <= 0 {
        0
    } else {
        spiral_r(index_layer(i), index_pos(i))
    }
}

/// Every positive index lies in some layer.
proof fn lemma_index_layer_exists(i: int)
    requires
        i >= 1,
    ensures
        exists|l: int| #[trigger] in_layer(l, i),
    decreases i,
{
    if i == 1 {
        assert(in_layer(1, 1));
    } else {
        let prev = i - 1;
        lemma_index_layer_exists(prev);
        let l = choose|l: int| #[trigger] in_layer(l, prev);
        if i <= 3 * l * (l + 1) {
            assert(in_layer(l, i));
        } else {
            assert(3 * l * (l + 1) == 3 * ((l + 1) - 1) * (l + 1)) by (nonlinear_arith);
            assert(3 * l * (l + 1) < 3 * (l + 1) * (l + 2)) by (nonlinear_arith)
                requires
                    l >= 1,
            ;
            assert(in_layer(l + 1, i));
        }
    }
}

/// An index lies in at most one layer.
proof fn lemma_in_layer_unique(l1: int, l2: int, i: int)
    requires
        in_layer(l1, i),
        in_layer(l2, i),
    ensures
        l1 == l2,
{
    if l1 < l2 {
        assert(3 * l1 * (l1 + 1) <= 3 * (l2 - 1) * l2) by (nonlinear_arith)
            requires
                1 <= l1 <= l2 - 1,
        ;
    } else if l2 < l1 {
        assert(3 * l2 * (l2 + 1) <= 3 * (l1 - 1) * l1) by (nonlinear_arith)
            requires
                1 <= l2 <= l1 - 1,
        ;
    }
}

/// The layer of a positive index is the one layer that holds it.
pub proof fn lemma_index_layer(i: int)
    requires
        i >= 1,
    ensures
        in_layer(index_layer(i), i),
        forall|l: int| #[trigger] in_layer(l, i) ==> l == index_layer(i),
{
    lemma_index_layer_exists(i);
    assert forall|l: int| #[trigger] in_layer(l, i) implies l == index_layer(i) by {
        lemma_in_layer_unique(l, index_layer(i), i);
    }
}

/// A position of a layer, split into its segment `k` and the steps `j` along it.
proof fn lemma_segment(l: int, pos: int, k: int, j: int)
    requires
        l >= 1,
        0 <= j < l,
        0 <= k,
        pos == k * l + j,
    ensures
        segment_of(l, pos) == k,
        trunc_rem(pos, l) == j,
{
    assert(pos >= 0) by (nonlinear_arith)
        requires
            l >= 1,
            0 <= j,
            0 <= k,
            pos == k * l + j,
    ;
    vstd::arithmetic::div_mod::lemma_fundamental_div_mod_converse(pos, l, k, j);
}

/// The coordinates of the tile `j` steps along segment `k` of layer `l`.
pub proof fn lemma_spiral_at(l: int, pos: int, k: int, j: int)
    requires
        l >= 1,
        0 <= j < l,
        0 <= k < 6,
        pos == k * l + j,
    ensures
        k == 0 ==> spiral_q(l, pos) == j && spiral_r(l, pos) == -l,
        k == 1 ==> spiral_q(l, pos) == l && spiral_r(l, pos) == -l + j,
        k == 2 ==> spiral_q(l, pos) == l - j && spiral_r(l, pos) == j,
        k == 3 ==> spiral_q(l, pos) == -j && spiral_r(l, pos) == l,
        k == 4 ==> spiral_q(l, pos) == -l && spiral_r(l, pos) == l - j,
        k == 5 ==> spiral_q(l, pos) == -l + j && spiral_r(l, pos) == -j,
{
    lemma_segment(l, pos, k, j);
    assert(k % 6 == k);
    if k == 0 {
        assert((k + 2) % 6 == 2);
    } else if k == 1 {
        assert((k + 2) % 6 == 3);
    } else if k == 2 {
        assert((k + 2) % 6 == 4);
    } else if k == 3 {
        assert((k + 2) % 6 == 5);
    } else if k == 4 {
        assert((k + 2) % 6 == 0);
    } else {
        assert((k + 2) % 6 == 1);
    }
}

/// The tile at a valid position of a layer lies in that layer, at that position.
pub proof fn lemma_spiral_to_hex_to_spiral(l: int, pos: int)
    requires
        valid_ring_pos(l, pos),
    ensures
        hex_layer(spiral_q(l, pos), spiral_r(l, pos)) == l,
        hex_spiral_pos(spiral_q(l, pos), spiral_r(l, pos)) == pos,
{
    lemma_valid_ring_segment(l, pos);
    lemma_spiral_at(l, pos, segment_of(l, pos), trunc_rem(pos, l));
}

/// A hexagon of layer at least one sits at a valid position of its layer, and the tile
/// at that position is the hexagon itself.
pub proof fn lemma_hex_to_spiral_to_hex(q: int, r: int)
    requires
        hex_layer(q, r) >= 1,
    ensures
        valid_ring_pos(hex_layer(q, r), hex_spiral_pos(q, r)),
        spiral_q(hex_layer(q, r), hex_spiral_pos(q, r)) == q,
        spiral_r(hex_layer(q, r), hex_spiral_pos(q, r)) == r,
{
    let l = hex_layer(q, r);
    let s = -q - r;
    let pos = hex_spiral_pos(q, r);
    if r == -l {
        if q < l {
            lemma_spiral_at(l, pos, 0, q);
        } else {
            lemma_spiral_at(l, pos, 1, 0);
        }
    } else if q == l {
        if r < 0 {
            lemma_spiral_at(l, pos, 1, l + r);
        } else {
            lemma_spiral_at(l, pos, 2, 0);
        }
    } else if s == -l {
        if r < l {
            lemma_spiral_at(l, pos, 2, r);
        } else {
            lemma_spiral_at(l, pos, 3, 0);
        }
    } else if r == l {
        if q > -l {
            lemma_spiral_at(l, pos, 3, -q);
        } else {
            lemma_spiral_at(l, pos, 4, 0);
        }
    } else if q == -l {
        if s < l {
            lemma_spiral_at(l, pos, 4, s);
        } else {
            lemma_spiral_at(l, pos, 5, 0);
        }
    } else {
        lemma_spiral_at(l, pos, 5, -r);
    }
}

/// The spiral index of a valid ring position lies in that ring.
pub proof fn lemma_spiral_index_in_layer(l: int, pos: int)
    requires
        valid_ring_pos(l, pos),
    ensures
        in_layer(l, spiral_index(l, pos)),
        index_layer(spiral_index(l, pos)) == l,
        index_pos(spiral_index(l, pos)) == pos,
{
    assert(3 * l * (l + 1) == 3 * l * (l - 1) + 6 * l) by (nonlinear_arith);
    assert(3 * (l - 1) * l == 3 * l * (l - 1)) by (nonlinear_arith);
    assert(in_layer(l, spiral_index(l, pos)));
    lemma_index_layer(spiral_index(l, pos));
}

/// A position in a hexagonal ring, with the layer (ring) counted from the origin tile.
#[derive(Debug, Clone, Copy, PartialEq, Eq)]
pub struct Spiral {
    pub layer: i32,
    pub posision: i32,
}

/// The segment of a valid ring position is one of the six, and the position lies
/// `trunc_rem` steps along it.
pub proof fn lemma_valid_ring_segment(l: int, pos: int)
    requires
        valid_ring_pos(l, pos),
    ensures
        0 <= segment_of(l, pos) < 6,
        0 <= trunc_rem(pos, l) < l,
        pos == segment_of(l, pos) * l + trunc_rem(pos, l),
{
    let k = pos / l;
    let j = pos % l;
    vstd::arithmetic::div_mod::lemma_fundamental_div_mod(pos, l);
    assert(0 <= k < 6) by (nonlinear_arith)
        requires
            pos == l * k + j,
            0 <= j < l,
            0 <= pos < 6 * l,
    ;
    assert(pos == k * l + j) by (nonlinear_arith)
        requires
            pos == l * k + j,
    ;
    lemma_segment(l, pos, k, j);
}

/// Floor square root of a `u64`, by `num::integer::Roots::sqrt`.
/// num documents it as the truncated principal square root `r` of `x`, with
/// `r * r <= x < (r + 1) * (r + 1)`; for an unsigned integer it does not panic.
#[verifier::external_body]
fn floor_sqrt(x: u64) -> (r: u64)
    ensures
        r * r <= x < (r + 1) * (r + 1),
{
    num::integer::Roots::sqrt(&x)
}

impl Spiral {
    /// The segment (one of the six sides of the ring) that holds this position.
    pub open spec fn segment_spec(self) -> int {
        segment_of(self.layer as int, self.posision as int)
    }

    /// Returns the segment (one of the six sides of the ring) that holds this position;
    /// 0 for the origin layer.
    pub fn segment(self) -> (res: i32)
        ensures
            res == self.segment_spec(),
    {
        if self.layer <= 0 {
            return 0;
        }
        self.posision / self.layer
    }

    /// Returns the number of steps along the current segment.
    pub fn s_posision(&self) -> (res: i32)
        requires
            self.layer != 0,
            !(self.posision == i32::MIN && self.layer == -1),
        ensures
            res == trunc_rem(self.posision as int, self.layer as int),
    {
        self.posision % self.layer
    }

    /// Returns the number of tiles in this layer.
    pub fn layer_len(&self) -> (res: i32)
        requires
            fits_i32(self.layer * 6),
        ensures
            res == self.layer * 6,
    {
        self.layer * 6
    }

    /// Changes the Spiral posision by steps, and wraps the result into the layer.
    pub fn rotate_tiles(&mut self, steps: i32)
        requires
            old(self).layer > 0,
            fits_i32(old(self).layer * 6),
            fits_i32(old(self).posision + steps),
        ensures
            final(self).layer == old(self).layer,
            final(self).posision == (old(self).posision + steps) % (old(self).layer * 6),
    {
        let len = self.layer_len();
        let p = self.posision + steps;
        if p >= 0 {
            self.posision = p % len;
        } else {
            let m = (-(p + 1)) % len;
            proof {
                let a = -(p as int + 1);
                vstd::arithmetic::div_mod::lemma_fundamental_div_mod(a, len as int);
                let k = a / (len as int);
                assert(p as int == (-k - 1) * (len as int) + (len - 1 - m)) by (nonlinear_arith)
                    requires
                        a == (len as int) * k + m,
                        a == -(p as int + 1),
                ;
                vstd::arithmetic::div_mod::lemma_fundamental_div_mod_converse(
                    p as int,
                    len as int,
                    -k - 1,
                    len - 1 - m,
                );
            }
            self.posision = len - 1 - m;
        }
    }

    /// Changes the posision by whole edges of the hexagon.
    pub fn rotate_hex(&mut self, seg_steps: i32)
        requires
            old(self).layer > 0,
            fits_i32(old(self).layer * 6),
            fits_i32(seg_steps * old(self).layer),
            fits_i32(old(self).posision + seg_steps * old(self).layer),
        ensures
            final(self).layer == old(self).layer,
            final(self).posision == (old(self).posision + seg_steps * old(self).layer) % (old(
                self,
            ).layer * 6),
    {
        let steps = seg_steps * self.layer;
        self.rotate_tiles(steps);
    }

    /// The spiral position of the tile with spiral index `index`.
    pub fn from_index(index: usize) -> (res: Spiral)
        requires
            index <= i32::MAX,
        ensures
            index == 0 ==> res == (Spiral { layer: 0, posision: 0 }),
            index > 0 ==> res.layer == index_layer(index as int) && res.posision == index_pos(
                index as int,
            ),
            index > 0 ==> valid_ring_pos(res.layer as int, res.posision as int),
    {
        if index == 0 {
            return Spiral { layer: 0, posision: 0 };
        }
        let v = index as u64;
        let x = 12 * v + 9;
        let s = floor_sqrt(x);
        proof {
            assert(s >= 4) by (nonlinear_arith)
                requires
                    x < (s + 1) * (s + 1),
                    x >= 21,
            ;
            assert(s < 0x28000) by (nonlinear_arith)
                requires
                    s * s <= x,
                    x <= 12 * 0x7fffffff + 9,
            ;
        }
        let l0 = (s - 3) / 6;
        proof {
            let ls = l0 as int;
            assert(6 * ls + 3 <= s && s <= 6 * ls + 8);
            assert(3 * ls * (ls + 1) <= v) by (nonlinear_arith)
                requires
                    6 * ls + 3 <= s,
                    ls >= 0,
                    s * s <= 12 * v + 9,
            ;
            assert(v < 3 * (ls + 1) * (ls + 2)) by (nonlinear_arith)
                requires
                    s <= 6 * ls + 8,
                    ls >= 0,
                    12 * v + 9 < (s + 1) * (s + 1),
            ;
            assert(l0 < 0x8000);
            assert(3 * l0 * (l0 + 1) < 0x100000000) by (nonlinear_arith)
                requires
                    l0 < 0x8000,
            ;
        }
        let l = if 3 * l0 * (l0 + 1) >= v {
            l0
        } else {
            l0 + 1
        };
        proof {
            let li = l as int;
            if l == l0 {
                assert(li >= 1) by (nonlinear_arith)
                    requires
                        li == l0,
                        3 * l0 * (l0 + 1) >= v,
                        v >= 1,
                        l0 >= 0,
                ;
                assert(3 * (li - 1) * li < 3 * li * (li + 1)) by (nonlinear_arith)
                    requires
                        li >= 1,
                ;
            } else {
                assert(3 * (li - 1) * li == 3 * (l0 as int) * (l0 + 1)) by (nonlinear_arith)
                    requires
                        li == l0 + 1,
                ;
                assert(3 * li * (li + 1) == 3 * (l0 as int + 1) * (l0 + 2)) by (nonlinear_arith)
                    requires
                        li == l0 + 1,
                ;
            }
            assert(in_layer(li, v as int));
            lemma_index_layer(v as int);
            assert(li < 0x10000) by (nonlinear_arith)
                requires
                    3 * (li - 1) * li < v,
                    v <= 0x7fffffff,
                    li >= 1,
            ;
            assert(3 * (li - 1) * li < 0x80000000);
            assert(3 * li * (li - 1) == 3 * (li - 1) * li) by (nonlinear_arith);
            assert(3 * li <= 0x30000);
            assert(3 * li * (li + 1) == tiles_before(li) + 6 * li - 1) by (nonlinear_arith);
        }
        let layer = l as i32;
        let posision = index as i32 - (3 * layer * (layer - 1) + 1);
        Spiral { layer, posision }
    }
}

/// Returns the hexagon of the tile with spiral index `index`.
pub fn spiral_index_to_hex(index: usize) -> (res: Hex32)
    requires
        index <= i32::MAX,
    ensures
        res.q == index_q(index as int),
        res.r == index_r(index as int),
{
    if index == 0 {
        return Hex { q: 0, r: 0 };
    }
    let spiral = Spiral::from_index(index);
    proof {
        let l = spiral.layer as int;
        let pos = spiral.posision as int;
        lemma_index_layer(index as int);
        assert(l < 0x10000) by (nonlinear_arith)
            requires
                3 * (l - 1) * l < index,
                index <= 0x7fffffff,
                l >= 1,
        ;
        lemma_spiral_to_hex_to_spiral(l, pos);
        lemma_spiral_layer_bound(l, pos);
    }
    spiral_to_hex(spiral)
}

/// The tile at a valid ring position lies within twice the layer on each axis,
/// and its segment is one of the six.
proof fn lemma_spiral_layer_bound(l: int, pos: int)
    requires
        valid_ring_pos(l, pos),
    ensures
        0 <= segment_of(l, pos) < 6,
        int_abs(spiral_q(l, pos)) <= l,
        int_abs(spiral_r(l, pos)) <= l,
{
    lemma_spiral_to_hex_to_spiral(l, pos);
    lemma_valid_ring_segment(l, pos);
}

/// Whether `spiral_to_hex` can compute the tile at position `pos` of layer `layer`
/// without dividing by zero or overflowing `i32`: the layer is not 0, the remainder
/// `pos % layer` exists, the segment two further on can be named, and the products and
/// the sum of the two steps fit.
pub open spec fn spiral_to_hex_ok(layer: int, pos: int) -> bool {
    let seg = segment_of(layer, pos);
    &&& layer != 0
    &&& !(pos == i32::MIN && layer == -1)
    &&& seg + 2 <= i32::MAX
    &&& fits_i32(dir_q(seg % 6) * layer)
    &&& fits_i32(dir_r(seg % 6) * layer)
    &&& fits_i32(spiral_q(layer, pos))
    &&& fits_i32(spiral_r(layer, pos))
}

/// Returns the hexagon of the tile at the given spiral position.
pub fn spiral_to_hex(spiral: Spiral) -> (res: Hex32)
    requires
        spiral_to_hex_ok(spiral.layer as int, spiral.posision as int),
    ensures
        res.q == spiral_q(spiral.layer as int, spiral.posision as int),
        res.r == spiral_r(spiral.layer as int, spiral.posision as int),
{
    let seg = spiral.segment();
    //hex direction from center tile to segment start
    let d1: Hex32 = Hex::<i32>::from(get_dir(seg));
    //Hex direction following segment positive direction
    let d2: Hex32 = Hex::<i32>::from(get_dir(seg + 2));
    let rem = spiral.s_posision();
    proof {
        let l = spiral.layer as int;
        let p = spiral.posision as int;
        let la = int_abs(l);
        if p >= 0 {
            assert(0 <= p % l < la) by (nonlinear_arith)
                requires
                    l != 0,
                    la == int_abs(l),
            ;
        } else {
            assert(0 <= (-p) % l < la) by (nonlinear_arith)
                requires
                    l != 0,
                    la == int_abs(l),
            ;
        }
        assert(-la < rem < la);
        assert(-1 <= d2.q <= 1 && -1 <= d2.r <= 1);
        assert(-la < d2.q * rem < la && -la < d2.r * rem < la) by (nonlinear_arith)
            requires
                -1 <= d2.q <= 1,
                -1 <= d2.r <= 1,
                -la < rem < la,
        ;
    }
    d1 * spiral.layer + d2 * rem
}

/// Returns the spiral position of a hexagon. The result is always `Ok` for `i32`
/// coordinates.
pub fn hex_to_spiral(hex: Hex32) -> (res: Result<Spiral, ()>)
    requires
        cube_fits_i32(hex.q as int, hex.r as int),
        fits_i32(hex_spiral_pos(hex.q as int, hex.r as int)),
    ensures
        res == Ok::<Spiral, ()>(
            Spiral {
                layer: hex_layer(hex.q as int, hex.r as int) as i32,
                posision: hex_spiral_pos(hex.q as int, hex.r as int) as i32,
            },
        ),
{
    let layer = hex.get_layer();
    if layer <= 0 {
        return Ok(Spiral { layer, posision: 0 });
    }
    let q = hex.q;
    let r = hex.r;
    let s = hex.s();
    let l = layer;
    // Determine the segment index (0-5) and the position within that segment (segpos).
    // This is based on which coordinate equals either `layer` (l) or `-layer` (-l),
    // which always happens for one coordinate. In a corner, where two coordinates match,
    // the first matching case is selected; both produce the same position.
    let (segment, segpos): (i32, i32) = if r == -l {
        (0, q)
    } else if q == l {
        (1, -s)
    } else if s == -l {
        (2, r)
    } else if r == l {
        (3, -q)
    } else if q == -l {
        (4, s)
    } else {
        (5, -r)
    };
    proof {
        assert(0 <= segpos <= l);
        assert(l * segment <= l * 5) by (nonlinear_arith)
            requires
                0 <= segment <= 5,
                l > 0,
        ;
        assert(l * segment >= 0) by (nonlinear_arith)
            requires
                0 <= segment <= 5,
                l > 0,
        ;
        assert(l * segment + segpos == hex_spiral_pos(q as int, r as int)) by (nonlinear_arith)
            requires
                segment == 0 ==> segpos + 0 == hex_spiral_pos(q as int, r as int),
                segment == 1 ==> segpos + l == hex_spiral_pos(q as int, r as int),
                segment == 2 ==> segpos + 2 * l == hex_spiral_pos(q as int, r as int),
                segment == 3 ==> segpos + 3 * l == hex_spiral_pos(q as int, r as int),
                segment == 4 ==> segpos + 4 * l == hex_spiral_pos(q as int, r as int),
                segment == 5 ==> segpos + 5 * l == hex_spiral_pos(q as int, r as int),
                0 <= segment <= 5,
        ;
    }
    let posision = l * segment + segpos;
    Ok(Spiral { layer: l, posision })
}

/// Returns the spiral position of a hexagon with 64 bit coordinates, or `Err` when its
/// layer does not fit in `i32`.
pub fn hex_to_spiral_wide(hex: Hex<i64>) -> (res: Result<Spiral, ()>)
    requires
        i64::MIN < hex.q,
        i64::MIN < hex.r,
        i64::MIN < -hex.q - hex.r <= i64::MAX,
        hex_layer(hex.q as int, hex.r as int) <= i32::MAX ==> fits_i32(
            hex_spiral_pos(hex.q as int, hex.r as int),
        ),
    ensures
        res is Err <==> hex_layer(hex.q as int, hex.r as int) > i32::MAX,
        res is Ok ==> res == Ok::<Spiral, ()>(
            Spiral {
                layer: hex_layer(hex.q as int, hex.r as int) as i32,
                posision: hex_spiral_pos(hex.q as int, hex.r as int) as i32,
            },
        ),
{
    let s = -hex.q - hex.r;
    let aq = if hex.q < 0 { -hex.q } else { hex.q };
    let ar = if hex.r < 0 { -hex.r } else { hex.r };
    let a_s = if s < 0 { -s } else { s };
    let layer = if a_s < aq {
        if aq < ar { ar } else { aq }
    } else {
        if a_s < ar { ar } else { a_s }
    };
    if layer > i32::MAX as i64 {
        return Err(());
    }
    hex_to_spiral(Hex { q: hex.q as i32, r: hex.r as i32 })
}

/// Whether the spiral index of `(q, r)` can be computed in `i32` arithmetic.
pub open spec fn spiral_index_fits(q: int, r: int) -> bool {
    &&& cube_fits_i32(q, r)
    &&& fits_i32(hex_spiral_pos(q, r))
    &&& fits_i32(3 * hex_layer(q, r) * (hex_layer(q, r) - 1))
    &&& fits_i32(spiral_index(hex_layer(q, r), hex_spiral_pos(q, r)))
}

/// Returns the spiral index of a hexagon.
pub fn hex_to_spiral_index(hex: Hex32) -> (res: usize)
    requires
        spiral_index_fits(hex.q as int, hex.r as int),
    ensures
        res == spiral_index(hex_layer(hex.q as int, hex.r as int), hex_spiral_pos(hex.q as int, hex.r as int)),
{
    let tryspiral = hex_to_spiral(hex);
    let spiral = match tryspiral {
        Ok(val) => val,
        Err(_) => Spiral { layer: 0, posision: 0 },
    };
    if spiral.layer <= 0 {
        return 0;
    }
    proof {
        let l = spiral.layer as int;
        lemma_hex_to_spiral_to_hex(hex.q as int, hex.r as int);
        assert(3 * l * (l - 1) >= 0) by (nonlinear_arith)
            requires
                l >= 1,
        ;
        assert(l == hex_layer(hex.q as int, hex.r as int));
        assert(3 * l <= 0x7fffffff) by (nonlinear_arith)
            requires
                l >= 1,
                3 * l * (l - 1) <= 0x7fffffff,
        ;
    }
    //deconstruct layer to number of tiles before layer. Add posision. There's the index.
    let index = 3 * spiral.layer * (spiral.layer - 1) + 1 + spiral.posision;
    index as usize
}

/// Returns the spiral index of a hexagon with 64 bit coordinates. Its coordinates and
/// its index must fit in `i32`, as for `hex_to_spiral_index`.
pub fn hex_to_spiral_index_wide(hex: Hex<i64>) -> (res: usize)
    requires
        spiral_index_fits(hex.q as int, hex.r as int),
    ensures
        res == spiral_index(hex_layer(hex.q as int, hex.r as int), hex_spiral_pos(hex.q as int, hex.r as int)),
{
    hex_to_spiral_index(Hex { q: hex.q as i32, r: hex.r as i32 })
}

/// The position of hexagon `(q, r)` within its layer, computed in `i64` so that it
/// cannot overflow.
pub fn spiral_pos_wide(q: i32, r: i32) -> (res: i64)
    requires
        cube_fits_i32(q as int, r as int),
    ensures
        res == hex_spiral_pos(q as int, r as int),
{
    let l = Hex { q, r }.get_layer() as i64;
    let q = q as i64;
    let r = r as i64;
    let s = -q - r;
    if l <= 0 {
        0
    } else if r == -l {
        q
    } else if q == l {
        l - s
    } else if s == -l {
        2 * l + r
    } else if r == l {
        3 * l - q
    } else if q == -l {
        4 * l + s
    } else {
        5 * l - r
    }
}

/// Whether `hex_to_spiral_index` accepts the hexagon `(q, r)`: whether its spiral index
/// can be computed in `i32` arithmetic.
pub fn spiral_index_fits_check(q: i32, r: i32) -> (res: bool)
    ensures
        res == spiral_index_fits(q as int, r as int),
{
    if q == i32::MIN || r == i32::MIN {
        return false;
    }
    let s = -(q as i64) - (r as i64);
    if s <= i32::MIN as i64 || s > i32::MAX as i64 {
        return false;
    }
    let pos = spiral_pos_wide(q, r);
    if pos < i32::MIN as i64 || pos > i32::MAX as i64 {
        return false;
    }
    let l = Hex { q, r }.get_layer() as i128;
    proof {
        assert(0 <= l <= 0x7fffffff);
        assert(3 * l * (l - 1) <= 3 * 0x7fffffff * 0x7fffffff) by (nonlinear_arith)
            requires
                0 <= l <= 0x7fffffff,
        ;
        assert(3 * l * (l - 1) >= -3 * 0x7fffffff) by (nonlinear_arith)
            requires
                0 <= l <= 0x7fffffff,
        ;
    }
    let t = 3 * l * (l - 1);
    if t < i32::MIN as i128 || t > i32::MAX as i128 {
        return false;
    }
    let index: i128 = if l <= 0 {
        0
    } else {
        t + 1 + pos as i128
    };
    i32::MIN as i128 <= index && index <= i32::MAX as i128
}

/// Walking the spiral and reading the index back gives the index walked: for every
/// index that `spiral_index_to_hex` accepts, `hex_to_spiral_index` accepts its hexagon
/// and returns the index.
pub proof fn law_index_to_hex_to_index(i: int)
    requires
        0 <= i <= i32::MAX,
    ensures
        spiral_index_fits(index_q(i), index_r(i)),
        spiral_index(
            hex_layer(index_q(i), index_r(i)),
            hex_spiral_pos(index_q(i), index_r(i)),
        ) == i,
        i >= 1 ==> hex_layer(index_q(i), index_r(i)) == index_layer(i),
        i >= 1 ==> hex_spiral_pos(index_q(i), index_r(i)) == index_pos(i),
{
    if i >= 1 {
        lemma_index_layer(i);
        let l = index_layer(i);
        let pos = index_pos(i);
        assert(3 * l * (l - 1) == 3 * (l - 1) * l) by (nonlinear_arith);
        assert(3 * l * (l + 1) == 3 * (l - 1) * l + 6 * l) by (nonlinear_arith);
        assert(valid_ring_pos(l, pos));
        lemma_spiral_to_hex_to_spiral(l, pos);
        assert(l < 0x10000) by (nonlinear_arith)
            requires
                3 * (l - 1) * l < i,
                i <= 0x7fffffff,
                l >= 1,
        ;
        let q = index_q(i);
        let r = index_r(i);
        assert(q == spiral_q(l, pos) && r == spiral_r(l, pos));
        assert(hex_layer(q, r) == l);
        assert(int_abs(q) <= l && int_abs(r) <= l && int_abs(-q - r) <= l);
        assert(cube_fits_i32(q, r));
        assert(hex_spiral_pos(q, r) == pos);
        assert(spiral_index(l, pos) == i);
        assert(fits_i32(pos));
        assert(fits_i32(3 * l * (l - 1)));
        assert(spiral_index_fits(q, r));
    } else {
        assert(hex_layer(0, 0) == 0);
        assert(hex_spiral_pos(0, 0) == 0);
        assert(3 * 0 * (0 - 1) == 0);
        assert(spiral_index_fits(0, 0));
    }
}

/// In a corner of a ring two of the six cases that place a hexagon on its ring apply;
/// both give the same position, except in the corner between the last segment and the
/// first, where the last segment's case gives the position one full ring (`6 * l`)
/// further on and the first segment's case, which is the one taken, gives the position
/// itself.
pub proof fn law_corner_positions_agree(q: int, r: int)
    requires
        hex_layer(q, r) >= 1,
    ensures
        ({
            let l = hex_layer(q, r);
            let s = -q - r;
            &&& (r == -l && q == l) ==> q == l - s
            &&& (q == l && s == -l) ==> l - s == 2 * l + r
            &&& (s == -l && r == l) ==> 2 * l + r == 3 * l - q
            &&& (r == l && q == -l) ==> 3 * l - q == 4 * l + s
            &&& (q == -l && s == l) ==> 4 * l + s == 5 * l - r
            &&& (s == l && r == -l) ==> q + 6 * l == 5 * l - r
        }),
{
}

/// Reading a hexagon's spiral index and walking the spiral to it gives the hexagon
/// back: for every hexagon that `hex_to_spiral_index` accepts, `spiral_index_to_hex`
/// accepts its index and returns the hexagon.
pub proof fn law_hex_to_index_to_hex(q: int, r: int)
    requires
        spiral_index_fits(q, r),
    ensures
        0 <= spiral_index(hex_layer(q, r), hex_spiral_pos(q, r)) <= i32::MAX,
        index_q(spiral_index(hex_layer(q, r), hex_spiral_pos(q, r))) == q,
        index_r(spiral_index(hex_layer(q, r), hex_spiral_pos(q, r))) == r,
{
    let l = hex_layer(q, r);
    if l >= 1 {
        lemma_hex_to_spiral_to_hex(q, r);
        lemma_spiral_index_in_layer(l, hex_spiral_pos(q, r));
    }
}

/// A hexagon lies within `n` layers of the origin exactly when its spiral index is
/// below the tile count of an `n`-layer grid.
pub proof fn law_layer_bound_iff_index_bound(q: int, r: int, n: int)
    requires
        n >= 0,
    ensures
        hex_layer(q, r) <= n <==> spiral_index(hex_layer(q, r), hex_spiral_pos(q, r))
            < tile_count(n),
{
    let l = hex_layer(q, r);
    let pos = hex_spiral_pos(q, r);
    if l >= 1 {
        lemma_hex_to_spiral_to_hex(q, r);
        assert(tiles_before(l) + pos < tile_count(l)) by (nonlinear_arith)
            requires
                0 <= pos < 6 * l,
        ;
        if l <= n {
            assert(tile_count(l) <= tile_count(n)) by (nonlinear_arith)
                requires
                    1 <= l <= n,
            ;
        } else {
            assert(tile_count(n) <= tiles_before(l)) by (nonlinear_arith)
                requires
                    0 <= n <= l - 1,
            ;
        }
    } else {
        assert(tile_count(n) >= 1) by (nonlinear_arith)
            requires
                n >= 0,
        ;
    }
}

/// Rotating a spiral position by `a` tiles and then by `b` tiles is the same as
/// rotating it by `a + b` tiles.
pub proof fn law_rotate_tiles_compose(layer: int, pos: int, a: int, b: int)
    requires
        layer > 0,
    ensures
        ((pos + a) % (layer * 6) + b) % (layer * 6) == (pos + a + b) % (layer * 6),
{
    let m = layer * 6;
    vstd::arithmetic::div_mod::lemma_add_mod_noop(pos + a, b, m);
    vstd::arithmetic::div_mod::lemma_add_mod_noop((pos + a) % m, b, m);
    vstd::arithmetic::div_mod::lemma_mod_twice(pos + a, m);
}

/// Rotating a position of a ring by a whole ring (six edges) leaves it where it was.
pub proof fn law_rotate_full_ring(layer: int, pos: int)
    requires
        valid_ring_pos(layer, pos),
    ensures
        (pos + 6 * layer) % (layer * 6) == pos,
{
    vstd::arithmetic::div_mod::lemma_mod_add_multiples_vanish(pos, layer * 6);
    vstd::arithmetic::div_mod::lemma_small_mod(pos as nat, (layer * 6) as nat);
}

/// The spiral walks each ring tile by tile: position 0 of layer `l` lies `l` steps in
/// direction 0 from the origin, position 1 one step from it in direction 2, and each
/// position of the ring is a neighbour (at distance 1) of the position after it, the
/// last one of the first.
pub proof fn law_spiral_ring_walk(l: int, pos: int)
    requires
        valid_ring_pos(l, pos),
    ensures
        spiral_q(l, 0) == 0 && spiral_r(l, 0) == -l,
        spiral_q(l, 1) - spiral_q(l, 0) == dir_q(2) && spiral_r(l, 1) - spiral_r(l, 0) == dir_r(2),
        ({
            let next = (pos + 1) % (6 * l);
            hex_layer(spiral_q(l, next) - spiral_q(l, pos), spiral_r(l, next) - spiral_r(l, pos))
                == 1
        }),
{
    lemma_spiral_at(l, 0, 0, 0);
    if l == 1 {
        lemma_spiral_at(l, 1, 1, 0);
    } else {
        lemma_spiral_at(l, 1, 0, 1);
    }
    lemma_valid_ring_segment(l, pos);
    let k = segment_of(l, pos);
    let j = trunc_rem(pos, l);
    lemma_spiral_at(l, pos, k, j);
    let next = (pos + 1) % (6 * l);
    if pos + 1 < 6 * l {
        vstd::arithmetic::div_mod::lemma_small_mod((pos + 1) as nat, (6 * l) as nat);
        assert(next == pos + 1);
        if j + 1 < l {
            lemma_spiral_at(l, pos + 1, k, j + 1);
        } else {
            assert(pos + 1 == (k + 1) * l + 0) by (nonlinear_arith)
                requires
                    pos == k * l + j,
                    j + 1 == l,
            ;
            assert(k + 1 < 6) by (nonlinear_arith)
                requires
                    pos + 1 == (k + 1) * l,
                    pos + 1 < 6 * l,
                    l >= 1,
            ;
            lemma_spiral_at(l, pos + 1, k + 1, 0);
        }
    } else {
        vstd::arithmetic::div_mod::lemma_mod_self_0(6 * l);
        assert(next == 0);
        assert(k == 5 && j == l - 1) by (nonlinear_arith)
            requires
                pos == k * l + j,
                pos + 1 == 6 * l,
                0 <= j < l,
                0 <= k < 6,
        ;
    }
}

/// Rust's truncating division: quotient and remainder recompose the dividend, the
/// remainder is smaller in size than the divisor and takes the dividend's sign, so the
/// quotient rounds toward zero.
pub proof fn law_trunc_div_rem(a: int, b: int)
    requires
        b != 0,
    ensures
        trunc_div(a, b) * b + trunc_rem(a, b) == a,
        int_abs(trunc_rem(a, b)) < int_abs(b),
        a >= 0 ==> trunc_rem(a, b) >= 0,
        a < 0 ==> trunc_rem(a, b) <= 0,
{
    if a >= 0 {
        vstd::arithmetic::div_mod::lemma_fundamental_div_mod(a, b);
        assert(0 <= a % b < int_abs(b)) by (nonlinear_arith)
            requires
                b != 0,
        ;
        assert(b * (a / b) == (a / b) * b) by (nonlinear_arith);
    } else {
        vstd::arithmetic::div_mod::lemma_fundamental_div_mod(-a, b);
        assert(0 <= (-a) % b < int_abs(b)) by (nonlinear_arith)
            requires
                b != 0,
        ;
        assert(b * ((-a) / b) == ((-a) / b) * b) by (nonlinear_arith);
        assert((-((-a) / b)) * b == -(((-a) / b) * b)) by (nonlinear_arith);
    }
}

} // verus!
