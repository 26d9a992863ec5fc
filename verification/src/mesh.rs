//! Integer layout of hexagon meshes: triangle indices of each tile, neighbour heights
//! read from a flat height table, and the rules for changing a mesh's layer count.
use vstd::prelude::*;

use crate::direction::{dir_q, dir_r, get_dir};
use crate::hex::{hex_layer, Hex, Hex32};
use crate::spiral::{hex_spiral_pos, hex_to_spiral_index, spiral_index, spiral_index_fits};

verus! {

/// Six corners and a centre make seven vertices per tile.
pub const VERTS_PER_TILE: usize = 7;

/// Six triangles of three vertices make one hexagon.
pub const INDICIES_PER_TILE: usize = 18;

/// The triangle indices of tile `i` in a mesh whose tiles each hold their centre vertex
/// first and their six corners after it: for each corner `c`, the triangle
/// `(centre, corner c, corner c + 1)`. Indices are converted to `i32` as `as` does.
pub fn tile_triangle_indices(i: usize) -> (res: Vec<i32>)
    requires
        7 * i + 7 <= usize::MAX,
    ensures
        res@.len() == 18,
        forall|c: int|
            0 <= c < 6 ==> {
                &&& #[trigger] res@[3 * c] == (7 * i) as i32
                &&& res@[3 * c + 1] == (7 * i + 1 + c) as i32
                &&& res@[3 * c + 2] == (7 * i + 1 + (c + 1) % 6) as i32
            },
{
    let vertex_index_start = i * VERTS_PER_TILE;
    let mut indicies: Vec<i32> = Vec::new();
    let mut c: usize = 0;
    while c < 6
        invariant
            0 <= c <= 6,
            vertex_index_start == 7 * i,
            7 * i + 7 <= usize::MAX,
            indicies@.len() == 3 * c,
            forall|e: int|
                0 <= e < c ==> {
                    &&& #[trigger] indicies@[3 * e] == (7 * i) as i32
                    &&& indicies@[3 * e + 1] == (7 * i + 1 + e) as i32
                    &&& indicies@[3 * e + 2] == (7 * i + 1 + (e + 1) % 6) as i32
                },
        decreases 6 - c,
    {
        let v1 = vertex_index_start + 1 + c;
        let v2 = vertex_index_start + 1 + (c + 1) % 6;
        let ghost before = indicies@;
        indicies.push(vertex_index_start as i32);
        indicies.push(v1 as i32);
        indicies.push(v2 as i32);
        proof {
            assert(indicies@ == before + seq![vertex_index_start as i32, v1 as i32, v2 as i32]);
            assert forall|e: int| 0 <= e < c + 1 implies {
                &&& #[trigger] indicies@[3 * e] == (7 * i) as i32
                &&& indicies@[3 * e + 1] == (7 * i + 1 + e) as i32
                &&& indicies@[3 * e + 2] == (7 * i + 1 + (e + 1) % 6) as i32
            } by {
                if e < c {
                    assert(3 * e + 2 < 3 * c);
                    assert(indicies@[3 * e] == before[3 * e]);
                    assert(indicies@[3 * e + 1] == before[3 * e + 1]);
                    assert(indicies@[3 * e + 2] == before[3 * e + 2]);
                }
            }
        }
        c = c + 1;
    }
    indicies
}

/// The triangle indices of tile `i` in a mesh whose tiles each hold their six corners
/// first and their centre vertex last: for each corner `c`, the triangle
/// `(centre, corner c, corner c + 1)`. Indices are converted to `i32` as `as` does.
pub fn tile_triangle_indices_centre_last(i: usize) -> (res: Vec<i32>)
    requires
        7 * i + 7 <= usize::MAX,
    ensures
        res@.len() == 18,
        forall|c: int|
            0 <= c < 6 ==> {
                &&& #[trigger] res@[3 * c] == (7 * i + 6) as i32
                &&& res@[3 * c + 1] == (7 * i + c) as i32
                &&& res@[3 * c + 2] == (7 * i + (c + 1) % 6) as i32
            },
{
    let vi_start = i * VERTS_PER_TILE;
    let vi_center = vi_start + 6;
    let mut indicies: Vec<i32> = Vec::new();
    let mut c: usize = 0;
    while c < 6
        invariant
            0 <= c <= 6,
            vi_start == 7 * i,
            vi_center == 7 * i + 6,
            7 * i + 7 <= usize::MAX,
            indicies@.len() == 3 * c,
            forall|e: int|
                0 <= e < c ==> {
                    &&& #[trigger] indicies@[3 * e] == (7 * i + 6) as i32
                    &&& indicies@[3 * e + 1] == (7 * i + e) as i32
                    &&& indicies@[3 * e + 2] == (7 * i + (e + 1) % 6) as i32
                },
        decreases 6 - c,
    {
        let v1 = vi_start + c;
        let v2 = vi_start + (c + 1) % 6;
        let ghost before = indicies@;
        indicies.push(vi_center as i32);
        indicies.push(v1 as i32);
        indicies.push(v2 as i32);
        proof {
            assert(indicies@ == before + seq![vi_center as i32, v1 as i32, v2 as i32]);
            let k = 3 * c as int;
            assert(indicies@[k] == (7 * i + 6) as i32);
            assert(indicies@[k + 1] == (7 * i + c) as i32);
            assert(indicies@[k + 2] == (7 * i + (c + 1) % 6) as i32);
            assert forall|e: int| 0 <= e < c + 1 implies {
                &&& #[trigger] indicies@[3 * e] == (7 * i + 6) as i32
                &&& indicies@[3 * e + 1] == (7 * i + e) as i32
                &&& indicies@[3 * e + 2] == (7 * i + (e + 1) % 6) as i32
            } by {
                if e < c {
                    assert(3 * e + 2 < 3 * c);
                    assert(indicies@[3 * e] == before[3 * e]);
                    assert(indicies@[3 * e + 1] == before[3 * e + 1]);
                    assert(indicies@[3 * e + 2] == before[3 * e + 2]);
                }
            }
        }
        c = c + 1;
    }
    indicies
}

/// The entry of `heights` at the spiral index of hexagon `(q, r)`, or 0 past its end.
pub open spec fn table_height(heights: Seq<i32>, q: int, r: int) -> i32 {
    let idx = spiral_index(hex_layer(q, r), hex_spiral_pos(q, r));
    if idx < heights.len() {
        heights[idx]
    } else {
        0
    }
}

/// Returns the heights of the six neighbours of tile `hex`, read from a height table
/// in spiral order; neighbours past the end of the table have height 0.
pub fn neighbor_heights_in(heightdata: &Vec<i32>, hex: Hex32) -> (res: Vec<i32>)
    requires
        forall|d: int|
            0 <= d < 6 ==> #[trigger] spiral_index_fits(hex.q + dir_q(d), hex.r + dir_r(d)),
    ensures
        res@.len() == 6,
        forall|d: int|
            0 <= d < 6 ==> #[trigger] res@[d] == table_height(
                heightdata@,
                hex.q + dir_q(d),
                hex.r + dir_r(d),
            ),
{
    let mut heights: Vec<i32> = Vec::new();
    let mut d: i32 = 0;
    while d < 6
        invariant
            0 <= d <= 6,
            heights@.len() == d,
            forall|d: int|
                0 <= d < 6 ==> #[trigger] spiral_index_fits(hex.q + dir_q(d), hex.r + dir_r(d)),
            forall|e: int|
                0 <= e < d ==> #[trigger] heights@[e] == table_height(
                    heightdata@,
                    hex.q + dir_q(e),
                    hex.r + dir_r(e),
                ),
        decreases 6 - d,
    {
        assert(spiral_index_fits(hex.q + dir_q(d as int), hex.r + dir_r(d as int)));
        assert((d as int) % 6 == d);
        let neighbor = hex + Hex::<i32>::from(get_dir(d));
        let index = hex_to_spiral_index(neighbor);
        let h = if index < heightdata.len() {
            heightdata[index]
        } else {
            0
        };
        heights.push(h);
        d = d + 1;
    }
    heights
}

/// The number of tiles of a mesh of `layers` layers.
pub fn mesh_tile_count(layers: u8) -> (res: usize)
    ensures
        res == 3 * (layers + 1) * layers + 1,
{
    let n = layers as usize;
    proof {
        assert(3 * (n + 1) * n + 1 <= 3 * 256 * 255 + 1) by (nonlinear_arith)
            requires
                n <= 255,
        ;
    }
    3 * (n + 1) * n + 1
}

/// The outcome of a request to change the number of layers a mesh renders.
#[derive(Debug, Clone, Copy, PartialEq, Eq)]
pub enum LayersChange {
    /// Refused: a negative number of layers.
    Negative,
    /// Refused: more layers than a `u8` holds.
    TooLarge,
    /// Refused: more layers than the grid of the given length holds.
    ExceedsGrid(i32),
    /// Accepted: the new number of layers, and whether it differs from the length of
    /// the grid (so that less of the grid is rendered).
    Accepted(u8, bool),
}

/// Decides a change of a mesh's number of layers to `new_layers`, for a mesh with a
/// grid of `grid_layers` layers, or without a grid.
pub fn check_mesh_layers(new_layers: i32, grid_layers: Option<i32>) -> (res: LayersChange)
    ensures
        new_layers < 0 ==> res == LayersChange::Negative,
        new_layers > 255 ==> res == LayersChange::TooLarge,
        0 <= new_layers <= 255 ==> match grid_layers {
            Some(g) => if g < new_layers {
                res == LayersChange::ExceedsGrid(g)
            } else {
                res == LayersChange::Accepted(new_layers as u8, g != new_layers)
            },
            None => res == LayersChange::Accepted(new_layers as u8, false),
        },
{
    if new_layers < 0 {
        LayersChange::Negative
    } else if new_layers > 255 {
        LayersChange::TooLarge
    } else {
        match grid_layers {
            Some(g) => if g < new_layers {
                LayersChange::ExceedsGrid(g)
            } else {
                LayersChange::Accepted(new_layers as u8, g != new_layers)
            },
            None => LayersChange::Accepted(new_layers as u8, false),
        }
    }
}

} // verus!
