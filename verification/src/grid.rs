//! A hexagonal grid of tiles stored in spiral order, with one height per tile.
//!
//! Grids are themselves placed on a hexagonal grid of grids: the super position of a
//! grid is its coordinate in that grid of grids, and its origin is the global
//! coordinate of its centre tile.
use vstd::prelude::*;

use crate::direction::{dir_q, dir_r, direction, get_dir};
use crate::hex::{abs_i32, fits_i32, hex_layer, int_abs, Hex, Hex32};
use crate::origin::{origin_ok, origin_ok_check, origin_q, origin_r};
use crate::sample::{
    clamp_i32, get_height_by_sample, tile_sample, tile_sample_ok, tile_sample_ok_check, tile_window,
};
use crate::spiral::{
    hex_spiral_pos, hex_to_spiral, hex_to_spiral_index, lemma_hex_to_spiral_to_hex, spiral_index,
    spiral_index_fits, spiral_index_fits_check, tile_count, Spiral,
};

verus! {

/// Whether hexagon `(q, r)` lies outside the `n` layers around the origin tile.
pub open spec fn outside_layers(q: int, r: int, n: int) -> bool {
    int_abs(q) > n || int_abs(r) > n || int_abs(-q - r) > n
}

/// The direction index of the neighbouring grid that holds the neighbour in direction
/// `d` of the tile `(q, r)` at the border of its grid.
pub open spec fn neighbor_grid_dir(q: int, r: int, d: int) -> int {
    let s = -q - r;
    let n_dir = if d == 0 {
        if q <= 0 {
            d
        } else {
            d + 1
        }
    } else if d == 1 {
        if s >= 0 {
            d
        } else {
            d + 1
        }
    } else if d == 2 {
        if r <= 0 {
            d
        } else {
            d + 1
        }
    } else if d == 3 {
        if q >= 0 {
            d
        } else {
            d + 1
        }
    } else if d == 4 {
        if s <= 0 {
            d
        } else {
            d + 1
        }
    } else {
        if r >= 0 {
            d
        } else {
            d + 1
        }
    };
    n_dir % 6
}

/// Whether the neighbour in direction `d` of tile `(q, r)` can be classified in a grid of
/// `n` layers without overflow (following the order in which the checks are made).
pub open spec fn neighbor_ok(q: int, r: int, d: int, n: int) -> bool {
    let nq = q + dir_q(d);
    let nr = r + dir_r(d);
    &&& fits_i32(nq) && fits_i32(nr)
    &&& nq != i32::MIN
    &&& int_abs(nq) <= n ==> nr != i32::MIN
    &&& (int_abs(nq) <= n && int_abs(nr) <= n) ==> fits_i32(-nq - nr) && -nq - nr != i32::MIN
    &&& (outside_layers(nq, nr, n) && (d == 1 || d == 4)) ==> q != i32::MIN && fits_i32(-q - r)
}

/// A hexagonal grid of `num_layers` layers around a centre tile, holding one height per
/// tile in spiral order, with the raw image its heights are sampled from.
#[derive(Clone, Debug)]
pub struct SpiralHexGrid {
    data: Vec<u8>,
    super_pos: Hex32,
    num_layers: u8,
    raw_heightdata: Vec<u8>,
    raw_width: i32,
    raw_height: i32,
}

impl SpiralHexGrid {
    /// The grid holds one height per tile.
    pub open spec fn wf(&self) -> bool {
        self.heights().len() == tile_count(self.layers() as int)
    }

    /// The tile heights, in spiral order.
    pub closed spec fn heights(&self) -> Seq<u8> {
        self.data@
    }

    /// The number of layers around the centre tile.
    pub closed spec fn layers(&self) -> u8 {
        self.num_layers
    }

    /// The position of this grid in the grid of grids.
    pub closed spec fn super_position(&self) -> Hex32 {
        self.super_pos
    }

    /// The raw image bytes that heights are sampled from.
    pub closed spec fn raw_data(&self) -> Seq<u8> {
        self.raw_heightdata@
    }

    /// The size in pixels of the raw image.
    pub closed spec fn raw_dims(&self) -> (i32, i32) {
        (self.raw_width, self.raw_height)
    }

    /// A grid of a single tile of height 0 at super position (0, 0), with a 1 by 1
    /// raw image that holds no data.
    pub fn new() -> (res: Self)
        ensures
            res.wf(),
            res.heights().len() == tile_count(0),
            res.heights() == seq![0u8],
            res.layers() == 0,
            res.super_position() == (Hex::<i32> { q: 0, r: 0 }),
            res.raw_data() == Seq::<u8>::empty(),
            res.raw_dims() == (1i32, 1i32),
    {
        let mut data: Vec<u8> = Vec::new();
        data.push(0);
        SpiralHexGrid {
            data,
            super_pos: Hex { q: 0, r: 0 },
            num_layers: 0,
            raw_heightdata: Vec::new(),
            raw_width: 1,
            raw_height: 1,
        }
    }

    /// Returns the number of layers.
    pub fn get_layers(&self) -> (res: i32)
        ensures
            res == self.layers(),
    {
        self.num_layers as i32
    }

    /// Returns the number of layers.
    pub fn _get_layers(&self) -> (res: u8)
        ensures
            res == self.layers(),
    {
        self.num_layers
    }

    /// Sets the number of layers to `layers` taken modulo 256, as `set_layers` of a `u8`.
    pub fn set_layers(&mut self, layers: i32)
        requires
            old(self).wf(),
        ensures
            final(self).wf(),
            final(self).layers() == layers as u8,
            final(self).heights().len() == tile_count((layers as u8) as int),
            final(self).super_position() == old(self).super_position(),
            final(self).raw_data() == old(self).raw_data(),
            final(self).raw_dims() == old(self).raw_dims(),
            forall|i: int|
                0 <= i < final(self).heights().len() ==> #[trigger] final(self).heights()[i] == (
                if i < old(self).heights().len() {
                    old(self).heights()[i]
                } else {
                    0u8
                }),
    {
        self._set_layers(layers as u8)
    }

    /// Sets the number of layers. Heights of the tiles that remain are kept; new tiles
    /// get height 0.
    pub fn _set_layers(&mut self, layers: u8)
        requires
            old(self).wf(),
        ensures
            final(self).wf(),
            final(self).layers() == layers,
            final(self).heights().len() == tile_count(layers as int),
            final(self).super_position() == old(self).super_position(),
            final(self).raw_data() == old(self).raw_data(),
            final(self).raw_dims() == old(self).raw_dims(),
            forall|i: int|
                0 <= i < final(self).heights().len() ==> #[trigger] final(self).heights()[i] == (
                if i < old(self).heights().len() {
                    old(self).heights()[i]
                } else {
                    0u8
                }),
    {
        self.num_layers = layers;
        let count = self._get_tile_count();
        self.data.resize(count, 0u8);
    }

    /// Returns the number of tiles.
    pub fn get_tile_count(&self) -> (res: i32)
        ensures
            res == tile_count(self.layers() as int),
    {
        let count = self._get_tile_count();
        proof {
            assert(count <= 3 * 256 * 255 + 1) by (nonlinear_arith)
                requires
                    count == 3 * (self.num_layers + 1) * self.num_layers + 1,
                    self.num_layers <= 255,
            ;
        }
        count as i32
    }

    /// Returns the number of tiles.
    pub fn _get_tile_count(&self) -> (res: usize)
        ensures
            res == tile_count(self.layers() as int),
    {
        let n = self.num_layers as usize;
        proof {
            assert(3 * (n + 1) * n + 1 <= 3 * 256 * 255 + 1) by (nonlinear_arith)
                requires
                    n <= 255,
            ;
        }
        3 * (n + 1) * n + 1
    }

    /// Sets the position of the super-hexagon, in relation to other super hexagons.
    /// This changes the origin, which is used to convert local coordinates to global
    /// coordinates.
    pub fn set_super_pos(&mut self, super_pos_q: i32, super_pos_r: i32)
        requires
            old(self).wf(),
        ensures
            final(self).wf(),
            final(self).super_position() == (Hex::<i32> { q: super_pos_q, r: super_pos_r }),
            final(self).heights() == old(self).heights(),
            final(self).layers() == old(self).layers(),
            final(self).raw_data() == old(self).raw_data(),
            final(self).raw_dims() == old(self).raw_dims(),
    {
        self.super_pos.q = super_pos_q;
        self.super_pos.r = super_pos_r;
    }

    /// Returns the origin (global coordinate of the centre tile) of a grid of this size
    /// at the super position `super_pos`; the centre grid, at super position (0, 0), has
    /// its origin at (0, 0).
    pub fn calculate_origin(&self, super_pos: Hex32) -> (res: Hex32)
        requires
            origin_ok(super_pos.q as int, super_pos.r as int, self.layers() as int),
        ensures
            res.q == origin_q(super_pos.q as int, super_pos.r as int, self.layers() as int),
            res.r == origin_r(super_pos.q as int, super_pos.r as int, self.layers() as int),
    {
        if super_pos.q == 0 && super_pos.r == 0 {
            //the centre grid: local coordinates are global ones.
            return Hex { q: 0, r: 0 };
        }
        //gather data to convert super posision to origin.
        let s_spiral = match hex_to_spiral(super_pos) {
            Ok(s) => s,
            Err(_) => Spiral { layer: 0, posision: 0 },
        };
        proof {
            lemma_hex_to_spiral_to_hex(super_pos.q as int, super_pos.r as int);
            crate::spiral::lemma_valid_ring_segment(s_spiral.layer as int, s_spiral.posision as int);
        }
        let seg = s_spiral.segment();
        let dir_seg: Hex32 = Hex::<i32>::from(get_dir(seg));
        let dir_seg_p2: Hex32 = Hex::<i32>::from(get_dir(seg + 2));
        let dir_seg_m2: Hex32 = Hex::<i32>::from(get_dir(seg - 2));

        //conversion constants
        let layer_scale = self.get_layers() * 2 + 1;
        let pos_scale = self.get_layers();
        let steps = s_spiral.s_posision();

        //calculate origin
        dir_seg * s_spiral.layer * layer_scale + dir_seg_p2 * steps * layer_scale + dir_seg_m2
            * self.get_layers() * s_spiral.layer + dir_seg * steps * pos_scale
    }

    /// Returns the origin (global coordinate of the centre tile) of this grid.
    pub fn origin(&self) -> (res: Hex32)
        requires
            origin_ok(self.super_position().q as int, self.super_position().r as int, self.layers() as int),
        ensures
            res.q == origin_q(self.super_position().q as int, self.super_position().r as int, self.layers() as int),
            res.r == origin_r(self.super_position().q as int, self.super_position().r as int, self.layers() as int),
    {
        self.calculate_origin(self.super_pos)
    }

    /// Returns the cube coordinates of the origin of this grid.
    pub fn origin_packed_array(&self) -> (res: [i32; 3])
        requires
            origin_ok(self.super_position().q as int, self.super_position().r as int, self.layers() as int),
            ({
                let oq = origin_q(self.super_position().q as int, self.super_position().r as int, self.layers() as int);
                let or = origin_r(self.super_position().q as int, self.super_position().r as int, self.layers() as int);
                oq != i32::MIN && fits_i32(-oq - or)
            }),
        ensures
            ({
                let oq = origin_q(self.super_position().q as int, self.super_position().r as int, self.layers() as int);
                let or = origin_r(self.super_position().q as int, self.super_position().r as int, self.layers() as int);
                res@ == seq![oq as i32, or as i32, (-oq - or) as i32]
            }),
    {
        self.origin().as_array()
    }

    /// Returns the cube coordinates of the super position of this grid.
    pub fn super_pos_packed_array(&self) -> (res: [i32; 3])
        requires
            self.super_position().s_fits(),
        ensures
            res@ == seq![
                self.super_position().q,
                self.super_position().r,
                (-self.super_position().q - self.super_position().r) as i32,
            ],
    {
        self.super_pos.as_array()
    }

    /// Returns the height of the tile with spiral index `index`, or 0 for an index
    /// outside of the grid.
    pub fn get_heightdata_at(&self, index: i32) -> (res: u8)
        requires
            self.wf(),
        ensures
            res == (if 0 <= index < self.heights().len() {
                self.heights()[index as int]
            } else {
                0u8
            }),
    {
        proof {
            assert(tile_count(self.num_layers as int) <= 3 * 256 * 255 + 1) by (nonlinear_arith)
                requires
                    self.num_layers <= 255,
            ;
        }
        if index < 0 || index >= self.data.len() as i32 {
            return 0;
        }
        self.data[index as usize]
    }

    /// Returns the heights of all tiles, in spiral order.
    pub fn get_heightdata(&self) -> (res: Vec<u8>)
        ensures
            res@ == self.heights(),
    {
        let mut ret: Vec<u8> = Vec::new();
        let mut i: usize = 0;
        while i < self.data.len()
            invariant
                i <= self.data.len(),
                ret@ == self.data@.subrange(0, i as int),
            decreases self.data.len() - i,
        {
            ret.push(self.data[i]);
            i = i + 1;
        }
        assert(ret@ == self.data@);
        ret
    }

    /// Returns the neighbours of a tile (presumed) in this grid, in the six flat-side
    /// directions. Each entry holds the neighbour's coordinates in local space and, for a
    /// neighbour outside of this grid's layers, the direction index of the neighbouring
    /// grid that holds it.
    pub fn get_neighbors_local(&self, target: Hex32) -> (res: Vec<(Hex32, Option<usize>)>)
        requires
            forall|d: int| 0 <= d < 6 ==> #[trigger] neighbor_ok(target.q as int, target.r as int, d, self.layers() as int),
        ensures
            res@.len() == 6,
            forall|d: int|
                0 <= d < 6 ==> {
                    let nq = target.q + dir_q(d);
                    let nr = target.r + dir_r(d);
                    &&& (#[trigger] res@[d]).0.q == nq
                    &&& res@[d].0.r == nr
                    &&& res@[d].1 == if outside_layers(nq, nr, self.layers() as int) {
                        Some(neighbor_grid_dir(target.q as int, target.r as int, d) as usize)
                    } else {
                        None
                    }
                },
    {
        let layers = self.num_layers as i32;
        let mut neighbors: Vec<(Hex32, Option<usize>)> = Vec::new();
        let mut d: i32 = 0;
        while d < 6
            invariant
                0 <= d <= 6,
                layers == self.layers(),
                neighbors@.len() == d,
                forall|d: int| 0 <= d < 6 ==> #[trigger] neighbor_ok(target.q as int, target.r as int, d, self.layers() as int),
                forall|e: int|
                    0 <= e < d ==> {
                        let nq = target.q + dir_q(e);
                        let nr = target.r + dir_r(e);
                        &&& (#[trigger] neighbors@[e]).0.q == nq
                        &&& neighbors@[e].0.r == nr
                        &&& neighbors@[e].1 == if outside_layers(nq, nr, self.layers() as int) {
                            Some(neighbor_grid_dir(target.q as int, target.r as int, e) as usize)
                        } else {
                            None
                        }
                    },
            decreases 6 - d,
        {
            assert(neighbor_ok(target.q as int, target.r as int, d as int, self.layers() as int));
            let dir = get_dir(d);
            assert((d as int) % 6 == d);
            let n: Hex32 = target + Hex::<i32>::from(dir);
            let outside = abs_i32(n.q) > layers || abs_i32(n.r) > layers || abs_i32(n.s()) > layers;
            let entry = if outside {
                //determine direction to grid hosting the neighboring tile
                //For each direction, there are two possible neighboring grids, depending on the tile's location.
                let n_dir = if d == 0 {
                    if target.q <= 0 { d } else { d + 1 }
                } else if d == 1 {
                    if target.s() >= 0 { d } else { d + 1 }
                } else if d == 2 {
                    if target.r <= 0 { d } else { d + 1 }
                } else if d == 3 {
                    if target.q >= 0 { d } else { d + 1 }
                } else if d == 4 {
                    if target.s() <= 0 { d } else { d + 1 }
                } else {
                    if target.r >= 0 { d } else { d + 1 }
                };
                (n, Some((n_dir % 6) as usize))
            } else {
                (n, None)
            };
            neighbors.push(entry);
            d = d + 1;
        }
        neighbors
    }
}

impl SpiralHexGrid {
    /// Stores the raw image that heights are sampled from: `data` holds the pixels of an
    /// image of `width` by `height` pixels, row by row, three bytes per pixel.
    pub fn set_raw_heightdata(&mut self, data: Vec<u8>, width: i32, height: i32)
        requires
            old(self).wf(),
        ensures
            final(self).wf(),
            final(self).raw_data() == data@,
            final(self).raw_dims() == (width, height),
            final(self).heights() == old(self).heights(),
            final(self).layers() == old(self).layers(),
            final(self).super_position() == old(self).super_position(),
    {
        self.raw_heightdata = data;
        self.raw_width = width;
        self.raw_height = height;
    }

    /// Samples the height of every tile from the raw image. `centers` holds, in spiral
    /// order, the pixel on which each tile is centred, and `sample` the size in pixels of
    /// the area sampled around it; the red byte of each pixel is its height.
    pub fn regenerate_from_centers(&mut self, centers: &Vec<(i32, i32)>, sample: (i32, i32))
        requires
            old(self).wf(),
            centers@.len() == old(self).heights().len(),
            old(self).raw_dims().0 >= 2,
            old(self).raw_dims().1 >= 2,
            forall|i: int|
                0 <= i < centers@.len() ==> #[trigger] tile_sample_ok(
                    old(self).raw_data(),
                    centers@[i].0 as int,
                    centers@[i].1 as int,
                    sample.0 as int,
                    sample.1 as int,
                    old(self).raw_dims().0 as int,
                    old(self).raw_dims().1 as int,
                ),
        ensures
            final(self).wf(),
            final(self).layers() == old(self).layers(),
            final(self).super_position() == old(self).super_position(),
            final(self).raw_data() == old(self).raw_data(),
            final(self).raw_dims() == old(self).raw_dims(),
            final(self).heights().len() == old(self).heights().len(),
            forall|i: int|
                0 <= i < final(self).heights().len() ==> #[trigger] final(self).heights()[i]
                    == tile_sample(
                    old(self).raw_data(),
                    centers@[i].0 as int,
                    centers@[i].1 as int,
                    sample.0 as int,
                    sample.1 as int,
                    old(self).raw_dims().0 as int,
                    old(self).raw_dims().1 as int,
                ),
    {
        let num_tiles = self._get_tile_count();
        //format is three bytes per pixel; the red channel holds the height.
        let num_chan: i32 = 3;
        let w = self.raw_width;
        let h = self.raw_height;
        let ghost old_self = *self;
        assert forall|k: int| 0 <= k < centers@.len() implies #[trigger] tile_sample_ok(
            self.raw_heightdata@,
            centers@[k].0 as int,
            centers@[k].1 as int,
            sample.0 as int,
            sample.1 as int,
            w as int,
            h as int,
        ) by {
            assert(tile_sample_ok(
                old(self).raw_data(),
                centers@[k].0 as int,
                centers@[k].1 as int,
                sample.0 as int,
                sample.1 as int,
                old(self).raw_dims().0 as int,
                old(self).raw_dims().1 as int,
            ));
        }
        let mut i: usize = 0;
        while i < num_tiles
            invariant
                0 <= i <= num_tiles,
                num_tiles == self.data@.len(),
                num_chan == 3,
                self.wf(),
                self.num_layers == old_self.num_layers,
                self.super_pos == old_self.super_pos,
                self.raw_heightdata@ == old_self.raw_heightdata@,
                self.raw_width == old_self.raw_width,
                self.raw_height == old_self.raw_height,
                w == self.raw_width,
                h == self.raw_height,
                w >= 2,
                h >= 2,
                centers@.len() == num_tiles,
                forall|k: int|
                    0 <= k < centers@.len() ==> #[trigger] tile_sample_ok(
                        self.raw_heightdata@,
                        centers@[k].0 as int,
                        centers@[k].1 as int,
                        sample.0 as int,
                        sample.1 as int,
                        w as int,
                        h as int,
                    ),
                forall|k: int|
                    0 <= k < i ==> #[trigger] self.data@[k] == tile_sample(
                        self.raw_heightdata@,
                        centers@[k].0 as int,
                        centers@[k].1 as int,
                        sample.0 as int,
                        sample.1 as int,
                        w as int,
                        h as int,
                    ),
            decreases num_tiles - i,
        {
            let (x, y) = centers[i];
            assert(tile_sample_ok(self.raw_heightdata@, x as int, y as int, sample.0 as int, sample.1 as int, w as int, h as int));
            //Get area of pixels to sample for hexagon
            let x_min = clamp_i32(x - sample.0 / 2, 0, w - 2);
            let x_max = clamp_i32(x + sample.0 / 2, 1, w - 1);
            let y_min = clamp_i32(y - sample.1 / 2, 0, h - 2);
            let y_max = clamp_i32(y + sample.1 / 2, 1, h - 1);
            let ghost win = tile_window(x as int, y as int, sample.0 as int, sample.1 as int, w as int, h as int);
            assert(x_min as int == win.0 && y_min as int == win.1 && x_max as int == win.2 && y_max as int == win.3);
            let height = get_height_by_sample(x_min, y_min, x_max, y_max, w, num_chan, &self.raw_heightdata);
            self.data.set(i, height);
            i = i + 1;
        }
    }
}

/// The height of tile `idx` of `heights`, or 0 outside of them.
pub open spec fn height_at(heights: Seq<u8>, idx: int) -> u8 {
    if 0 <= idx < heights.len() {
        heights[idx]
    } else {
        0
    }
}

/// The spiral index of hexagon `(q, r)`.
pub open spec fn hex_index(q: int, r: int) -> int {
    spiral_index(hex_layer(q, r), hex_spiral_pos(q, r))
}

impl SpiralHexGrid {
    /// The `q` coordinate of this grid's origin.
    pub open spec fn origin_q_spec(&self) -> int {
        origin_q(self.super_position().q as int, self.super_position().r as int, self.layers() as int)
    }

    /// The `r` coordinate of this grid's origin.
    pub open spec fn origin_r_spec(&self) -> int {
        origin_r(self.super_position().q as int, self.super_position().r as int, self.layers() as int)
    }

    /// Whether this grid's origin can be computed.
    pub open spec fn origin_ok_spec(&self) -> bool {
        origin_ok(self.super_position().q as int, self.super_position().r as int, self.layers() as int)
    }

    /// The local coordinates, in grid `g`, of the hexagon at local coordinates `(q, r)` of
    /// this grid.
    pub open spec fn local_in_q(&self, g: SpiralHexGrid, q: int) -> int {
        q + self.origin_q_spec() - g.origin_q_spec()
    }

    /// The local `r` coordinate, in grid `g`, of the hexagon at local `r` of this grid.
    pub open spec fn local_in_r(&self, g: SpiralHexGrid, r: int) -> int {
        r + self.origin_r_spec() - g.origin_r_spec()
    }

    /// Local coordinates name the same global hexagon in both grids: the hexagon at
    /// local `(q, r)` of this grid, taken into grid `g`, lies at the same global place
    /// (local plus origin), and taking a hexagon into its own grid leaves it unchanged.
    pub proof fn law_local_coordinates_agree(&self, g: SpiralHexGrid, q: int, r: int)
        ensures
            self.local_in_q(g, q) + g.origin_q_spec() == q + self.origin_q_spec(),
            self.local_in_r(g, r) + g.origin_r_spec() == r + self.origin_r_spec(),
            self.local_in_q(*self, q) == q,
            self.local_in_r(*self, r) == r,
    {
    }

    /// The height of the neighbour in direction `d` of tile `(q, r)`: read from this grid
    /// when the neighbour lies inside it, from the neighbouring grid in direction
    /// `neighbor_grid_dir` when that grid is given, and 0 otherwise.
    pub open spec fn neighbor_height(
        &self,
        grids: Seq<Option<SpiralHexGrid>>,
        q: int,
        r: int,
        d: int,
    ) -> u8 {
        let nq = q + dir_q(d);
        let nr = r + dir_r(d);
        if outside_layers(nq, nr, self.layers() as int) {
            match grids[neighbor_grid_dir(q, r, d)] {
                Some(g) => height_at(
                    g.heights(),
                    hex_index(self.local_in_q(g, nq), self.local_in_r(g, nr)),
                ),
                None => 0,
            }
        } else {
            height_at(self.heights(), hex_index(nq, nr))
        }
    }

    /// Whether the neighbour in direction `d` of tile `(q, r)` can be looked up: its
    /// neighbouring grid (when needed) is listed, both origins can be computed, and the
    /// neighbour's index in the neighbouring grid is below this grid's tile count.
    pub open spec fn neighbor_lookup_ok(
        &self,
        grids: Seq<Option<SpiralHexGrid>>,
        q: int,
        r: int,
        d: int,
    ) -> bool {
        let nq = q + dir_q(d);
        let nr = r + dir_r(d);
        &&& neighbor_ok(q, r, d, self.layers() as int)
        &&& outside_layers(nq, nr, self.layers() as int) ==> {
            &&& 0 <= neighbor_grid_dir(q, r, d) < grids.len()
            &&& grids[neighbor_grid_dir(q, r, d)] matches Some(g) ==> {
                &&& g.wf()
                &&& self.origin_ok_spec()
                &&& g.origin_ok_spec()
                &&& fits_i32(nq + self.origin_q_spec())
                &&& fits_i32(nr + self.origin_r_spec())
                &&& fits_i32(self.local_in_q(g, nq))
                &&& fits_i32(self.local_in_r(g, nr))
                &&& spiral_index_fits(self.local_in_q(g, nq), self.local_in_r(g, nr))
                &&& hex_index(self.local_in_q(g, nq), self.local_in_r(g, nr)) < tile_count(
                    self.layers() as int,
                )
            }
        }
    }

    /// Returns the heights of the six neighbours of tile `hex` of this grid, in the
    /// flat-side directions; neighbours outside of this grid are read from the grid
    /// listed for their direction in `grid_neighbours`, or are 0 when none is listed.
    pub fn neighbor_heights(
        &self,
        hex: Hex32,
        grid_neighbours: &Vec<Option<SpiralHexGrid>>,
    ) -> (res: Vec<u8>)
        requires
            self.wf(),
            forall|d: int|
                0 <= d < 6 ==> #[trigger] self.neighbor_lookup_ok(
                    grid_neighbours@,
                    hex.q as int,
                    hex.r as int,
                    d,
                ),
        ensures
            res@.len() == 6,
            forall|d: int|
                0 <= d < 6 ==> #[trigger] res@[d] == self.neighbor_height(
                    grid_neighbours@,
                    hex.q as int,
                    hex.r as int,
                    d,
                ),
    {
        proof {
            assert forall|d: int| 0 <= d < 6 implies #[trigger] neighbor_ok(
                hex.q as int,
                hex.r as int,
                d,
                self.layers() as int,
            ) by {
                assert(self.neighbor_lookup_ok(grid_neighbours@, hex.q as int, hex.r as int, d));
            }
        }
        let neighbors = self.get_neighbors_local(hex);
        let num_tiles = self._get_tile_count();
        let mut heights: Vec<u8> = Vec::new();
        let mut n: usize = 0;
        while n < 6
            invariant
                0 <= n <= 6,
                self.wf(),
                num_tiles == tile_count(self.layers() as int),
                neighbors@.len() == 6,
                heights@.len() == n,
                forall|d: int|
                    0 <= d < 6 ==> {
                        let nq = hex.q + dir_q(d);
                        let nr = hex.r + dir_r(d);
                        &&& (#[trigger] neighbors@[d]).0.q == nq
                        &&& neighbors@[d].0.r == nr
                        &&& neighbors@[d].1 == if outside_layers(nq, nr, self.layers() as int) {
                            Some(neighbor_grid_dir(hex.q as int, hex.r as int, d) as usize)
                        } else {
                            None
                        }
                    },
                forall|d: int|
                    0 <= d < 6 ==> #[trigger] self.neighbor_lookup_ok(
                        grid_neighbours@,
                        hex.q as int,
                        hex.r as int,
                        d,
                    ),
                forall|d: int|
                    0 <= d < n ==> #[trigger] heights@[d] == self.neighbor_height(
                        grid_neighbours@,
                        hex.q as int,
                        hex.r as int,
                        d,
                    ),
            decreases 6 - n,
        {
            let ghost d = n as int;
            assert(self.neighbor_lookup_ok(grid_neighbours@, hex.q as int, hex.r as int, d));
            let (nhex, grid_dir) = neighbors[n];
            let h: u8 = match grid_dir {
                Some(grid_index) => {
                    match &grid_neighbours[grid_index] {
                        Some(grid) => {
                            //convert coordinates from local grid's space to the other grid's space
                            let other = nhex + self.origin() - grid.origin();
                            let nindex = hex_to_spiral_index(other);
                            proof {
                                assert(nindex < 3 * 256 * 255 + 1) by (nonlinear_arith)
                                    requires
                                        nindex < tile_count(self.layers() as int),
                                        self.layers() <= 255,
                                ;
                            }
                            grid.get_heightdata_at(nindex as i32)
                        },
                        None => 0,
                    }
                },
                None => {
                    let ghost nq = nhex.q as int;
                    let ghost nr = nhex.r as int;
                    proof {
                        crate::spiral::law_layer_bound_iff_index_bound(nq, nr, self.layers() as int);
                        assert(spiral_index_fits(nq, nr)) by {
                            lemma_small_hex_index_fits(nq, nr, self.layers() as int);
                        }
                    }
                    let nindex = hex_to_spiral_index(nhex);
                    proof {
                        assert(nindex < 3 * 256 * 255 + 1) by (nonlinear_arith)
                            requires
                                nindex < tile_count(self.layers() as int),
                                self.layers() <= 255,
                        ;
                    }
                    self.get_heightdata_at(nindex as i32)
                },
            };
            heights.push(h);
            n = n + 1;
        }
        heights
    }
}

/// `|x|` of an `i64` of `i32` range.
fn abs_wide(x: i64) -> (res: i64)
    requires
        i32::MIN <= x <= i32::MAX,
    ensures
        res == int_abs(x as int),
{
    if x < 0 {
        -x
    } else {
        x
    }
}

/// Whether `x` is a value of `i32`.
fn fits_wide(x: i64) -> (res: bool)
    ensures
        res == fits_i32(x as int),
{
    i32::MIN as i64 <= x && x <= i32::MAX as i64
}

/// Whether the neighbour in direction `d` of tile `(q, r)` can be classified in a grid of
/// `n` layers (what `get_neighbors_local` requires for that direction).
pub fn neighbor_ok_check(q: i32, r: i32, d: i32, n: u8) -> (res: bool)
    requires
        0 <= d < 6,
    ensures
        res == neighbor_ok(q as int, r as int, d as int, n as int),
{
    let dir = direction(d as usize);
    let nq = q as i64 + dir.q as i64;
    let nr = r as i64 + dir.r as i64;
    if !fits_wide(nq) || !fits_wide(nr) {
        return false;
    }
    if nq == i32::MIN as i64 {
        return false;
    }
    let n = n as i64;
    let aq = abs_wide(nq);
    if aq <= n && nr == i32::MIN as i64 {
        return false;
    }
    let ar = abs_wide(nr);
    let ns = -nq - nr;
    if aq <= n && ar <= n && (!fits_wide(ns) || ns == i32::MIN as i64) {
        return false;
    }
    let outside = aq > n || ar > n || abs_wide(ns) > n;
    if outside && (d == 1 || d == 4) {
        if q == i32::MIN || !fits_wide(-(q as i64) - (r as i64)) {
            return false;
        }
    }
    true
}

impl SpiralHexGrid {
    /// Whether this grid holds one height per tile. Every grid built and changed by the
    /// functions of this library does.
    pub fn is_wf(&self) -> (res: bool)
        ensures
            res == self.wf(),
    {
        self.data.len() == self._get_tile_count()
    }

    /// Returns the size in pixels of the raw image.
    pub fn get_raw_size(&self) -> (res: (i32, i32))
        ensures
            res == self.raw_dims(),
    {
        (self.raw_width, self.raw_height)
    }

    /// Returns the position of this grid in the grid of grids.
    pub fn get_super_pos(&self) -> (res: Hex32)
        ensures
            res == self.super_position(),
    {
        self.super_pos
    }

    /// Whether the neighbour in direction `d` of tile `hex` can be looked up (what
    /// `neighbor_heights` requires for that direction).
    pub fn neighbor_lookup_ok_check(
        &self,
        grids: &Vec<Option<SpiralHexGrid>>,
        hex: Hex32,
        d: i32,
    ) -> (res: bool)
        requires
            0 <= d < 6,
        ensures
            res == self.neighbor_lookup_ok(grids@, hex.q as int, hex.r as int, d as int),
    {
        if !neighbor_ok_check(hex.q, hex.r, d, self.num_layers) {
            return false;
        }
        let dir = direction(d as usize);
        let nq = hex.q as i64 + dir.q as i64;
        let nr = hex.r as i64 + dir.r as i64;
        let n = self.num_layers as i64;
        let ns = -nq - nr;
        let outside = abs_wide(nq) > n || abs_wide(nr) > n || (ns > n || -ns > n);
        if !outside {
            return true;
        }
        let q = hex.q as i64;
        let r = hex.r as i64;
        let s = -q - r;
        let n_dir: i64 = if d == 0 {
            if q <= 0 { d as i64 } else { d as i64 + 1 }
        } else if d == 1 {
            if s >= 0 { d as i64 } else { d as i64 + 1 }
        } else if d == 2 {
            if r <= 0 { d as i64 } else { d as i64 + 1 }
        } else if d == 3 {
            if q >= 0 { d as i64 } else { d as i64 + 1 }
        } else if d == 4 {
            if s <= 0 { d as i64 } else { d as i64 + 1 }
        } else {
            if r >= 0 { d as i64 } else { d as i64 + 1 }
        };
        let k = (n_dir % 6) as usize;
        if k >= grids.len() {
            return false;
        }
        match &grids[k] {
            None => true,
            Some(g) => {
                if !g.is_wf() {
                    return false;
                }
                if !origin_ok_check(self.super_pos.q, self.super_pos.r, self.num_layers) {
                    return false;
                }
                if !origin_ok_check(g.super_pos.q, g.super_pos.r, g.num_layers) {
                    return false;
                }
                let o1 = self.origin();
                let o2 = g.origin();
                let aq = nq + o1.q as i64;
                let ar = nr + o1.r as i64;
                if !fits_wide(aq) || !fits_wide(ar) {
                    return false;
                }
                let lq = aq - o2.q as i64;
                let lr = ar - o2.r as i64;
                if !fits_wide(lq) || !fits_wide(lr) {
                    return false;
                }
                if !spiral_index_fits_check(lq as i32, lr as i32) {
                    return false;
                }
                let index = hex_to_spiral_index(Hex { q: lq as i32, r: lr as i32 });
                index < self._get_tile_count()
            },
        }
    }

    /// Returns the origin of a grid of this size at super position `super_pos`, or
    /// `None` where `calculate_origin` cannot compute it (on overflow).
    pub fn checked_calculate_origin(&self, super_pos: Hex32) -> (res: Option<Hex32>)
        ensures
            res is Some <==> origin_ok(super_pos.q as int, super_pos.r as int, self.layers() as int),
            res matches Some(o) ==> o.q == origin_q(super_pos.q as int, super_pos.r as int, self.layers() as int)
                && o.r == origin_r(super_pos.q as int, super_pos.r as int, self.layers() as int),
    {
        if origin_ok_check(super_pos.q, super_pos.r, self.num_layers) {
            Some(self.calculate_origin(super_pos))
        } else {
            None
        }
    }

    /// Returns the heights of the six neighbours of tile `hex`, as `neighbor_heights`
    /// does, or `None` where `neighbor_heights` cannot look one of them up.
    pub fn checked_neighbor_heights(
        &self,
        hex: Hex32,
        grid_neighbours: &Vec<Option<SpiralHexGrid>>,
    ) -> (res: Option<Vec<u8>>)
        requires
            self.wf(),
        ensures
            res is Some <==> forall|d: int|
                0 <= d < 6 ==> #[trigger] self.neighbor_lookup_ok(
                    grid_neighbours@,
                    hex.q as int,
                    hex.r as int,
                    d,
                ),
            res matches Some(v) ==> v@.len() == 6 && forall|d: int|
                0 <= d < 6 ==> #[trigger] v@[d] == self.neighbor_height(
                    grid_neighbours@,
                    hex.q as int,
                    hex.r as int,
                    d,
                ),
    {
        let mut d: i32 = 0;
        while d < 6
            invariant
                0 <= d <= 6,
                forall|e: int|
                    0 <= e < d ==> #[trigger] self.neighbor_lookup_ok(
                        grid_neighbours@,
                        hex.q as int,
                        hex.r as int,
                        e,
                    ),
            decreases 6 - d,
        {
            if !self.neighbor_lookup_ok_check(grid_neighbours, hex, d) {
                return None;
            }
            d = d + 1;
        }
        Some(self.neighbor_heights(hex, grid_neighbours))
    }
}

impl SpiralHexGrid {
    /// Whether `regenerate_from_centers` can sample every tile from the raw image with
    /// the given tile centres and sample size (what it requires).
    pub fn regenerate_ok(&self, centers: &Vec<(i32, i32)>, sample: (i32, i32)) -> (res: bool)
        requires
            self.wf(),
        ensures
            res == (centers@.len() == self.heights().len() && self.raw_dims().0 >= 2
                && self.raw_dims().1 >= 2 && forall|i: int|
                0 <= i < centers@.len() ==> #[trigger] tile_sample_ok(
                    self.raw_data(),
                    centers@[i].0 as int,
                    centers@[i].1 as int,
                    sample.0 as int,
                    sample.1 as int,
                    self.raw_dims().0 as int,
                    self.raw_dims().1 as int,
                )),
    {
        if centers.len() != self.data.len() || self.raw_width < 2 || self.raw_height < 2 {
            return false;
        }
        let mut i: usize = 0;
        while i < centers.len()
            invariant
                0 <= i <= centers@.len(),
                self.raw_width >= 2,
                self.raw_height >= 2,
                forall|k: int|
                    0 <= k < i ==> #[trigger] tile_sample_ok(
                        self.raw_heightdata@,
                        centers@[k].0 as int,
                        centers@[k].1 as int,
                        sample.0 as int,
                        sample.1 as int,
                        self.raw_width as int,
                        self.raw_height as int,
                    ),
            decreases centers@.len() - i,
        {
            let (x, y) = centers[i];
            if !tile_sample_ok_check(
                &self.raw_heightdata,
                x,
                y,
                sample.0,
                sample.1,
                self.raw_width,
                self.raw_height,
            ) {
                assert(!tile_sample_ok(
                    self.raw_data(),
                    centers@[i as int].0 as int,
                    centers@[i as int].1 as int,
                    sample.0 as int,
                    sample.1 as int,
                    self.raw_dims().0 as int,
                    self.raw_dims().1 as int,
                ));
                return false;
            }
            i = i + 1;
        }
        true
    }
}

/// A hexagon within 255 layers of the origin has a spiral index that fits `i32`.
proof fn lemma_small_hex_index_fits(q: int, r: int, n: int)
    requires
        0 <= n <= 255,
        hex_layer(q, r) <= n,
    ensures
        spiral_index_fits(q, r),
{
    let l = hex_layer(q, r);
    if l >= 1 {
        lemma_hex_to_spiral_to_hex(q, r);
    }
    assert(3 * l * (l - 1) <= 3 * 255 * 254) by (nonlinear_arith)
        requires
            0 <= l <= 255,
    ;
    assert(3 * l * (l - 1) >= 0 || l == 0) by (nonlinear_arith)
        requires
            0 <= l,
    ;
}

/// Adds two numbers.
pub fn add(left: u64, right: u64) -> (res: u64)
    requires
        left + right <= u64::MAX,
    ensures
        res == left + right,
{
    left + right
}

} // verus!
