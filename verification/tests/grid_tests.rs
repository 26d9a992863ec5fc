use kva_hex_core::grid::{self, neighbor_ok_check, SpiralHexGrid};
use kva_hex_core::mesh::{self, LayersChange};
use kva_hex_core::origin::origin_ok_check;
use kva_hex_core::sample::{get_height_by_sample, sample_ok_check};
use kva_hex_core::spiral;
use kva_hex_core::{Hex, Hex32};

/// A grid of the given layers at the given super position, whose tile `i` has height
/// `base + i`, sampled from a synthetic image.
fn grid_with_heights(layers: u8, sq: i32, sr: i32, base: u8) -> SpiralHexGrid {
    let mut g = SpiralHexGrid::new();
    g.set_layers(layers as i32);
    g.set_super_pos(sq, sr);
    let count = g._get_tile_count();
    let width = count as i32 + 2;
    let mut data = Vec::new();
    for y in 0..2 {
        for x in 0..width {
            let red = if y == 0 { base.wrapping_add(x as u8) } else { 0 };
            data.push(red);
            data.push(0);
            data.push(0);
        }
    }
    g.set_raw_heightdata(data, width, 2);
    let centers: Vec<(i32, i32)> = (0..count as i32).map(|i| (i, 0)).collect();
    assert!(g.regenerate_ok(&centers, (1, 1)));
    g.regenerate_from_centers(&centers, (1, 1));
    g
}

#[test]
fn grid_new_is_single_tile() {
    let g = SpiralHexGrid::new();
    assert_eq!(g.get_layers(), 0);
    assert_eq!(g._get_layers(), 0);
    assert_eq!(g.get_tile_count(), 1);
    assert_eq!(g._get_tile_count(), 1);
    assert_eq!(g.get_heightdata(), vec![0u8]);
    assert_eq!(g.get_super_pos(), Hex { q: 0, r: 0 });
    assert!(g.is_wf());
}

#[test]
fn grid_set_layers_resizes() {
    let mut g = SpiralHexGrid::new();
    g.set_layers(2);
    assert_eq!(g.get_tile_count(), 19);
    assert_eq!(g.get_heightdata(), vec![0u8; 19]);
    g.set_layers(300);
    assert_eq!(g.get_layers(), 44);
    assert_eq!(g.get_tile_count(), 3 * 45 * 44 + 1);
    g._set_layers(255);
    assert_eq!(g.get_tile_count(), 195841);
}

#[test]
fn grid_set_layers_keeps_heights() {
    let mut g = grid_with_heights(2, 1, 0, 10);
    assert_eq!(g.get_heightdata_at(18), 28);
    g.set_layers(1);
    assert_eq!(g.get_heightdata(), vec![10, 11, 12, 13, 14, 15, 16]);
    g.set_layers(2);
    assert_eq!(g.get_heightdata_at(6), 16);
    assert_eq!(g.get_heightdata_at(7), 0);
}

#[test]
fn grid_heightdata_at_out_of_range() {
    let g = grid_with_heights(1, 1, 0, 40);
    assert_eq!(g.get_heightdata_at(0), 40);
    assert_eq!(g.get_heightdata_at(6), 46);
    assert_eq!(g.get_heightdata_at(7), 0);
    assert_eq!(g.get_heightdata_at(-1), 0);
}

#[test]
fn grid_origin_of_super_positions() {
    let mut g = SpiralHexGrid::new();
    g.set_layers(2);
    assert_eq!(g.calculate_origin(Hex { q: 1, r: 0 }), Hex { q: 5, r: -2 });
    assert_eq!(g.calculate_origin(Hex { q: 0, r: 1 }), Hex { q: 2, r: 3 });
    assert_eq!(g.calculate_origin(Hex { q: 0, r: -1 }), Hex { q: -2, r: -3 });
    assert_eq!(g.calculate_origin(Hex { q: 2, r: -1 }), Hex { q: 8, r: -7 });
    assert_eq!(g.calculate_origin(Hex { q: -3, r: 5 }), Hex { q: -5, r: 21 });
    assert_eq!(g.calculate_origin(Hex { q: 0, r: 0 }), Hex { q: 0, r: 0 });
    assert_eq!(g.checked_calculate_origin(Hex { q: 0, r: 0 }), Some(Hex { q: 0, r: 0 }));
    assert_eq!(g.checked_calculate_origin(Hex { q: 1, r: 0 }), Some(Hex { q: 5, r: -2 }));
    g.set_super_pos(2, -1);
    assert_eq!(g.origin(), Hex { q: 8, r: -7 });
    assert_eq!(g.origin_packed_array(), [8, -7, -1]);
    assert_eq!(g.super_pos_packed_array(), [2, -1, -1]);
}

#[test]
fn grid_origin_is_linear() {
    for n in [0u8, 1, 3, 7] {
        let mut g = SpiralHexGrid::new();
        g._set_layers(n);
        let n = n as i32;
        for q in -6..=6 {
            for r in -6..=6 {
                let o = g.calculate_origin(Hex { q, r });
                assert_eq!(o, Hex { q: q * (2 * n + 1) + r * n, r: -q * n + r * (n + 1) });
            }
        }
    }
}

#[test]
fn grid_origin_checks() {
    let g = SpiralHexGrid::new();
    assert_eq!(g.origin(), Hex { q: 0, r: 0 });
    assert!(origin_ok_check(0, 0, 3));
    assert!(origin_ok_check(0, 0, 255));
    assert!(origin_ok_check(1, 0, 3));
    assert!(!origin_ok_check(i32::MIN, 0, 3));
    assert!(!origin_ok_check(100_000_000, 0, 255));
}

#[test]
fn grid_neighbors_local_classifies_border() {
    let mut g = SpiralHexGrid::new();
    g.set_layers(2);
    let inner = g.get_neighbors_local(Hex { q: 0, r: 0 });
    assert_eq!(inner.len(), 6);
    for (d, (n, grid_dir)) in inner.iter().enumerate() {
        let dir: Hex32 = Hex::<i32>::from(kva_hex_core::direction::direction(d));
        assert_eq!(*n, dir);
        assert_eq!(*grid_dir, None);
    }
    let border = g.get_neighbors_local(Hex { q: 2, r: -2 });
    assert_eq!(border[0], (Hex { q: 2, r: -3 }, Some(1)));
    assert_eq!(border[1], (Hex { q: 3, r: -3 }, Some(1)));
    assert_eq!(border[2], (Hex { q: 3, r: -2 }, Some(2)));
    assert_eq!(border[3], (Hex { q: 2, r: -1 }, None));
    assert_eq!(border[4], (Hex { q: 1, r: -1 }, None));
    assert_eq!(border[5], (Hex { q: 1, r: -2 }, None));
    let other = g.get_neighbors_local(Hex { q: -2, r: 0 });
    assert_eq!(other[4], (Hex { q: -3, r: 1 }, Some(5)));
    assert_eq!(other[5], (Hex { q: -3, r: 0 }, Some(5)));
    let lower = g.get_neighbors_local(Hex { q: 0, r: 2 });
    assert_eq!(lower[5], (Hex { q: -1, r: 2 }, None));
    assert_eq!(lower[3], (Hex { q: 0, r: 3 }, Some(3)));
    assert!(neighbor_ok_check(2, -2, 1, 2));
    assert!(!neighbor_ok_check(i32::MIN + 1, 0, 5, 2));
}

#[test]
fn grid_neighbor_heights_inside_and_across() {
    let a = grid_with_heights(1, 1, 0, 10);
    let b = grid_with_heights(1, 2, -1, 100);
    let mut grids: Vec<Option<SpiralHexGrid>> = Vec::new();
    for k in 0..6 {
        grids.push(if k == 1 { Some(grid_with_heights(1, 2, -1, 100)) } else { None });
    }
    // Tile (1, -1): its neighbour in direction 0, (1, -2), lies in the grid in direction
    // 1, at local coordinates (-1, 1) there, which is tile 5 of that grid.
    let heights = a.neighbor_heights(Hex { q: 1, r: -1 }, &grids);
    assert_eq!(heights.len(), 6);
    assert_eq!(heights[0], b.get_heightdata_at(5));
    assert_eq!(heights[0], 105);
    // direction 3 from (1, -1) is (1, 0), tile 3 of this grid
    assert_eq!(heights[3], 13);
    // direction 4 is (0, 0), tile 0
    assert_eq!(heights[4], 10);
    // directions 1 and 2 lie in grids that are not given
    assert_eq!(heights[2], 0);
    let checked = a.checked_neighbor_heights(Hex { q: 1, r: -1 }, &grids);
    assert_eq!(checked, Some(heights));
    let no_grids: Vec<Option<SpiralHexGrid>> = Vec::new();
    assert_eq!(a.checked_neighbor_heights(Hex { q: 1, r: -1 }, &no_grids), None);
    assert_eq!(a.checked_neighbor_heights(Hex { q: 0, r: 0 }, &no_grids), Some(vec![11, 12, 13, 14, 15, 16]));
}

#[test]
fn grid_border_neighbors_land_in_neighbor_grids() {
    let n: u8 = 3;
    let mut g = SpiralHexGrid::new();
    g._set_layers(n);
    let p: Hex32 = Hex { q: 1, r: -2 };
    let count = g._get_tile_count();
    for i in 0..count {
        let tile = spiral::spiral_index_to_hex(i);
        for (d, (nb, grid_dir)) in g.get_neighbors_local(tile).into_iter().enumerate() {
            if let Some(k) = grid_dir {
                let dir: Hex32 = Hex::<i32>::from(kva_hex_core::direction::direction(k));
                let other = g.calculate_origin(p + dir);
                let local = nb + g.calculate_origin(p) - other;
                assert!(spiral::hex_to_spiral_index(local) < count, "tile {} direction {}", i, d);
            }
        }
    }
}

#[test]
fn sample_height_averages() {
    // 3 by 2 image, one byte per pixel
    let data = vec![10u8, 20, 30, 40, 50, 60];
    assert_eq!(get_height_by_sample(0, 0, 2, 2, 3, 1, &data), 30);
    assert_eq!(get_height_by_sample(1, 0, 3, 1, 3, 1, &data), 25);
    // empty rectangle reads the corner pixel
    assert_eq!(get_height_by_sample(2, 1, 2, 1, 3, 1, &data), 60);
    // pixels past the data read 0
    assert_eq!(get_height_by_sample(0, 1, 3, 3, 3, 1, &data), 25);
    assert_eq!(get_height_by_sample(5, 5, 5, 5, 3, 1, &data), 0);
    assert!(sample_ok_check(&data, 0, 0, 2, 2, 3, 1));
    assert!(!sample_ok_check(&data, 0, 0, 2, 2, 3, -1));
    assert!(!sample_ok_check(&data, 0, i32::MAX - 1, 2, i32::MAX, i32::MAX, 3));
}

#[test]
fn sample_rows_left_of_the_data() {
    let data = vec![7u8; 600];
    // every pixel of the row lies before offset 0: all read as missing
    assert!(sample_ok_check(&data, -10, 0, -8, 1, 100, 3));
    assert_eq!(get_height_by_sample(-10, 0, -8, 1, 100, 3, &data), 0);
    // a row that begins before offset 0 and reaches past it cannot be sampled
    assert!(!sample_ok_check(&data, -1, 0, 2, 1, 100, 3));
    // a row of an earlier line whose pixels fall after offset 0 reads them
    assert!(sample_ok_check(&data, 100, -1, 102, 0, 100, 3));
    assert_eq!(get_height_by_sample(100, -1, 102, 0, 100, 3, &data), 7);
}

#[test]
fn grid_regenerate_samples_each_tile() {
    let mut g = SpiralHexGrid::new();
    g.set_layers(1);
    // 4 by 4 image, three bytes per pixel, red = 10 * y + x
    let mut data = Vec::new();
    for y in 0..4u8 {
        for x in 0..4u8 {
            data.push(10 * y + x);
            data.push(255);
            data.push(255);
        }
    }
    g.set_raw_heightdata(data, 4, 4);
    let centers = vec![(1, 1), (2, 2), (0, 0), (3, 3), (-5, 1), (1, 9), (2, 1)];
    assert!(g.regenerate_ok(&centers, (2, 2)));
    g.regenerate_from_centers(&centers, (2, 2));
    // window of (1, 1) with sample 2: x 0..2, y 0..2 -> (0 + 1 + 10 + 11) / 4
    assert_eq!(g.get_heightdata(), vec![5, 16, 0, 22, 5, 20, 6]);
    assert!(!g.regenerate_ok(&vec![(0, 0)], (2, 2)));
}

#[test]
fn mesh_triangle_indices() {
    assert_eq!(
        mesh::tile_triangle_indices(0),
        vec![0, 1, 2, 0, 2, 3, 0, 3, 4, 0, 4, 5, 0, 5, 6, 0, 6, 1]
    );
    assert_eq!(
        mesh::tile_triangle_indices_centre_last(1),
        vec![13, 7, 8, 13, 8, 9, 13, 9, 10, 13, 10, 11, 13, 11, 12, 13, 12, 7]
    );
}

#[test]
fn mesh_neighbor_heights_in_table() {
    let heights = vec![5, 4, 4, 2, 2, 2, 2];
    assert_eq!(mesh::neighbor_heights_in(&heights, Hex { q: 0, r: 0 }), vec![4, 4, 2, 2, 2, 2]);
    assert_eq!(mesh::neighbor_heights_in(&heights, Hex { q: 1, r: 0 }), vec![4, 0, 0, 0, 2, 5]);
}

#[test]
fn mesh_layer_changes() {
    assert_eq!(mesh::check_mesh_layers(-1, None), LayersChange::Negative);
    assert_eq!(mesh::check_mesh_layers(256, Some(300)), LayersChange::TooLarge);
    assert_eq!(mesh::check_mesh_layers(5, Some(3)), LayersChange::ExceedsGrid(3));
    assert_eq!(mesh::check_mesh_layers(3, Some(3)), LayersChange::Accepted(3, false));
    assert_eq!(mesh::check_mesh_layers(2, Some(3)), LayersChange::Accepted(2, true));
    assert_eq!(mesh::check_mesh_layers(255, None), LayersChange::Accepted(255, false));
    assert_eq!(mesh::mesh_tile_count(3), 37);
}

#[test]
fn grid_add_numbers() {
    assert_eq!(grid::add(2, 2), 4);
}
