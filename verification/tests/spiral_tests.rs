use kva_hex_core::spiral;
use kva_hex_core::spiral::Spiral;
use kva_hex_core::Hex;

#[test]
fn spiral_indicies_to_hex() {
    assert_eq!(spiral::spiral_index_to_hex(0), Hex { q: 0, r: 0 });
    assert_eq!(spiral::spiral_index_to_hex(1), Hex { q: 0, r: -1 });
    assert_eq!(spiral::spiral_index_to_hex(8), Hex { q: 1, r: -2 });
    assert_eq!(spiral::spiral_index_to_hex(11), Hex { q: 2, r: 0 });
    assert_eq!(spiral::spiral_index_to_hex(30), Hex { q: -2, r: 3 });
    assert_eq!(spiral::spiral_index_to_hex(48), Hex { q: 1, r: 3 });
    assert_eq!(spiral::spiral_index_to_hex(49), Hex { q: 0, r: 4 });
    assert_eq!(spiral::spiral_index_to_hex(84), Hex { q: -5, r: 2 });
}

#[test]
fn hex_to_spiral_indicies() {
    assert_eq!(0, spiral::hex_to_spiral_index(Hex { q: 0, r: 0 }));
    assert_eq!(1, spiral::hex_to_spiral_index(Hex { q: 0, r: -1 }));
    assert_eq!(8, spiral::hex_to_spiral_index(Hex { q: 1, r: -2 }));
    assert_eq!(11, spiral::hex_to_spiral_index(Hex { q: 2, r: 0 }));
    assert_eq!(30, spiral::hex_to_spiral_index(Hex { q: -2, r: 3 }));
    assert_eq!(48, spiral::hex_to_spiral_index(Hex { q: 1, r: 3 }));
    assert_eq!(49, spiral::hex_to_spiral_index(Hex { q: 0, r: 4 }));
    assert_eq!(84, spiral::hex_to_spiral_index(Hex { q: -5, r: 2 }));
}

#[test]
fn spiral_index_roundtrip_small() {
    for i in 0..5000usize {
        let hex = spiral::spiral_index_to_hex(i);
        assert_eq!(spiral::hex_to_spiral_index(hex), i);
    }
}

#[test]
fn hex_roundtrip_small() {
    for q in -30..=30 {
        for r in -30..=30 {
            let hex = Hex { q, r };
            let index = spiral::hex_to_spiral_index(hex);
            assert_eq!(spiral::spiral_index_to_hex(index), hex);
        }
    }
}

#[test]
fn spiral_index_roundtrip_at_i32_limit() {
    let last = i32::MAX as usize;
    for i in [last, last - 1, 2147409811usize, 2147409810usize] {
        let hex = spiral::spiral_index_to_hex(i);
        assert_eq!(spiral::hex_to_spiral_index(hex), i);
    }
}

#[test]
fn spiral_from_index_layers() {
    assert_eq!(Spiral::from_index(0), Spiral { layer: 0, posision: 0 });
    assert_eq!(Spiral::from_index(1), Spiral { layer: 1, posision: 0 });
    assert_eq!(Spiral::from_index(6), Spiral { layer: 1, posision: 5 });
    assert_eq!(Spiral::from_index(7), Spiral { layer: 2, posision: 0 });
    assert_eq!(Spiral::from_index(18), Spiral { layer: 2, posision: 11 });
    assert_eq!(Spiral::from_index(19), Spiral { layer: 3, posision: 0 });
    assert_eq!(Spiral::from_index(i32::MAX as usize), Spiral { layer: 26755, posision: 73836 });
}

#[test]
fn hex_to_spiral_positions() {
    assert_eq!(spiral::hex_to_spiral(Hex { q: 0, r: 0 }), Ok(Spiral { layer: 0, posision: 0 }));
    assert_eq!(spiral::hex_to_spiral(Hex { q: 2, r: -2 }), Ok(Spiral { layer: 2, posision: 2 }));
    assert_eq!(spiral::hex_to_spiral(Hex { q: -5, r: 2 }), Ok(Spiral { layer: 5, posision: 23 }));
    assert_eq!(spiral::hex_to_spiral(Hex { q: -1, r: -1 }), Ok(Spiral { layer: 2, posision: 11 }));
    // corners: the first case that applies is taken
    assert_eq!(spiral::hex_to_spiral(Hex { q: 0, r: -2 }), Ok(Spiral { layer: 2, posision: 0 }));
    assert_eq!(spiral::hex_to_spiral(Hex { q: 2, r: 0 }), Ok(Spiral { layer: 2, posision: 4 }));
    assert_eq!(spiral::hex_to_spiral(Hex { q: -2, r: 2 }), Ok(Spiral { layer: 2, posision: 8 }));
}

#[test]
fn spiral_to_hex_positions() {
    assert_eq!(spiral::spiral_to_hex(Spiral { layer: 2, posision: 2 }), Hex { q: 2, r: -2 });
    assert_eq!(spiral::spiral_to_hex(Spiral { layer: 5, posision: 23 }), Hex { q: -5, r: 2 });
    assert_eq!(spiral::spiral_to_hex(Spiral { layer: 1, posision: 3 }), Hex { q: 0, r: 1 });
}

#[test]
fn spiral_segments() {
    assert_eq!(Spiral { layer: 0, posision: 4 }.segment(), 0);
    assert_eq!(Spiral { layer: 3, posision: 7 }.segment(), 2);
    assert_eq!(Spiral { layer: 3, posision: -7 }.segment(), -2);
    assert_eq!(Spiral { layer: 3, posision: 7 }.s_posision(), 1);
    assert_eq!(Spiral { layer: 3, posision: -7 }.s_posision(), -1);
    assert_eq!(Spiral { layer: 4, posision: 0 }.layer_len(), 24);
}

#[test]
fn spiral_rotate_tiles_wraps() {
    let mut s = Spiral { layer: 2, posision: 10 };
    s.rotate_tiles(3);
    assert_eq!(s, Spiral { layer: 2, posision: 1 });
    s.rotate_tiles(-2);
    assert_eq!(s, Spiral { layer: 2, posision: 11 });
    s.rotate_tiles(-25);
    assert_eq!(s, Spiral { layer: 2, posision: 10 });
    s.rotate_tiles(12);
    assert_eq!(s, Spiral { layer: 2, posision: 10 });
}

#[test]
fn spiral_rotate_compose() {
    for a in -20..20 {
        for b in -20..20 {
            let mut s1 = Spiral { layer: 3, posision: 4 };
            s1.rotate_tiles(a);
            s1.rotate_tiles(b);
            let mut s2 = Spiral { layer: 3, posision: 4 };
            s2.rotate_tiles(a + b);
            assert_eq!(s1, s2);
        }
    }
}

#[test]
fn spiral_rotate_hex_by_edges() {
    let mut s = Spiral { layer: 3, posision: 2 };
    s.rotate_hex(1);
    assert_eq!(s, Spiral { layer: 3, posision: 5 });
    s.rotate_hex(-2);
    assert_eq!(s, Spiral { layer: 3, posision: 17 });
    s.rotate_hex(6);
    assert_eq!(s, Spiral { layer: 3, posision: 17 });
}

#[test]
fn hex_to_spiral_wide_coordinates() {
    assert_eq!(spiral::hex_to_spiral_wide(Hex { q: 2i64, r: -2i64 }), Ok(Spiral { layer: 2, posision: 2 }));
    assert_eq!(spiral::hex_to_spiral_wide(Hex { q: 0i64, r: 0i64 }), Ok(Spiral { layer: 0, posision: 0 }));
    assert_eq!(spiral::hex_to_spiral_wide(Hex { q: 3_000_000_000i64, r: -3_000_000_000i64 }), Err(()));
    assert_eq!(spiral::hex_to_spiral_wide(Hex { q: 0i64, r: i32::MAX as i64 + 1 }), Err(()));
}

#[test]
fn spiral_index_fit_checks() {
    assert!(spiral::spiral_index_fits_check(0, 0));
    assert!(spiral::spiral_index_fits_check(-5, 2));
    assert!(!spiral::spiral_index_fits_check(i32::MIN, 0));
    assert!(!spiral::spiral_index_fits_check(30_000, 0));
    assert!(spiral::spiral_index_fits_check(26_000, 0));
    assert_eq!(spiral::spiral_pos_wide(-5, 2), 23);
}

#[test]
fn spiral_to_hex_of_negative_layers() {
    // a negative layer walks the ring through the origin: segment 0, steps `pos % layer`
    assert_eq!(spiral::spiral_to_hex(Spiral { layer: -1, posision: 0 }), Hex { q: 0, r: 1 });
    assert_eq!(spiral::spiral_to_hex(Spiral { layer: -2, posision: 3 }), Hex { q: 1, r: 2 });
    assert_eq!(spiral::spiral_to_hex(Spiral { layer: 2, posision: 7 }), Hex { q: -1, r: 2 });
}

#[test]
fn spiral_index_of_wide_hexagons() {
    assert_eq!(spiral::hex_to_spiral_index_wide(Hex { q: 0i64, r: 0i64 }), 0);
    assert_eq!(spiral::hex_to_spiral_index_wide(Hex { q: 1i64, r: -2i64 }), 8);
    assert_eq!(spiral::hex_to_spiral_index_wide(Hex { q: 1i64, r: 3i64 }), 48);
}
