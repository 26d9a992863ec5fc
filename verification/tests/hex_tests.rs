use kva_hex_core::direction::{self, Flat, Pointy};
use kva_hex_core::hex::{abs_i32, max_i32};
use kva_hex_core::{Hex, Hex32, Hex8};

#[test]
fn hex_s_and_array() {
    let h: Hex32 = Hex { q: 2, r: -5 };
    assert_eq!(h.s(), 3);
    assert_eq!(h.as_array(), [2, -5, 3]);
    let small: Hex8 = Hex { q: -1, r: 2 };
    assert_eq!(small.s(), -1);
    assert_eq!(small.as_array(), [-1, 2, -1]);
}

#[test]
fn hex_get_layer_is_distance() {
    assert_eq!(Hex { q: 0, r: 0 }.get_layer(), 0);
    assert_eq!(Hex { q: 2, r: -5 }.get_layer(), 5);
    assert_eq!(Hex { q: -3, r: -4 }.get_layer(), 7);
    assert_eq!(Hex { q: 1, r: 1 }.get_layer(), 2);
}

#[test]
fn hex_operators() {
    let a: Hex32 = Hex { q: 1, r: -2 };
    let b: Hex32 = Hex { q: 4, r: 7 };
    assert_eq!(a + b, Hex { q: 5, r: 5 });
    assert_eq!(a - b, Hex { q: -3, r: -9 });
    assert_eq!(b * 3, Hex { q: 12, r: 21 });
    assert_eq!(a * -1, Hex { q: -1, r: 2 });
}

#[test]
fn hex_conversions() {
    let small: Hex8 = Hex { q: -128, r: 127 };
    let wide: Hex32 = Hex::<i32>::from(small);
    assert_eq!(wide, Hex { q: -128, r: 127 });
    let wider: Hex<i64> = Hex::<i64>::from(small);
    assert_eq!(wider, Hex { q: -128i64, r: 127i64 });
    assert_eq!(Hex::<i8>::try_from(Hex { q: 5, r: -7 }), Ok(Hex { q: 5i8, r: -7i8 }));
    assert_eq!(Hex::<i8>::try_from(Hex { q: 128, r: 0 }), Err(()));
    assert_eq!(Hex::<i16>::try_from(Hex { q: -32768, r: 32767 }), Ok(Hex { q: -32768i16, r: 32767i16 }));
    assert_eq!(Hex::<i16>::try_from(Hex { q: 0, r: 40000 }), Err(()));
    assert_eq!(Hex::<i64>::try_from(Hex { q: i32::MIN, r: i32::MAX }), Ok(Hex { q: i32::MIN as i64, r: i32::MAX as i64 }));
}

#[test]
fn hex_conversions_to_other_widths() {
    let small: Hex8 = Hex { q: -128, r: 127 };
    assert_eq!(Hex::<i16>::from(small), Hex { q: -128i16, r: 127i16 });
    assert_eq!(Hex::<i128>::from(small), Hex { q: -128i128, r: 127i128 });
    assert_eq!(Hex::<isize>::from(small), Hex { q: -128isize, r: 127isize });
    let wide: Hex32 = Hex { q: i32::MIN, r: i32::MAX };
    assert_eq!(Hex::<i128>::try_from(wide), Ok(Hex { q: i32::MIN as i128, r: i32::MAX as i128 }));
    assert_eq!(Hex::<isize>::try_from(wide), Ok(Hex { q: i32::MIN as isize, r: i32::MAX as isize }));
}

#[test]
fn hex_abs_and_max() {
    assert_eq!(abs_i32(-7), 7);
    assert_eq!(abs_i32(i32::MAX), i32::MAX);
    assert_eq!(max_i32(-3, 2), 2);
}

#[test]
fn directions_table() {
    let expected = [
        (0, -1), (1, -1), (1, 0), (0, 1), (-1, 1), (-1, 0),
        (1, -2), (2, -1), (1, 1), (-1, 2), (-2, 1), (-1, -1),
    ];
    for (k, (q, r)) in expected.iter().enumerate() {
        assert_eq!(direction::direction(k), Hex { q: *q as i8, r: *r as i8 });
        assert_eq!(direction::get_dir_all(k as i32), Hex { q: *q as i8, r: *r as i8 });
    }
}

#[test]
fn directions_wrap() {
    for d in -30..30 {
        assert_eq!(direction::get_dir(d), direction::get_dir(d + 6));
        assert_eq!(direction::get_dir_all(d), direction::get_dir_all(d + 12));
    }
    assert_eq!(direction::get_dir(-1), Hex { q: -1, r: 0 });
    assert_eq!(direction::get_dir(8), Hex { q: 1, r: 0 });
    assert_eq!(direction::get_dir_all(-1), Hex { q: -1, r: -1 });
    assert_eq!(direction::get_dir_all(i32::MIN), direction::direction(((i32::MIN as i64).rem_euclid(12)) as usize));
    assert_eq!(direction::get_dir(i32::MAX), direction::direction(((i32::MAX as i64).rem_euclid(6)) as usize));
}

#[test]
fn directions_opposite_and_diagonal() {
    for k in 0..6usize {
        let a: Hex32 = Hex::<i32>::from(direction::direction(k));
        let b: Hex32 = Hex::<i32>::from(direction::direction((k + 3) % 6));
        let c: Hex32 = Hex::<i32>::from(direction::direction((k + 1) % 6));
        let diag: Hex32 = Hex::<i32>::from(direction::direction(k + 6));
        assert_eq!(a + b, Hex { q: 0, r: 0 });
        assert_eq!(a + c, diag);
        assert_eq!(a.get_layer(), 1);
        assert_eq!(diag.get_layer(), 2);
    }
}

#[test]
fn named_directions() {
    assert_eq!(Pointy::NorthEast.get(), Hex { q: 0, r: -1 });
    assert_eq!(Pointy::DNorth.get(), Hex { q: 1, r: -2 });
    assert_eq!(Pointy::DNorthWest.get(), Hex { q: -1, r: -1 });
    assert_eq!(Flat::South.get(), Hex { q: 0, r: 1 });
    assert_eq!(Flat::DWest.get(), Hex { q: -2, r: 1 });
    assert_eq!(Flat::NorthWest.index(), 5);
    assert_eq!(Pointy::DSouth.index(), 9);
}
