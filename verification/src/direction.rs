//! The twelve directions of a hexagon: six towards the flat sides (the immediate
//! neighbours) followed by six towards the corners (neighbours of neighbours).
use vstd::prelude::*;

use crate::hex::{hex_layer, Hex, Hex8};

verus! {

/// The `q` offset of direction `k` (for `0 <= k < 12`) in the direction table.
pub open spec fn dir_q(k: int) -> int {
    if k == 0 {
        0
    } else if k == 1 {
        1
    } else if k == 2 {
        1
    } else if k == 3 {
        0
    } else if k == 4 {
        -1
    } else if k == 5 {
        -1
    } else if k == 6 {
        1
    } else if k == 7 {
        2
    } else if k == 8 {
        1
    } else if k == 9 {
        -1
    } else if k == 10 {
        -2
    } else {
        -1
    }
}

/// The `r` offset of direction `k` (for `0 <= k < 12`) in the direction table.
pub open spec fn dir_r(k: int) -> int {
    if k == 0 {
        -1
    } else if k == 1 {
        -1
    } else if k == 2 {
        0
    } else if k == 3 {
        1
    } else if k == 4 {
        1
    } else if k == 5 {
        0
    } else if k == 6 {
        -2
    } else if k == 7 {
        -1
    } else if k == 8 {
        1
    } else if k == 9 {
        2
    } else if k == 10 {
        1
    } else {
        -1
    }
}

/// Whether `h` is entry `k` of the direction table.
pub open spec fn is_dir(h: Hex8, k: int) -> bool {
    h.q == dir_q(k) && h.r == dir_r(k)
}

/// Entry `k` (for `0 <= k < 12`) of the direction table.
pub fn direction(k: usize) -> (res: Hex8)
    requires
        k < 12,
    ensures
        is_dir(res, k as int),
{
    match k {
        0 => Hex { q: 0, r: -1 },
        1 => Hex { q: 1, r: -1 },
        2 => Hex { q: 1, r: 0 },
        3 => Hex { q: 0, r: 1 },
        4 => Hex { q: -1, r: 1 },
        5 => Hex { q: -1, r: 0 },
        6 => Hex { q: 1, r: -2 },
        7 => Hex { q: 2, r: -1 },
        8 => Hex { q: 1, r: 1 },
        9 => Hex { q: -1, r: 2 },
        10 => Hex { q: -2, r: 1 },
        _ => Hex { q: -1, r: -1 },
    }
}

/// `d` wrapped into `0 .. n`: the Euclidean remainder.
fn wrap(d: i32, n: i32) -> (res: i32)
    requires
        0 < n,
    ensures
        res == (d as int) % (n as int),
        0 <= res < n,
{
    if d >= 0 {
        d % n
    } else {
        let m = (-(d + 1)) % n;
        proof {
            let a = -(d as int + 1);
            vstd::arithmetic::div_mod::lemma_fundamental_div_mod(a, n as int);
            let k = a / (n as int);
            // d == -(k * n + m) - 1 == (-k - 1) * n + (n - 1 - m)
            assert(d as int == (-k - 1) * (n as int) + (n - 1 - m)) by (nonlinear_arith)
                requires
                    a == k * (n as int) + m,
                    a == -(d as int + 1),
            ;
            vstd::arithmetic::div_mod::lemma_fundamental_div_mod_converse(
                d as int,
                n as int,
                -k - 1,
                n - 1 - m,
            );
        }
        n - 1 - m
    }
}

/// Returns the direction with index `d`, wrapped to the twelve directions.
pub fn get_dir_all(d: i32) -> (res: Hex8)
    ensures
        is_dir(res, (d as int) % 12),
{
    let k = wrap(d, 12);
    direction(k as usize)
}

/// Returns the flat-side direction with index `d`, wrapped to the six neighbours.
pub fn get_dir(d: i32) -> (res: Hex8)
    ensures
        is_dir(res, (d as int) % 6),
{
    let k = wrap(d, 6);
    direction(k as usize)
}

/// Directions for a hexagon oriented with a pointy north.
/// First six directions are flat-side directions, with immediate neighbours.
/// Final six directions are pointy-side directions with indirect neighbours.
#[derive(Debug, Clone, Copy, PartialEq, Eq)]
pub enum Pointy {
    /// north-east
    NorthEast,
    /// east
    East,
    /// south-east
    SouthEast,
    /// south-west
    SouthWest,
    /// west
    West,
    /// north-west
    NorthWest,
    /// Diagonal (2 tiles) north
    DNorth,
    /// Diagonal (2 tiles) north-east
    DNorthEast,
    /// Diagonal (2 tiles) south-east
    DSouthEast,
    /// Diagonal (2 tiles) south
    DSouth,
    /// Diagonal (2 tiles) south-west
    DSouthWest,
    /// Diagonal (2 tiles) north-west
    DNorthWest,
}

/// Directions for a hexagon oriented with a flat north.
/// First six directions are flat-side directions, with immediate neighbours.
/// Final six directions are pointy-side directions with indirect neighbours.
#[derive(Debug, Clone, Copy, PartialEq, Eq)]
pub enum Flat {
    /// north
    North,
    /// north-east
    NorthEast,
    /// south-east
    SouthEast,
    /// south
    South,
    /// south-west
    SouthWest,
    /// north-west
    NorthWest,
    /// Diagonal (2 tiles) north-east
    DNorthEast,
    /// Diagonal (2 tiles) east
    DEast,
    /// Diagonal (2 tiles) south-east
    DSouthEast,
    /// Diagonal (2 tiles) south-west
    DSouthWest,
    /// Diagonal (2 tiles) west
    DWest,
    /// Diagonal (2 tiles) north-west
    DNorthWest,
}

impl Pointy {
    /// The position of this direction in the direction table.
    pub open spec fn index_spec(self) -> int {
        match self {
            Pointy::NorthEast => 0,
            Pointy::East => 1,
            Pointy::SouthEast => 2,
            Pointy::SouthWest => 3,
            Pointy::West => 4,
            Pointy::NorthWest => 5,
            Pointy::DNorth => 6,
            Pointy::DNorthEast => 7,
            Pointy::DSouthEast => 8,
            Pointy::DSouth => 9,
            Pointy::DSouthWest => 10,
            Pointy::DNorthWest => 11,
        }
    }

    /// The position of this direction in the direction table.
    pub fn index(self) -> (res: i32)
        ensures
            res == self.index_spec(),
    {
        match self {
            Pointy::NorthEast => 0,
            Pointy::East => 1,
            Pointy::SouthEast => 2,
            Pointy::SouthWest => 3,
            Pointy::West => 4,
            Pointy::NorthWest => 5,
            Pointy::DNorth => 6,
            Pointy::DNorthEast => 7,
            Pointy::DSouthEast => 8,
            Pointy::DSouth => 9,
            Pointy::DSouthWest => 10,
            Pointy::DNorthWest => 11,
        }
    }

    /// Returns the hexagon coordinate for this direction: the six sides, in declaration
    /// order, are table entries 0 to 5, and the six diagonals entries 6 to 11.
    pub fn get(self) -> (res: Hex8)
        ensures
            is_dir(res, self.index_spec()),
            (match self {
                Pointy::NorthEast => res == (Hex::<i8> { q: 0i8, r: -1i8 }),
                Pointy::East => res == (Hex::<i8> { q: 1i8, r: -1i8 }),
                Pointy::SouthEast => res == (Hex::<i8> { q: 1i8, r: 0i8 }),
                Pointy::SouthWest => res == (Hex::<i8> { q: 0i8, r: 1i8 }),
                Pointy::West => res == (Hex::<i8> { q: -1i8, r: 1i8 }),
                Pointy::NorthWest => res == (Hex::<i8> { q: -1i8, r: 0i8 }),
                Pointy::DNorth => res == (Hex::<i8> { q: 1i8, r: -2i8 }),
                Pointy::DNorthEast => res == (Hex::<i8> { q: 2i8, r: -1i8 }),
                Pointy::DSouthEast => res == (Hex::<i8> { q: 1i8, r: 1i8 }),
                Pointy::DSouth => res == (Hex::<i8> { q: -1i8, r: 2i8 }),
                Pointy::DSouthWest => res == (Hex::<i8> { q: -2i8, r: 1i8 }),
                Pointy::DNorthWest => res == (Hex::<i8> { q: -1i8, r: -1i8 }),
            }),
    {
        get_dir_all(self.index())
    }
}

impl Flat {
    /// The position of this direction in the direction table.
    pub open spec fn index_spec(self) -> int {
        match self {
            Flat::North => 0,
            Flat::NorthEast => 1,
            Flat::SouthEast => 2,
            Flat::South => 3,
            Flat::SouthWest => 4,
            Flat::NorthWest => 5,
            Flat::DNorthEast => 6,
            Flat::DEast => 7,
            Flat::DSouthEast => 8,
            Flat::DSouthWest => 9,
            Flat::DWest => 10,
            Flat::DNorthWest => 11,
        }
    }

    /// The position of this direction in the direction table.
    pub fn index(self) -> (res: i32)
        ensures
            res == self.index_spec(),
    {
        match self {
            Flat::North => 0,
            Flat::NorthEast => 1,
            Flat::SouthEast => 2,
            Flat::South => 3,
            Flat::SouthWest => 4,
            Flat::NorthWest => 5,
            Flat::DNorthEast => 6,
            Flat::DEast => 7,
            Flat::DSouthEast => 8,
            Flat::DSouthWest => 9,
            Flat::DWest => 10,
            Flat::DNorthWest => 11,
        }
    }

    /// Returns the hexagon coordinate for this direction: the six sides, in declaration
    /// order, are table entries 0 to 5, and the six diagonals entries 6 to 11.
    pub fn get(self) -> (res: Hex8)
        ensures
            is_dir(res, self.index_spec()),
            (match self {
                Flat::North => res == (Hex::<i8> { q: 0i8, r: -1i8 }),
                Flat::NorthEast => res == (Hex::<i8> { q: 1i8, r: -1i8 }),
                Flat::SouthEast => res == (Hex::<i8> { q: 1i8, r: 0i8 }),
                Flat::South => res == (Hex::<i8> { q: 0i8, r: 1i8 }),
                Flat::SouthWest => res == (Hex::<i8> { q: -1i8, r: 1i8 }),
                Flat::NorthWest => res == (Hex::<i8> { q: -1i8, r: 0i8 }),
                Flat::DNorthEast => res == (Hex::<i8> { q: 1i8, r: -2i8 }),
                Flat::DEast => res == (Hex::<i8> { q: 2i8, r: -1i8 }),
                Flat::DSouthEast => res == (Hex::<i8> { q: 1i8, r: 1i8 }),
                Flat::DSouthWest => res == (Hex::<i8> { q: -1i8, r: 2i8 }),
                Flat::DWest => res == (Hex::<i8> { q: -2i8, r: 1i8 }),
                Flat::DNorthWest => res == (Hex::<i8> { q: -1i8, r: -1i8 }),
            }),
    {
        get_dir_all(self.index())
    }
}

/// The direction table: each of the first six directions leads to an immediate
/// neighbour (layer 1) and the direction three further on is its opposite; each of the
/// last six, `k + 6`, is the sum of the neighbouring directions `k` and `k + 1`, and so
/// leads to a neighbour of a neighbour (layer 2).
pub proof fn law_direction_table(k: int)
    requires
        0 <= k < 6,
    ensures
        hex_layer(dir_q(k), dir_r(k)) == 1,
        dir_q((k + 3) % 6) == -dir_q(k),
        dir_r((k + 3) % 6) == -dir_r(k),
        dir_q(k + 6) == dir_q(k) + dir_q((k + 1) % 6),
        dir_r(k + 6) == dir_r(k) + dir_r((k + 1) % 6),
        hex_layer(dir_q(k + 6), dir_r(k + 6)) == 2,
{
}

/// Direction indices wrap around: `d` and `d + 6` name the same flat-side direction, and
/// `d` and `d + 12` the same direction of the twelve.
pub proof fn law_direction_wraps(d: int)
    ensures
        (d + 6) % 6 == d % 6,
        (d + 12) % 12 == d % 12,
{
    vstd::arithmetic::div_mod::lemma_mod_add_multiples_vanish(d, 6);
    vstd::arithmetic::div_mod::lemma_mod_add_multiples_vanish(d, 12);
}

/// The six sides of the direction table turn clockwise from `(0, -1)`: each side is the
/// one before it turned by a sixth, `(q, r)` becoming `(-r, q + r)`.
pub proof fn law_direction_turns(k: int)
    requires
        0 <= k < 6,
    ensures
        dir_q(0) == 0 && dir_r(0) == -1,
        dir_q((k + 1) % 6) == -dir_r(k),
        dir_r((k + 1) % 6) == dir_q(k) + dir_r(k),
{
}

/// The named directions of both orientations name the table entries in declaration
/// order: the six sides are entries 0 to 5 and the six diagonals entries 6 to 11; so the
/// side three names further on is the opposite side, and the diagonal named `k + 6` lies
/// between the sides named `k` and `k + 1`.
pub proof fn law_named_directions(p: Pointy, f: Flat)
    ensures
        Pointy::NorthEast.index_spec() == 0,
        Pointy::East.index_spec() == 1,
        Pointy::SouthEast.index_spec() == 2,
        Pointy::SouthWest.index_spec() == 3,
        Pointy::West.index_spec() == 4,
        Pointy::NorthWest.index_spec() == 5,
        Pointy::DNorth.index_spec() == 6,
        Pointy::DNorthEast.index_spec() == 7,
        Pointy::DSouthEast.index_spec() == 8,
        Pointy::DSouth.index_spec() == 9,
        Pointy::DSouthWest.index_spec() == 10,
        Pointy::DNorthWest.index_spec() == 11,
        Flat::North.index_spec() == 0,
        Flat::NorthEast.index_spec() == 1,
        Flat::SouthEast.index_spec() == 2,
        Flat::South.index_spec() == 3,
        Flat::SouthWest.index_spec() == 4,
        Flat::NorthWest.index_spec() == 5,
        Flat::DNorthEast.index_spec() == 6,
        Flat::DEast.index_spec() == 7,
        Flat::DSouthEast.index_spec() == 8,
        Flat::DSouthWest.index_spec() == 9,
        Flat::DWest.index_spec() == 10,
        Flat::DNorthWest.index_spec() == 11,
        0 <= p.index_spec() < 12,
        0 <= f.index_spec() < 12,
        dir_q(Pointy::West.index_spec()) == -dir_q(Pointy::East.index_spec()),
        dir_r(Pointy::West.index_spec()) == -dir_r(Pointy::East.index_spec()),
        dir_q(Pointy::SouthWest.index_spec()) == -dir_q(Pointy::NorthEast.index_spec()),
        dir_r(Pointy::SouthWest.index_spec()) == -dir_r(Pointy::NorthEast.index_spec()),
        dir_q(Pointy::NorthWest.index_spec()) == -dir_q(Pointy::SouthEast.index_spec()),
        dir_r(Pointy::NorthWest.index_spec()) == -dir_r(Pointy::SouthEast.index_spec()),
        dir_q(Flat::South.index_spec()) == -dir_q(Flat::North.index_spec()),
        dir_r(Flat::South.index_spec()) == -dir_r(Flat::North.index_spec()),
        dir_q(Flat::SouthWest.index_spec()) == -dir_q(Flat::NorthEast.index_spec()),
        dir_r(Flat::SouthWest.index_spec()) == -dir_r(Flat::NorthEast.index_spec()),
        dir_q(Flat::NorthWest.index_spec()) == -dir_q(Flat::SouthEast.index_spec()),
        dir_r(Flat::NorthWest.index_spec()) == -dir_r(Flat::SouthEast.index_spec()),
{
}

} // verus!
