//! Axial hexagon coordinates.
//!
//! A hexagon is addressed by two axial coordinates `q` and `r`; the third cube
//! coordinate `s` is implied by `q + r + s == 0`.
use vstd::prelude::*;

verus! {

/// Absolute value of a mathematical integer.
pub open spec fn int_abs(x: int) -> int {
    if x < 0 {
        -x
    } else {
        x
    }
}

/// Larger of two mathematical integers.
pub open spec fn int_max(a: int, b: int) -> int {
    if a < b {
        b
    } else {
        a
    }
}

/// Whether a mathematical integer is a value of `i32`.
pub open spec fn fits_i32(x: int) -> bool {
    i32::MIN <= x <= i32::MAX
}

/// Whether `x` can be negated inside `i32` (and so has an `i32` absolute value).
pub open spec fn negatable_i32(x: int) -> bool {
    i32::MIN < x <= i32::MAX
}

/// The layer (ring) of the hexagon `(q, r)` around the origin: the hexagonal distance
/// to the origin, `max(|s|, |q|, |r|)` with `s == -q - r`.
pub open spec fn hex_layer(q: int, r: int) -> int {
    int_max(int_abs(-q - r), int_max(int_abs(q), int_abs(r)))
}

/// Absolute value of an `i32`, for values whose negation is an `i32`.
pub fn abs_i32(x: i32) -> (res: i32)
    requires
        x != i32::MIN,
    ensures
        res == int_abs(x as int),
{
    if x < 0 {
        -x
    } else {
        x
    }
}

/// Larger of two `i32` values.
pub fn max_i32(a: i32, b: i32) -> (res: i32)
    ensures
        res == int_max(a as int, b as int),
{
    if a < b {
        b
    } else {
        a
    }
}

/// A hexagon in axial coordinates.
#[derive(Debug, Clone, Copy, PartialEq, Eq)]
pub struct Hex<T> {
    pub q: T,
    pub r: T,
}

/// Hex32 is the common type of Hex, used for common values.
pub type Hex32 = Hex<i32>;

/// Hex8 is the small type of Hex, used for directions and other short values.
pub type Hex8 = Hex<i8>;

/// Whether the three cube coordinates of `(q, r)` can be computed and negated inside `i32`.
pub open spec fn cube_fits_i32(q: int, r: int) -> bool {
    &&& negatable_i32(q)
    &&& negatable_i32(r)
    &&& negatable_i32(-q - r)
}

impl Hex<i32> {
    /// Whether the `s` coordinate of this hexagon is a value of `i32`.
    pub open spec fn s_fits(self) -> bool {
        self.q != i32::MIN && fits_i32(-self.q - self.r)
    }

    /// The cube coordinates `[q, r, s]`.
    pub fn as_array(&self) -> (res: [i32; 3])
        requires
            self.s_fits(),
        ensures
            res@ == seq![self.q, self.r, (-self.q - self.r) as i32],
    {
        [self.q, self.r, self.s()]
    }

    /// The s coordinate.
    pub fn s(&self) -> (res: i32)
        requires
            self.s_fits(),
        ensures
            res == -self.q - self.r,
    {
        -self.q - self.r
    }

    /// The layer of this hexagon: its hexagonal distance to the origin.
    pub fn get_layer(self) -> (res: i32)
        requires
            cube_fits_i32(self.q as int, self.r as int),
        ensures
            res == hex_layer(self.q as int, self.r as int),
    {
        max_i32(abs_i32(self.s()), max_i32(abs_i32(self.q), abs_i32(self.r)))
    }
}

impl Hex<i8> {
    /// Whether the `s` coordinate of this hexagon is a value of `i8`.
    pub open spec fn s_fits(self) -> bool {
        self.q != i8::MIN && i8::MIN <= -self.q - self.r <= i8::MAX
    }

    /// The cube coordinates `[q, r, s]`.
    pub fn as_array(&self) -> (res: [i8; 3])
        requires
            self.s_fits(),
        ensures
            res@ == seq![self.q, self.r, (-self.q - self.r) as i8],
    {
        [self.q, self.r, self.s()]
    }

    /// The s coordinate.
    pub fn s(&self) -> (res: i8)
        requires
            self.s_fits(),
        ensures
            res == -self.q - self.r,
    {
        -self.q - self.r
    }
}

/// Widens a small hexagon (such as a direction) to the common coordinate type.
/// The conversion from `i8` always succeeds.
impl From<Hex<i8>> for Hex<i32> {
    fn from(hex: Hex<i8>) -> (res: Self)
        ensures
            res.q == hex.q && res.r == hex.r,
    {
        Hex { q: hex.q as i32, r: hex.r as i32 }
    }
}

impl vstd::std_specs::convert::FromSpecImpl<Hex<i8>> for Hex<i32> {
    open spec fn obeys_from_spec() -> bool {
        true
    }

    open spec fn from_spec(v: Hex<i8>) -> Self {
        Hex { q: v.q as i32, r: v.r as i32 }
    }
}

/// Widens a small hexagon to 64 bit coordinates.
impl From<Hex<i8>> for Hex<i64> {
    fn from(hex: Hex<i8>) -> (res: Self)
        ensures
            res.q == hex.q && res.r == hex.r,
    {
        Hex { q: hex.q as i64, r: hex.r as i64 }
    }
}

impl vstd::std_specs::convert::FromSpecImpl<Hex<i8>> for Hex<i64> {
    open spec fn obeys_from_spec() -> bool {
        true
    }

    open spec fn from_spec(v: Hex<i8>) -> Self {
        Hex { q: v.q as i64, r: v.r as i64 }
    }
}

/// Widens a small hexagon to 16 bit coordinates.
impl From<Hex<i8>> for Hex<i16> {
    fn from(hex: Hex<i8>) -> (res: Self)
        ensures
            res.q == hex.q && res.r == hex.r,
    {
        Hex { q: hex.q as i16, r: hex.r as i16 }
    }
}

impl vstd::std_specs::convert::FromSpecImpl<Hex<i8>> for Hex<i16> {
    open spec fn obeys_from_spec() -> bool {
        true
    }

    open spec fn from_spec(v: Hex<i8>) -> Self {
        Hex { q: v.q as i16, r: v.r as i16 }
    }
}

/// Widens a small hexagon to 128 bit coordinates.
impl From<Hex<i8>> for Hex<i128> {
    fn from(hex: Hex<i8>) -> (res: Self)
        ensures
            res.q == hex.q && res.r == hex.r,
    {
        Hex { q: hex.q as i128, r: hex.r as i128 }
    }
}

impl vstd::std_specs::convert::FromSpecImpl<Hex<i8>> for Hex<i128> {
    open spec fn obeys_from_spec() -> bool {
        true
    }

    open spec fn from_spec(v: Hex<i8>) -> Self {
        Hex { q: v.q as i128, r: v.r as i128 }
    }
}

/// Widens a small hexagon to pointer-sized coordinates.
impl From<Hex<i8>> for Hex<isize> {
    fn from(hex: Hex<i8>) -> (res: Self)
        ensures
            res.q == hex.q && res.r == hex.r,
    {
        Hex { q: hex.q as isize, r: hex.r as isize }
    }
}

impl vstd::std_specs::convert::FromSpecImpl<Hex<i8>> for Hex<isize> {
    open spec fn obeys_from_spec() -> bool {
        true
    }

    open spec fn from_spec(v: Hex<i8>) -> Self {
        Hex { q: v.q as isize, r: v.r as isize }
    }
}

/// Narrows a common hexagon to small coordinates; fails when a coordinate is out of range.
impl TryFrom<Hex<i32>> for Hex<i8> {
    type Error = ();

    fn try_from(value: Hex<i32>) -> (res: Result<Self, ()>)
        ensures
            res is Ok <==> (i8::MIN <= value.q <= i8::MAX && i8::MIN <= value.r <= i8::MAX),
            res matches Ok(h) ==> h.q == value.q && h.r == value.r,
    {
        if i8::MIN as i32 <= value.q && value.q <= i8::MAX as i32 && i8::MIN as i32 <= value.r
            && value.r <= i8::MAX as i32 {
            Ok(Hex { q: value.q as i8, r: value.r as i8 })
        } else {
            Err(())
        }
    }
}

impl vstd::std_specs::convert::TryFromSpecImpl<Hex<i32>> for Hex<i8> {
    open spec fn obeys_try_from_spec() -> bool {
        true
    }

    open spec fn try_from_spec(v: Hex<i32>) -> Result<Self, ()> {
        if i8::MIN <= v.q <= i8::MAX && i8::MIN <= v.r <= i8::MAX {
            Ok(Hex { q: v.q as i8, r: v.r as i8 })
        } else {
            Err(())
        }
    }
}

/// Narrows a common hexagon to 16 bit coordinates; fails when a coordinate is out of range.
impl TryFrom<Hex<i32>> for Hex<i16> {
    type Error = ();

    fn try_from(value: Hex<i32>) -> (res: Result<Self, ()>)
        ensures
            res is Ok <==> (i16::MIN <= value.q <= i16::MAX && i16::MIN <= value.r <= i16::MAX),
            res matches Ok(h) ==> h.q == value.q && h.r == value.r,
    {
        if i16::MIN as i32 <= value.q && value.q <= i16::MAX as i32 && i16::MIN as i32 <= value.r
            && value.r <= i16::MAX as i32 {
            Ok(Hex { q: value.q as i16, r: value.r as i16 })
        } else {
            Err(())
        }
    }
}

impl vstd::std_specs::convert::TryFromSpecImpl<Hex<i32>> for Hex<i16> {
    open spec fn obeys_try_from_spec() -> bool {
        true
    }

    open spec fn try_from_spec(v: Hex<i32>) -> Result<Self, ()> {
        if i16::MIN <= v.q <= i16::MAX && i16::MIN <= v.r <= i16::MAX {
            Ok(Hex { q: v.q as i16, r: v.r as i16 })
        } else {
            Err(())
        }
    }
}

/// Widens a common hexagon to 64 bit coordinates; this conversion always succeeds.
impl TryFrom<Hex<i32>> for Hex<i64> {
    type Error = ();

    fn try_from(value: Hex<i32>) -> (res: Result<Self, ()>)
        ensures
            res matches Ok(h) && h.q == value.q && h.r == value.r,
    {
        Ok(Hex { q: value.q as i64, r: value.r as i64 })
    }
}

impl vstd::std_specs::convert::TryFromSpecImpl<Hex<i32>> for Hex<i64> {
    open spec fn obeys_try_from_spec() -> bool {
        true
    }

    open spec fn try_from_spec(v: Hex<i32>) -> Result<Self, ()> {
        Ok(Hex { q: v.q as i64, r: v.r as i64 })
    }
}

/// Widens a common hexagon to 128 bit coordinates; this conversion always succeeds.
impl TryFrom<Hex<i32>> for Hex<i128> {
    type Error = ();

    fn try_from(value: Hex<i32>) -> (res: Result<Self, ()>)
        ensures
            res matches Ok(h) && h.q == value.q && h.r == value.r,
    {
        Ok(Hex { q: value.q as i128, r: value.r as i128 })
    }
}

impl vstd::std_specs::convert::TryFromSpecImpl<Hex<i32>> for Hex<i128> {
    open spec fn obeys_try_from_spec() -> bool {
        true
    }

    open spec fn try_from_spec(v: Hex<i32>) -> Result<Self, ()> {
        Ok(Hex { q: v.q as i128, r: v.r as i128 })
    }
}

/// Widens a common hexagon to pointer-sized coordinates; this conversion always succeeds.
impl TryFrom<Hex<i32>> for Hex<isize> {
    type Error = ();

    fn try_from(value: Hex<i32>) -> (res: Result<Self, ()>)
        ensures
            res matches Ok(h) && h.q == value.q && h.r == value.r,
    {
        Ok(Hex { q: value.q as isize, r: value.r as isize })
    }
}

impl vstd::std_specs::convert::TryFromSpecImpl<Hex<i32>> for Hex<isize> {
    open spec fn obeys_try_from_spec() -> bool {
        true
    }

    open spec fn try_from_spec(v: Hex<i32>) -> Result<Self, ()> {
        Ok(Hex { q: v.q as isize, r: v.r as isize })
    }
}

/// Conversions between coordinate widths keep both coordinates: widening from `i8`
/// always succeeds, and narrowing from `i32` succeeds exactly when both coordinates lie
/// in the narrower type's range, giving the same values; widening from `i32` always
/// succeeds.
pub proof fn law_hex_conversions_keep_coordinates(v: Hex<i32>, small: Hex<i8>)
    ensures
        <Hex<i32> as vstd::std_specs::convert::FromSpec<Hex<i8>>>::from_spec(small).q == small.q,
        <Hex<i32> as vstd::std_specs::convert::FromSpec<Hex<i8>>>::from_spec(small).r == small.r,
        <Hex<i16> as vstd::std_specs::convert::FromSpec<Hex<i8>>>::from_spec(small).q == small.q,
        <Hex<i16> as vstd::std_specs::convert::FromSpec<Hex<i8>>>::from_spec(small).r == small.r,
        <Hex<i64> as vstd::std_specs::convert::FromSpec<Hex<i8>>>::from_spec(small).q == small.q,
        <Hex<i64> as vstd::std_specs::convert::FromSpec<Hex<i8>>>::from_spec(small).r == small.r,
        <Hex<i128> as vstd::std_specs::convert::FromSpec<Hex<i8>>>::from_spec(small).q == small.q,
        <Hex<i128> as vstd::std_specs::convert::FromSpec<Hex<i8>>>::from_spec(small).r == small.r,
        <Hex<isize> as vstd::std_specs::convert::FromSpec<Hex<i8>>>::from_spec(small).q == small.q,
        <Hex<isize> as vstd::std_specs::convert::FromSpec<Hex<i8>>>::from_spec(small).r == small.r,
        <Hex<i8> as vstd::std_specs::convert::TryFromSpec<Hex<i32>>>::try_from_spec(v) is Ok
            <==> (i8::MIN <= v.q <= i8::MAX && i8::MIN <= v.r <= i8::MAX),
        <Hex<i8> as vstd::std_specs::convert::TryFromSpec<Hex<i32>>>::try_from_spec(v) matches Ok(h)
            ==> h.q == v.q && h.r == v.r,
        <Hex<i16> as vstd::std_specs::convert::TryFromSpec<Hex<i32>>>::try_from_spec(v) is Ok
            <==> (i16::MIN <= v.q <= i16::MAX && i16::MIN <= v.r <= i16::MAX),
        <Hex<i16> as vstd::std_specs::convert::TryFromSpec<Hex<i32>>>::try_from_spec(v) matches Ok(h)
            ==> h.q == v.q && h.r == v.r,
        <Hex<i64> as vstd::std_specs::convert::TryFromSpec<Hex<i32>>>::try_from_spec(v) matches Ok(h)
            && h.q == v.q && h.r == v.r,
        <Hex<i128> as vstd::std_specs::convert::TryFromSpec<Hex<i32>>>::try_from_spec(v) matches Ok(h)
            && h.q == v.q && h.r == v.r,
        <Hex<isize> as vstd::std_specs::convert::TryFromSpec<Hex<i32>>>::try_from_spec(v) matches Ok(h)
            && h.q == v.q && h.r == v.r,
{
}

/// The layer of a hexagon is its distance to the origin: half the sum of the absolute
/// values of its three cube coordinates.
pub proof fn law_hex_layer_is_distance(q: int, r: int)
    ensures
        2 * hex_layer(q, r) == int_abs(q) + int_abs(r) + int_abs(-q - r),
        hex_layer(q, r) >= 0,
        hex_layer(q, r) == 0 <==> (q == 0 && r == 0),
{
}

/// Hexagon arithmetic is vector arithmetic on the coordinates: addition is commutative
/// with `(0, 0)` as its unit, subtraction undoes addition, multiplication by `1` and `0`
/// give the hexagon and the origin, multiplication by `k` scales the distance to the
/// origin by `|k|`, and the distance of a sum is at most the sum of the distances.
pub proof fn law_hex_arithmetic(a: Hex<i32>, b: Hex<i32>, k: i32)
    ensures
        <Hex<i32> as vstd::std_specs::ops::AddSpec>::add_spec(a, Hex { q: 0, r: 0 }) == a,
        <Hex<i32> as vstd::std_specs::ops::MulSpec<i32>>::mul_spec(a, 1) == a,
        <Hex<i32> as vstd::std_specs::ops::MulSpec<i32>>::mul_spec(a, 0) == (Hex::<i32> { q: 0, r: 0 }),
        fits_i32(a.q + b.q) && fits_i32(a.r + b.r) ==> {
            let c = <Hex<i32> as vstd::std_specs::ops::AddSpec>::add_spec(a, b);
            &&& c == <Hex<i32> as vstd::std_specs::ops::AddSpec>::add_spec(b, a)
            &&& <Hex<i32> as vstd::std_specs::ops::SubSpec>::sub_spec(c, b) == a
            &&& hex_layer(c.q as int, c.r as int) <= hex_layer(a.q as int, a.r as int) + hex_layer(
                b.q as int,
                b.r as int,
            )
        },
        fits_i32(a.q * k) && fits_i32(a.r * k) ==> {
            let m = <Hex<i32> as vstd::std_specs::ops::MulSpec<i32>>::mul_spec(a, k);
            hex_layer(m.q as int, m.r as int) == int_abs(k as int) * hex_layer(a.q as int, a.r as int)
        },
{
    law_hex_layer_is_distance(a.q as int, a.r as int);
    law_hex_layer_is_distance(b.q as int, b.r as int);
    if fits_i32(a.q * k) && fits_i32(a.r * k) {
        let (q, r, kk) = (a.q as int, a.r as int, k as int);
        assert(int_abs(q * kk) == int_abs(kk) * int_abs(q)) by (nonlinear_arith);
        assert(int_abs(r * kk) == int_abs(kk) * int_abs(r)) by (nonlinear_arith);
        assert(int_abs(-(q * kk) - r * kk) == int_abs(kk) * int_abs(-q - r)) by (nonlinear_arith);
        law_hex_layer_is_distance(q * kk, r * kk);
        assert(int_abs(kk) * (int_abs(q) + int_abs(r) + int_abs(-q - r)) == int_abs(kk) * int_abs(q)
            + int_abs(kk) * int_abs(r) + int_abs(kk) * int_abs(-q - r)) by (nonlinear_arith);
        assert(int_abs(kk) * (2 * hex_layer(q, r)) == 2 * (int_abs(kk) * hex_layer(q, r)))
            by (nonlinear_arith);
    }
}

/// Addition of hexagon coordinates.
impl core::ops::Add for Hex<i32> {
    type Output = Hex<i32>;

    fn add(self, rhs: Self) -> (res: Self::Output) {
        Hex { q: self.q + rhs.q, r: self.r + rhs.r }
    }
}

impl vstd::std_specs::ops::AddSpecImpl for Hex<i32> {
    open spec fn obeys_add_spec() -> bool {
        true
    }

    open spec fn add_req(self, rhs: Self) -> bool {
        fits_i32(self.q + rhs.q) && fits_i32(self.r + rhs.r)
    }

    open spec fn add_spec(self, rhs: Self) -> Self {
        Hex { q: (self.q + rhs.q) as i32, r: (self.r + rhs.r) as i32 }
    }
}

/// Subtraction of hexagon coordinates.
impl core::ops::Sub for Hex<i32> {
    type Output = Hex<i32>;

    fn sub(self, rhs: Self) -> (res: Self::Output) {
        Hex { q: self.q - rhs.q, r: self.r - rhs.r }
    }
}

impl vstd::std_specs::ops::SubSpecImpl for Hex<i32> {
    open spec fn obeys_sub_spec() -> bool {
        true
    }

    open spec fn sub_req(self, rhs: Self) -> bool {
        fits_i32(self.q - rhs.q) && fits_i32(self.r - rhs.r)
    }

    open spec fn sub_spec(self, rhs: Self) -> Self {
        Hex { q: (self.q - rhs.q) as i32, r: (self.r - rhs.r) as i32 }
    }
}

/// Multiplication of hexagon coordinates by a scalar.
impl core::ops::Mul<i32> for Hex<i32> {
    type Output = Hex<i32>;

    fn mul(self, rhs: i32) -> (res: Self::Output) {
        Hex { q: self.q * rhs, r: self.r * rhs }
    }
}

impl vstd::std_specs::ops::MulSpecImpl<i32> for Hex<i32> {
    open spec fn obeys_mul_spec() -> bool {
        true
    }

    open spec fn mul_req(self, rhs: i32) -> bool {
        fits_i32(self.q * rhs) && fits_i32(self.r * rhs)
    }

    open spec fn mul_spec(self, rhs: i32) -> Self {
        Hex { q: (self.q * rhs) as i32, r: (self.r * rhs) as i32 }
    }
}

} // verus!
