//! Sampling tile heights from a raw image: the average of the first byte of each pixel
//! of a rectangle.
use vstd::prelude::*;

use crate::hex::fits_i32;
use crate::spiral::trunc_div;

verus! {

/// The height sampled at byte `idx` of `data`, or 0 outside of `data`.
pub open spec fn byte_at(data: Seq<u8>, idx: int) -> int {
    if 0 <= idx < data.len() {
        data[idx] as int
    } else {
        0
    }
}

/// The sum of `n` bytes of `data`, starting at `base` and `chan` bytes apart.
pub open spec fn row_sum(data: Seq<u8>, base: int, chan: int, n: int) -> int
    decreases n,
{
    if n <= 0 {
        0
    } else {
        row_sum(data, base, chan, n - 1) + byte_at(data, base + (n - 1) * chan)
    }
}

/// The sum of the sampled bytes of the pixel rows `y0 .. y1`, columns `x0 .. x1`, of an
/// image `width` pixels wide with `chan` bytes per pixel.
pub open spec fn rect_sum(
    data: Seq<u8>,
    x0: int,
    y0: int,
    x1: int,
    y1: int,
    width: int,
    chan: int,
) -> int
    decreases y1 - y0,
{
    if y1 <= y0 {
        0
    } else {
        rect_sum(data, x0, y0, x1, y1 - 1, width, chan) + row_sum(
            data,
            ((y1 - 1) * width + x0) * chan,
            chan,
            x1 - x0,
        )
    }
}

/// The height sampled from the pixel rectangle `x0 .. x1`, `y0 .. y1`: the average of
/// the sampled bytes, or the byte of the corner pixel for an empty rectangle.
pub open spec fn sampled_height(
    data: Seq<u8>,
    x0: int,
    y0: int,
    x1: int,
    y1: int,
    width: int,
    chan: int,
) -> int {
    if y1 - y0 < 1 || x1 - x0 < 1 {
        byte_at(data, (y0 * width + x0) * chan)
    } else {
        let avg = rect_sum(data, x0, y0, x1, y1, width, chan) / ((x1 - x0) * (y1 - y0));
        if avg > 255 {
            255
        } else {
            avg
        }
    }
}

/// Whether the start of pixel row `y` of the rectangle can be computed in `i32`,
/// and lies in the data or after it.
pub open spec fn row_start_ok(y: int, x0: int, width: int, chan: int) -> bool {
    &&& fits_i32(y * width)
    &&& fits_i32(y * width + x0)
    &&& fits_i32((y * width + x0) * chan)
}

/// Whether the byte offsets of pixel row `y` (of `n` pixels from column `x0`) stay on
/// one side of offset 0: a row that starts before offset 0 and reaches it would wrap
/// around the unsigned index the offsets are kept in.
pub open spec fn row_no_wrap(y: int, x0: int, n: int, width: int, chan: int) -> bool {
    let base = (y * width + x0) * chan;
    base >= 0 || base + n * chan < 0
}

/// Whether the height of a pixel rectangle can be sampled without overflow.
pub open spec fn sample_ok(
    data: Seq<u8>,
    x0: int,
    y0: int,
    x1: int,
    y1: int,
    width: int,
    chan: int,
) -> bool {
    &&& chan >= 0
    &&& fits_i32(x1 - x0)
    &&& fits_i32(y1 - y0)
    &&& if y1 - y0 < 1 || x1 - x0 < 1 {
        row_start_ok(y0, x0, width, chan)
    } else {
        &&& fits_i32((x1 - x0) * (y1 - y0))
        &&& forall|y: int|
            y0 <= y < y1 ==> #[trigger] row_start_ok(y, x0, width, chan) && row_no_wrap(
                y,
                x0,
                x1 - x0,
                width,
                chan,
            )
        &&& rect_sum(data, x0, y0, x1, y1, width, chan) <= u32::MAX
    }
}

proof fn lemma_row_sum_bounds(data: Seq<u8>, base: int, chan: int, n: int)
    ensures
        0 <= row_sum(data, base, chan, n),
        n >= 0 ==> row_sum(data, base, chan, n) <= 255 * n,
    decreases n,
{
    if n > 0 {
        lemma_row_sum_bounds(data, base, chan, n - 1);
    }
}

proof fn lemma_rect_sum_mono(
    data: Seq<u8>,
    x0: int,
    y0: int,
    x1: int,
    y1: int,
    y2: int,
    width: int,
    chan: int,
)
    requires
        y1 <= y2,
    ensures
        0 <= rect_sum(data, x0, y0, x1, y1, width, chan) <= rect_sum(
            data,
            x0,
            y0,
            x1,
            y2,
            width,
            chan,
        ),
    decreases y2 - y1,
{
    if y1 < y2 {
        lemma_rect_sum_mono(data, x0, y0, x1, y1, y2 - 1, width, chan);
        lemma_row_sum_bounds(data, ((y2 - 1) * width + x0) * chan, chan, x1 - x0);
    } else {
        lemma_rect_sum_nonneg(data, x0, y0, x1, y1, width, chan);
    }
}

proof fn lemma_rect_sum_nonneg(
    data: Seq<u8>,
    x0: int,
    y0: int,
    x1: int,
    y1: int,
    width: int,
    chan: int,
)
    ensures
        0 <= rect_sum(data, x0, y0, x1, y1, width, chan),
    decreases y1 - y0,
{
    if y1 > y0 {
        lemma_rect_sum_nonneg(data, x0, y0, x1, y1 - 1, width, chan);
        lemma_row_sum_bounds(data, ((y1 - 1) * width + x0) * chan, chan, x1 - x0);
    }
}

/// The byte at `idx`, or 0 outside of `data`.
fn byte_or_zero(data: &Vec<u8>, idx: i64) -> (res: u8)
    ensures
        res == byte_at(data@, idx as int),
{
    if idx < 0 || idx as u64 >= data.len() as u64 {
        0
    } else {
        data[idx as usize]
    }
}

/// Samples the height of the pixel rectangle `x0 .. x1`, `y0 .. y1` from raw image
/// data with `num_chan` bytes per pixel, reading the first byte of each pixel. Pixels
/// outside of the data read as 0.
pub fn get_height_by_sample(
    x0: i32,
    y0: i32,
    x1: i32,
    y1: i32,
    width: i32,
    num_chan: i32,
    data: &Vec<u8>,
) -> (res: u8)
    requires
        sample_ok(data@, x0 as int, y0 as int, x1 as int, y1 as int, width as int, num_chan as int),
    ensures
        res == sampled_height(
            data@,
            x0 as int,
            y0 as int,
            x1 as int,
            y1 as int,
            width as int,
            num_chan as int,
        ),
{
    if y1 - y0 < 1 || x1 - x0 < 1 {
        let index = (y0 * width + x0) * num_chan;
        return byte_or_zero(data, index as i64);
    }
    let ghost d = data@;
    let mut sum: u32 = 0;
    let count: u32 = ((x1 - x0) * (y1 - y0)) as u32;
    proof {
        assert((x1 - x0) * (y1 - y0) > 0) by (nonlinear_arith)
            requires
                x1 - x0 >= 1,
                y1 - y0 >= 1,
        ;
    }
    let mut y = y0;
    while y < y1
        invariant
            y0 <= y <= y1,
            x1 - x0 >= 1,
            sample_ok(d, x0 as int, y0 as int, x1 as int, y1 as int, width as int, num_chan as int),
            d == data@,
            sum == rect_sum(d, x0 as int, y0 as int, x1 as int, y as int, width as int, num_chan as int),
        decreases y1 - y,
    {
        assert(row_start_ok(y as int, x0 as int, width as int, num_chan as int));
        let base = (y * width + x0) * num_chan;
        let mut index: i64 = base as i64;
        let mut x = x0;
        let ghost row_base = base as int;
        proof {
            lemma_rect_sum_mono(d, x0 as int, y0 as int, x1 as int, y as int + 1, y1 as int, width as int, num_chan as int);
            lemma_row_sum_bounds(d, row_base, num_chan as int, x1 - x0);
        }
        let ghost prev = sum as int;
        while x < x1
            invariant
                x0 <= x <= x1,
                d == data@,
                num_chan >= 0,
                i32::MIN <= row_base <= i32::MAX,
                index == row_base + (x - x0) * num_chan,
                x1 - x0 <= i32::MAX,
                sum == prev + row_sum(d, row_base, num_chan as int, x - x0),
                prev + row_sum(d, row_base, num_chan as int, x1 - x0) <= u32::MAX,
            decreases x1 - x,
        {
            proof {
                lemma_row_sum_bounds(d, row_base, num_chan as int, x1 - x0 - (x - x0 + 1));
                lemma_row_sum_mono(d, row_base, num_chan as int, x - x0 + 1, x1 - x0);
                assert(index + num_chan <= row_base + (x1 - x0) * num_chan) by (nonlinear_arith)
                    requires
                        index == row_base + (x - x0) * num_chan,
                        x < x1,
                        num_chan >= 0,
                ;
                assert((x1 - x0) * num_chan <= 0x7fffffff * 0x7fffffff) by (nonlinear_arith)
                    requires
                        0 <= x1 - x0 <= 0x7fffffff,
                        0 <= num_chan <= 0x7fffffff,
                ;
            }
            let b = byte_or_zero(data, index);
            sum = sum + b as u32;
            index = index + num_chan as i64;
            proof {
                assert(index == row_base + (x + 1 - x0) * num_chan) by (nonlinear_arith)
                    requires
                        index == row_base + (x - x0) * num_chan + num_chan,
                ;
            }
            x = x + 1;
        }
        y = y + 1;
    }
    let avg = sum / count;
    if avg > 255 {
        255
    } else {
        avg as u8
    }
}

proof fn lemma_row_sum_mono(data: Seq<u8>, base: int, chan: int, n: int, m: int)
    requires
        0 <= n <= m,
    ensures
        row_sum(data, base, chan, n) <= row_sum(data, base, chan, m),
    decreases m - n,
{
    if n < m {
        lemma_row_sum_mono(data, base, chan, n, m - 1);
    }
}

/// `v` clamped into `lo ..= hi`.
pub open spec fn clamp_int(v: int, lo: int, hi: int) -> int {
    if v < lo {
        lo
    } else if v > hi {
        hi
    } else {
        v
    }
}

/// The pixel rectangle `(x_min, y_min, x_max, y_max)` sampled for a tile centred at pixel
/// `(px, py)` with sample size `(sx, sy)`, in an image of `w` by `h` pixels.
pub open spec fn tile_window(px: int, py: int, sx: int, sy: int, w: int, h: int) -> (
    int,
    int,
    int,
    int,
) {
    (
        clamp_int(px - trunc_div(sx, 2), 0, w - 2),
        clamp_int(py - trunc_div(sy, 2), 0, h - 2),
        clamp_int(px + trunc_div(sx, 2), 1, w - 1),
        clamp_int(py + trunc_div(sy, 2), 1, h - 1),
    )
}

/// A row of `n` sampled bytes that all read `c` sums to `c * n`.
proof fn lemma_row_sum_uniform(data: Seq<u8>, base: int, chan: int, n: int, c: int)
    requires
        n >= 0,
        forall|k: int| 0 <= k < n ==> #[trigger] byte_at(data, base + k * chan) == c,
    ensures
        row_sum(data, base, chan, n) == c * n,
    decreases n,
{
    if n > 0 {
        assert(byte_at(data, base + (n - 1) * chan) == c);
        lemma_row_sum_uniform(data, base, chan, n - 1, c);
        assert(c * (n - 1) + c == c * n) by (nonlinear_arith);
    } else {
        assert(c * n == 0) by (nonlinear_arith)
            requires
                n == 0,
        ;
    }
}

/// A rectangle whose sampled bytes all read `c` sums to `c` times its pixel count.
proof fn lemma_rect_sum_uniform(
    data: Seq<u8>,
    x0: int,
    y0: int,
    x1: int,
    y1: int,
    width: int,
    chan: int,
    c: int,
)
    requires
        y0 <= y1,
        x0 <= x1,
        forall|y: int, x: int|
            y0 <= y < y1 && x0 <= x < x1 ==> #[trigger] byte_at(data, (y * width + x) * chan) == c,
    ensures
        rect_sum(data, x0, y0, x1, y1, width, chan) == c * (x1 - x0) * (y1 - y0),
    decreases y1 - y0,
{
    if y0 < y1 {
        lemma_rect_sum_uniform(data, x0, y0, x1, y1 - 1, width, chan, c);
        let base = ((y1 - 1) * width + x0) * chan;
        assert forall|k: int| 0 <= k < x1 - x0 implies #[trigger] byte_at(data, base + k * chan) == c by {
            assert(base + k * chan == ((y1 - 1) * width + (x0 + k)) * chan) by (nonlinear_arith)
                requires
                    base == ((y1 - 1) * width + x0) * chan,
            ;
            assert(byte_at(data, ((y1 - 1) * width + (x0 + k)) * chan) == c);
        }
        lemma_row_sum_uniform(data, base, chan, x1 - x0, c);
        assert(c * (x1 - x0) * (y1 - 1 - y0) + c * (x1 - x0) == c * (x1 - x0) * (y1 - y0))
            by (nonlinear_arith);
    } else {
        assert(c * (x1 - x0) * (y1 - y0) == 0) by (nonlinear_arith)
            requires
                y1 == y0,
        ;
    }
}

/// Sampling a rectangle whose pixels all read the same byte `c` gives `c`: the sample is
/// the mean of the pixels' first bytes, over the whole rectangle.
pub proof fn law_sampled_height_uniform(
    data: Seq<u8>,
    x0: int,
    y0: int,
    x1: int,
    y1: int,
    width: int,
    chan: int,
    c: u8,
)
    requires
        x0 < x1,
        y0 < y1,
        forall|y: int, x: int|
            y0 <= y < y1 && x0 <= x < x1 ==> #[trigger] byte_at(data, (y * width + x) * chan) == c,
    ensures
        sampled_height(data, x0, y0, x1, y1, width, chan) == c,
{
    lemma_rect_sum_uniform(data, x0, y0, x1, y1, width, chan, c as int);
    let n = (x1 - x0) * (y1 - y0);
    assert(n > 0) by (nonlinear_arith)
        requires
            x0 < x1,
            y0 < y1,
            n == (x1 - x0) * (y1 - y0),
    ;
    assert(c * (x1 - x0) * (y1 - y0) == c * n) by (nonlinear_arith)
        requires
            n == (x1 - x0) * (y1 - y0),
    ;
    vstd::arithmetic::div_mod::lemma_div_multiples_vanish(c as int, n);
    assert(c * n == n * c) by (nonlinear_arith);
}

/// Sampling a single pixel `(x, y)` gives the first byte of that pixel, at byte offset
/// `(y * width + x) * chan`, or 0 where that offset lies outside of the data.
pub proof fn law_sampled_height_single_pixel(data: Seq<u8>, x: int, y: int, width: int, chan: int)
    ensures
        sampled_height(data, x, y, x + 1, y + 1, width, chan) == byte_at(data, (y * width + x) * chan),
{
    let b = byte_at(data, (y * width + x) * chan);
    assert forall|yy: int, xx: int| y <= yy < y + 1 && x <= xx < x + 1 implies #[trigger] byte_at(
        data,
        (yy * width + xx) * chan,
    ) == b by {
        assert(yy == y && xx == x);
    }
    assert(0 <= b <= 255);
    law_sampled_height_uniform(data, x, y, x + 1, y + 1, width, chan, b as u8);
}

/// The horizontal bounds of a tile's window depend only on the tile's column, the
/// horizontal sample size and the image width; the vertical bounds only on its row, the
/// vertical sample size and the image height.
pub proof fn law_tile_window_axes(
    px: int,
    py: int,
    sx: int,
    sy: int,
    w: int,
    h: int,
    px2: int,
    py2: int,
    sx2: int,
    sy2: int,
    w2: int,
    h2: int,
)
    ensures
        tile_window(px, py, sx, sy, w, h).0 == tile_window(px, py2, sx, sy2, w, h2).0,
        tile_window(px, py, sx, sy, w, h).2 == tile_window(px, py2, sx, sy2, w, h2).2,
        tile_window(px, py, sx, sy, w, h).1 == tile_window(px2, py, sx2, sy, w2, h).1,
        tile_window(px, py, sx, sy, w, h).3 == tile_window(px2, py, sx2, sy, w2, h).3,
{
}

/// A tile's window lies in the image: columns `x_min .. x_max` with
/// `0 <= x_min <= w - 2` and `1 <= x_max <= w - 1`, rows likewise. Where the
/// window is not cut by the image's edges it is centred on the tile, spanning the even
/// part of the sample size: `x_min + x_max == 2 * px` and `x_max - x_min == 2 * (sx / 2)`.
pub proof fn law_tile_window_centred(px: int, py: int, sx: int, sy: int, w: int, h: int)
    requires
        w >= 2,
        h >= 2,
        sx >= 0,
        sy >= 0,
    ensures
        ({
            let win = tile_window(px, py, sx, sy, w, h);
            &&& 0 <= win.0 <= w - 2 && 1 <= win.2 <= w - 1
            &&& 0 <= win.1 <= h - 2 && 1 <= win.3 <= h - 1
            &&& (0 <= px - sx / 2 <= w - 2 && 1 <= px + sx / 2 <= w - 1) ==> (win.0 + win.2
                == 2 * px && win.2 - win.0 == 2 * (sx / 2))
            &&& (0 <= py - sy / 2 <= h - 2 && 1 <= py + sy / 2 <= h - 1) ==> (win.1 + win.3
                == 2 * py && win.3 - win.1 == 2 * (sy / 2))
        }),
{
}

/// The height sampled for a tile centred at pixel `(px, py)`, from an image of `w` by
/// `h` pixels with three bytes per pixel.
pub open spec fn tile_sample(data: Seq<u8>, px: int, py: int, sx: int, sy: int, w: int, h: int) -> int {
    let win = tile_window(px, py, sx, sy, w, h);
    sampled_height(data, win.0, win.1, win.2, win.3, w, 3)
}

/// Whether the height of a tile centred at pixel `(px, py)` can be sampled without
/// overflow.
pub open spec fn tile_sample_ok(data: Seq<u8>, px: int, py: int, sx: int, sy: int, w: int, h: int) -> bool {
    let win = tile_window(px, py, sx, sy, w, h);
    &&& fits_i32(px - trunc_div(sx, 2)) && fits_i32(px + trunc_div(sx, 2))
    &&& fits_i32(py - trunc_div(sy, 2)) && fits_i32(py + trunc_div(sy, 2))
    &&& sample_ok(data, win.0, win.1, win.2, win.3, w, 3)
}

/// `v` clamped into `lo ..= hi`, as `Ord::clamp` computes it (which panics unless
/// `lo <= hi`).
pub fn clamp_i32(v: i32, lo: i32, hi: i32) -> (res: i32)
    requires
        lo <= hi,
    ensures
        res == clamp_int(v as int, lo as int, hi as int),
{
    if v < lo {
        lo
    } else if v > hi {
        hi
    } else {
        v
    }
}

/// Whether `x` is a value of `i32`.
fn fits_wide(x: i64) -> (res: bool)
    ensures
        res == fits_i32(x as int),
{
    i32::MIN as i64 <= x && x <= i32::MAX as i64
}

/// Whether the start of pixel row `y` can be computed in `i32`.
fn row_start_ok_check(y: i32, x0: i32, width: i32, chan: i32) -> (res: bool)
    ensures
        res == row_start_ok(y as int, x0 as int, width as int, chan as int),
{
    proof {
        assert(-0x4000000000000000 <= y * width <= 0x4000000000000000) by (nonlinear_arith)
            requires
                i32::MIN <= y <= i32::MAX,
                i32::MIN <= width <= i32::MAX,
        ;
    }
    let yw = y as i64 * width as i64;
    if !fits_wide(yw) {
        return false;
    }
    let start = yw + x0 as i64;
    if !fits_wide(start) {
        return false;
    }
    proof {
        assert(-0x4000000000000000 <= start * chan <= 0x4000000000000000) by (nonlinear_arith)
            requires
                i32::MIN <= start <= i32::MAX,
                i32::MIN <= chan <= i32::MAX,
        ;
    }
    fits_wide(start * chan as i64)
}

/// Whether `get_height_by_sample` can sample the pixel rectangle `x0 .. x1`, `y0 .. y1`
/// without overflow (what it requires).
pub fn sample_ok_check(
    data: &Vec<u8>,
    x0: i32,
    y0: i32,
    x1: i32,
    y1: i32,
    width: i32,
    chan: i32,
) -> (res: bool)
    ensures
        res == sample_ok(data@, x0 as int, y0 as int, x1 as int, y1 as int, width as int, chan as int),
{
    if chan < 0 {
        return false;
    }
    let dx = x1 as i64 - x0 as i64;
    let dy = y1 as i64 - y0 as i64;
    if !fits_wide(dx) || !fits_wide(dy) {
        return false;
    }
    if dy < 1 || dx < 1 {
        return row_start_ok_check(y0, x0, width, chan);
    }
    proof {
        assert(dx * dy <= 0x4000000000000000) by (nonlinear_arith)
            requires
                1 <= dx <= i32::MAX,
                1 <= dy <= i32::MAX,
        ;
    }
    if !fits_wide(dx * dy) {
        return false;
    }
    let ghost d = data@;
    let mut sum: u64 = 0;
    let mut y = y0;
    while y < y1
        invariant
            y0 <= y <= y1,
            d == data@,
            chan >= 0,
            x1 - x0 >= 1,
            x1 - x0 <= i32::MAX,
            forall|yy: int|
                y0 <= yy < y ==> #[trigger] row_start_ok(yy, x0 as int, width as int, chan as int)
                    && row_no_wrap(yy, x0 as int, x1 - x0, width as int, chan as int),
            sum == rect_sum(d, x0 as int, y0 as int, x1 as int, y as int, width as int, chan as int),
            sum <= u32::MAX,
        decreases y1 - y,
    {
        if !row_start_ok_check(y, x0, width, chan) {
            return false;
        }
        let base = (y * width + x0) * chan;
        proof {
            assert(0 <= (x1 - x0) * chan <= 0x7fffffff * 0x7fffffff) by (nonlinear_arith)
                requires
                    0 <= x1 - x0 <= 0x7fffffff,
                    0 <= chan <= 0x7fffffff,
            ;
        }
        if base < 0 && base as i64 + (x1 as i64 - x0 as i64) * chan as i64 >= 0 {
            return false;
        }
        assert(base as int == (y * width + x0) * chan);
        assert(row_no_wrap(y as int, x0 as int, x1 - x0, width as int, chan as int));
        let ghost row_base = base as int;
        let mut index: i64 = base as i64;
        let mut row: u64 = 0;
        let mut x = x0;
        proof {
            lemma_row_sum_bounds(d, row_base, chan as int, x1 - x0);
        }
        while x < x1
            invariant
                x0 <= x <= x1,
                d == data@,
                chan >= 0,
                i32::MIN <= row_base <= i32::MAX,
                index == row_base + (x - x0) * chan,
                x1 - x0 <= i32::MAX,
                row == row_sum(d, row_base, chan as int, x - x0),
                row <= 255 * (x - x0),
            decreases x1 - x,
        {
            proof {
                assert(index + chan <= row_base + (x1 - x0) * chan) by (nonlinear_arith)
                    requires
                        index == row_base + (x - x0) * chan,
                        x < x1,
                        chan >= 0,
                ;
                assert((x1 - x0) * chan <= 0x7fffffff * 0x7fffffff) by (nonlinear_arith)
                    requires
                        0 <= x1 - x0 <= 0x7fffffff,
                        0 <= chan <= 0x7fffffff,
                ;
            }
            let b = byte_or_zero(data, index);
            row = row + b as u64;
            index = index + chan as i64;
            proof {
                assert(index == row_base + (x + 1 - x0) * chan) by (nonlinear_arith)
                    requires
                        index == row_base + (x - x0) * chan + chan,
                ;
            }
            x = x + 1;
        }
        sum = sum + row;
        if sum > u32::MAX as u64 {
            proof {
                lemma_rect_sum_mono(d, x0 as int, y0 as int, x1 as int, y as int + 1, y1 as int, width as int, chan as int);
            }
            return false;
        }
        y = y + 1;
    }
    true
}

/// Whether the height of a tile centred at pixel `(px, py)` can be sampled (what
/// `regenerate_from_centers` requires for that tile).
pub fn tile_sample_ok_check(
    data: &Vec<u8>,
    px: i32,
    py: i32,
    sx: i32,
    sy: i32,
    w: i32,
    h: i32,
) -> (res: bool)
    requires
        w >= 2,
        h >= 2,
    ensures
        res == tile_sample_ok(data@, px as int, py as int, sx as int, sy as int, w as int, h as int),
{
    let hx = (sx / 2) as i64;
    let hy = (sy / 2) as i64;
    if !fits_wide(px as i64 - hx) || !fits_wide(px as i64 + hx) || !fits_wide(py as i64 - hy)
        || !fits_wide(py as i64 + hy) {
        return false;
    }
    let x_min = clamp_i32(px - sx / 2, 0, w - 2);
    let x_max = clamp_i32(px + sx / 2, 1, w - 1);
    let y_min = clamp_i32(py - sy / 2, 0, h - 2);
    let y_max = clamp_i32(py + sy / 2, 1, h - 1);
    let ghost win = tile_window(px as int, py as int, sx as int, sy as int, w as int, h as int);
    assert(x_min as int == win.0 && y_min as int == win.1 && x_max as int == win.2 && y_max as int
        == win.3);
    sample_ok_check(data, x_min, y_min, x_max, y_max, w, 3)
}

} // verus!
