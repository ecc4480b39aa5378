//! Viewports, resolutions and the mapping from pixels to points of the plane.

use vstd::arithmetic::div_mod::lemma_fundamental_div_mod;
use vstd::prelude::*;

verus! {

/// The fixed-point value of `1.0`: coordinates carry 24 fractional bits.
pub const ONE: i64 = 16777216;

/// A point `re + im*i` of the complex plane, in fixed point.
#[derive(Clone, Copy, Debug, PartialEq, Eq, Structural)]
pub struct Point {
    pub re: i32,
    pub im: i32,
}

/// The rectangle `[min_x, max_x] x [min_y, max_y]` of the plane, in fixed point.
#[derive(Clone, Copy, Debug, PartialEq, Eq, Structural)]
pub struct Viewport {
    pub min_x: i32,
    pub max_x: i32,
    pub min_y: i32,
    pub max_y: i32,
}

/// The pixel dimensions of an output grid.
#[derive(Clone, Copy, Debug, PartialEq, Eq, Structural)]
pub struct Resolution {
    pub width: usize,
    pub height: usize,
}

impl Viewport {
    /// Both spans are positive.
    pub open spec fn valid(self) -> bool {
        self.min_x < self.max_x && self.min_y < self.max_y
    }

    pub fn new(min_x: i32, max_x: i32, min_y: i32, max_y: i32) -> (v: Viewport)
        ensures
            v == (Viewport { min_x, max_x, min_y, max_y }),
    {
        Viewport { min_x, max_x, min_y, max_y }
    }

    pub fn is_valid(&self) -> (b: bool)
        ensures
            b == self.valid(),
    {
        self.min_x < self.max_x && self.min_y < self.max_y
    }
}

impl Resolution {
    /// Both dimensions are positive.
    pub open spec fn valid(self) -> bool {
        self.width > 0 && self.height > 0
    }

    pub fn new(width: usize, height: usize) -> (r: Resolution)
        ensures
            r == (Resolution { width, height }),
    {
        Resolution { width, height }
    }

    pub fn is_valid(&self) -> (b: bool)
        ensures
            b == self.valid(),
    {
        self.width > 0 && self.height > 0
    }
}

/// Horizontal distance between the points of two adjacent columns.
pub open spec fn step_x(vp: Viewport, res: Resolution) -> int {
    (vp.max_x - vp.min_x) / (res.width as int)
}

/// Vertical distance between the points of two adjacent rows.
pub open spec fn step_y(vp: Viewport, res: Resolution) -> int {
    (vp.max_y - vp.min_y) / (res.height as int)
}

/// Real part of the point of column `col`.
pub open spec fn pixel_re(vp: Viewport, res: Resolution, col: int) -> int {
    vp.min_x + step_x(vp, res) * col
}

/// Imaginary part of the point of row `row`.
pub open spec fn pixel_im(vp: Viewport, res: Resolution, row: int) -> int {
    vp.min_y + step_y(vp, res) * row
}

/// `lo + (hi - lo) / n * k` lies in `[lo, hi]` for `k <= n`.
proof fn lemma_affine_in_span(lo: int, hi: int, n: int, k: int)
    requires
        lo < hi,
        0 < n,
        0 <= k <= n,
    ensures
        lo <= lo + (hi - lo) / n * k <= hi,
{
    let d = (hi - lo) / n;
    lemma_fundamental_div_mod(hi - lo, n);
    assert(0 <= d);
    assert(d * n <= hi - lo) by (nonlinear_arith)
        requires
            hi - lo == n * d + (hi - lo) % n,
            (hi - lo) % n >= 0,
    ;
    assert(0 <= d * k <= d * n) by (nonlinear_arith)
        requires
            0 <= d,
            0 <= k <= n,
    ;
}

/// Distance `(hi - lo) / n` computed in exact integer arithmetic.
fn span_step(lo: i32, hi: i32, n: usize) -> (d: i64)
    requires
        lo < hi,
        n > 0,
    ensures
        d == (hi - lo) / (n as int),
        0 <= d <= hi - lo,
{
    let span: i128 = hi as i128 - lo as i128;
    let d: i128 = span / (n as i128);
    assert(d <= span) by (nonlinear_arith)
        requires
            d == (span as int) / (n as int),
            span > 0,
            n > 0,
    ;
    d as i64
}

/// Maps pixel `(row, col)` to its point of the plane: the top-left pixel is
/// `(min_x, min_y)`, and each column (row) adds one horizontal (vertical) step.
pub fn map_pixel(vp: &Viewport, res: &Resolution, row: usize, col: usize) -> (p: Point)
    requires
        vp.valid(),
        res.valid(),
        row < res.height,
        col < res.width,
    ensures
        p.re == pixel_re(*vp, *res, col as int),
        p.im == pixel_im(*vp, *res, row as int),
{
    let dx = span_step(vp.min_x, vp.max_x, res.width);
    let dy = span_step(vp.min_y, vp.max_y, res.height);
    proof {
        lemma_affine_in_span(vp.min_x as int, vp.max_x as int, res.width as int, col as int);
        lemma_affine_in_span(vp.min_y as int, vp.max_y as int, res.height as int, row as int);
    }
    let re: i128 = vp.min_x as i128 + (dx as i128) * (col as i128);
    let im: i128 = vp.min_y as i128 + (dy as i128) * (row as i128);
    Point { re: re as i32, im: im as i32 }
}

} // verus!
