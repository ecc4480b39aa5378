//! Output grids: configuration checks, rows, the row scheduler and the three
//! computation strategies.

use crate::escape::{escape_count, escape_counts_lanes, escape_time};
use crate::geometry::{map_pixel, pixel_im, pixel_re, Point, Resolution, Viewport};
use rayon::iter::{IntoParallelIterator, ParallelIterator};
use vstd::arithmetic::div_mod::{lemma_fundamental_div_mod, lemma_fundamental_div_mod_converse};
use vstd::prelude::*;

verus! {

/// Lane width used by [`generate`].
pub const DEFAULT_LANES: usize = 8;

/// What makes a configuration unusable.
#[derive(Clone, Copy, Debug, PartialEq, Eq, Structural)]
pub enum ConfigProblem {
    /// A span of the viewport is zero or negative.
    DegenerateViewport,
    /// The width or the height is zero.
    EmptyResolution,
    /// The iteration budget is zero.
    ZeroBudget,
    /// The lane width is zero.
    ZeroLaneWidth,
    /// The width is not a multiple of the lane width.
    WidthNotMultipleOfLanes,
}

/// Why a grid was not computed. Every error is reported before any work.
#[derive(Clone, Copy, Debug, PartialEq, Eq, Structural)]
pub enum GridError {
    ConfigurationError(ConfigProblem),
    /// The budget does not fit the `u32` count type.
    NumericOverflowError,
}

/// How each row is computed.
#[derive(Clone, Copy, Debug, PartialEq, Eq, Structural)]
pub enum RowKernel {
    /// One point at a time.
    Scalar,
    /// Groups of this many adjacent points, iterated in lock step.
    Lanes(usize),
}

/// The first problem of a configuration, if any.
pub open spec fn config_problem(vp: Viewport, res: Resolution, budget: u64) -> Option<GridError> {
    if !vp.valid() {
        Some(GridError::ConfigurationError(ConfigProblem::DegenerateViewport))
    } else if !res.valid() {
        Some(GridError::ConfigurationError(ConfigProblem::EmptyResolution))
    } else if budget == 0 {
        Some(GridError::ConfigurationError(ConfigProblem::ZeroBudget))
    } else if budget > u32::MAX {
        Some(GridError::NumericOverflowError)
    } else {
        None
    }
}

/// The first problem of a lane-grouped configuration, if any.
pub open spec fn lanes_problem(vp: Viewport, res: Resolution, budget: u64, lane_width: usize) -> Option<
    GridError,
> {
    if config_problem(vp, res, budget) is Some {
        config_problem(vp, res, budget)
    } else if lane_width == 0 {
        Some(GridError::ConfigurationError(ConfigProblem::ZeroLaneWidth))
    } else if res.width % lane_width != 0 {
        Some(GridError::ConfigurationError(ConfigProblem::WidthNotMultipleOfLanes))
    } else {
        None
    }
}

/// The count of pixel `(row, col)`.
pub open spec fn cell(vp: Viewport, res: Resolution, budget: nat, row: int, col: int) -> nat {
    escape_time(pixel_re(vp, res, col), pixel_im(vp, res, row), budget)
}

/// `r` holds the counts of row `row`, left to right.
pub open spec fn is_row(r: Seq<u32>, vp: Viewport, res: Resolution, budget: nat, row: int) -> bool {
    &&& r.len() == res.width
    &&& forall|col: int| 0 <= col < res.width ==> #[trigger] r[col] == cell(vp, res, budget, row, col)
}

/// `g` holds the counts of every pixel, row-major.
pub open spec fn is_grid(g: Seq<u32>, vp: Viewport, res: Resolution, budget: nat) -> bool {
    &&& g.len() == res.width * res.height
    &&& forall|i: int|
        0 <= i < g.len() ==> #[trigger] g[i] == cell(
            vp,
            res,
            budget,
            i / (res.width as int),
            i % (res.width as int),
        )
}

/// The result is the grid exactly when there is no problem, and the problem otherwise.
pub open spec fn grid_outcome(
    r: Result<Vec<u32>, GridError>,
    problem: Option<GridError>,
    vp: Viewport,
    res: Resolution,
    budget: u64,
) -> bool {
    match r {
        Ok(g) => problem is None && is_grid(g@, vp, res, budget as nat),
        Err(e) => problem == Some(e),
    }
}

/// The kernel can cover a row of this resolution.
pub open spec fn kernel_fits(kernel: RowKernel, res: Resolution) -> bool {
    match kernel {
        RowKernel::Scalar => true,
        RowKernel::Lanes(lw) => lw > 0 && res.width % lw == 0,
    }
}

/// Checks a configuration before any work is done.
pub fn check_config(vp: &Viewport, res: &Resolution, budget: u64) -> (p: Option<GridError>)
    ensures
        p == config_problem(*vp, *res, budget),
{
    if !vp.is_valid() {
        Some(GridError::ConfigurationError(ConfigProblem::DegenerateViewport))
    } else if !res.is_valid() {
        Some(GridError::ConfigurationError(ConfigProblem::EmptyResolution))
    } else if budget == 0 {
        Some(GridError::ConfigurationError(ConfigProblem::ZeroBudget))
    } else if budget > u32::MAX as u64 {
        Some(GridError::NumericOverflowError)
    } else {
        None
    }
}

/// Checks a lane-grouped configuration before any work is done.
pub fn check_lanes_config(vp: &Viewport, res: &Resolution, budget: u64, lane_width: usize) -> (p:
    Option<GridError>)
    ensures
        p == lanes_problem(*vp, *res, budget, lane_width),
{
    let p = check_config(vp, res, budget);
    if p.is_some() {
        p
    } else if lane_width == 0 {
        Some(GridError::ConfigurationError(ConfigProblem::ZeroLaneWidth))
    } else if res.width % lane_width != 0 {
        Some(GridError::ConfigurationError(ConfigProblem::WidthNotMultipleOfLanes))
    } else {
        None
    }
}

/// Group `g` of width `lw` ends within a width that `lw` divides.
proof fn lemma_group_in_row(g: int, l: int, lw: int, w: int)
    requires
        lw > 0,
        w % lw == 0,
        0 <= g < w / lw,
        0 <= l < lw,
    ensures
        0 <= g * lw + l < w,
        w == (w / lw) * lw,
{
    lemma_fundamental_div_mod(w, lw);
    assert(w == (w / lw) * lw) by (nonlinear_arith)
        requires
            w == lw * (w / lw) + w % lw,
            w % lw == 0,
    ;
    assert(0 <= g * lw + l < w) by (nonlinear_arith)
        requires
            0 <= g < w / lw,
            0 <= l < lw,
            w == (w / lw) * lw,
    ;
}

/// Counts of one row, computed with the given kernel.
pub fn compute_row(vp: &Viewport, res: &Resolution, budget: u32, kernel: RowKernel, row: usize) -> (out:
    Vec<u32>)
    requires
        vp.valid(),
        res.valid(),
        row < res.height,
        kernel_fits(kernel, *res),
    ensures
        is_row(out@, *vp, *res, budget as nat, row as int),
{
    let w = res.width;
    let mut out: Vec<u32> = Vec::new();
    match kernel {
        RowKernel::Scalar => {
            let mut col: usize = 0;
            while col < w
                invariant
                    vp.valid(),
                    res.valid(),
                    row < res.height,
                    w == res.width,
                    col <= w,
                    out@.len() == col,
                    forall|j: int|
                        0 <= j < col ==> #[trigger] out@[j] == cell(
                            *vp,
                            *res,
                            budget as nat,
                            row as int,
                            j,
                        ),
                decreases w - col,
            {
                let p = map_pixel(vp, res, row, col);
                out.push(escape_count(p, budget));
                col = col + 1;
            }
        },
        RowKernel::Lanes(lw) => {
            let groups = w / lw;
            let mut g: usize = 0;
            while g < groups
                invariant
                    vp.valid(),
                    res.valid(),
                    row < res.height,
                    w == res.width,
                    lw > 0,
                    w % lw == 0,
                    groups == w / lw,
                    g <= groups,
                    out@.len() == g * lw,
                    forall|j: int|
                        0 <= j < g * lw ==> #[trigger] out@[j] == cell(
                            *vp,
                            *res,
                            budget as nat,
                            row as int,
                            j,
                        ),
                decreases groups - g,
            {
                let mut points: Vec<Point> = Vec::new();
                let mut l: usize = 0;
                while l < lw
                    invariant
                        vp.valid(),
                        res.valid(),
                        row < res.height,
                        w == res.width,
                        lw > 0,
                        w % lw == 0,
                        groups == w / lw,
                        g < groups,
                        l <= lw,
                        points@.len() == l,
                        forall|k: int|
                            0 <= k < l ==> #[trigger] points@[k].re == pixel_re(
                                *vp,
                                *res,
                                g * lw + k,
                            ) && points@[k].im == pixel_im(*vp, *res, row as int),
                    decreases lw - l,
                {
                    proof {
                        lemma_group_in_row(g as int, l as int, lw as int, w as int);
                    }
                    points.push(map_pixel(vp, res, row, g * lw + l));
                    l = l + 1;
                }
                let counts = escape_counts_lanes(&points, budget);
                let ghost before = out@;
                let mut l: usize = 0;
                while l < lw
                    invariant
                        vp.valid(),
                        res.valid(),
                        w == res.width,
                        lw > 0,
                        w % lw == 0,
                        groups == w / lw,
                        g < groups,
                        l <= lw,
                        counts@.len() == lw,
                        points@.len() == lw,
                        before.len() == g * lw,
                        out@.len() == g * lw + l,
                        forall|j: int| 0 <= j < g * lw ==> #[trigger] out@[j] == before[j],
                        forall|j: int|
                            0 <= j < g * lw ==> #[trigger] before[j] == cell(
                                *vp,
                                *res,
                                budget as nat,
                                row as int,
                                j,
                            ),
                        forall|k: int|
                            0 <= k < l ==> #[trigger] out@[g * lw + k] == cell(
                                *vp,
                                *res,
                                budget as nat,
                                row as int,
                                g * lw + k,
                            ),
                        forall|k: int|
                            0 <= k < lw ==> #[trigger] points@[k].re == pixel_re(
                                *vp,
                                *res,
                                g * lw + k,
                            ) && points@[k].im == pixel_im(*vp, *res, row as int),
                        forall|k: int|
                            0 <= k < lw ==> #[trigger] counts@[k] == escape_time(
                                points@[k].re as int,
                                points@[k].im as int,
                                budget as nat,
                            ),
                    decreases lw - l,
                {
                    proof {
                        lemma_group_in_row(g as int, l as int, lw as int, w as int);
                    }
                    out.push(counts[l]);
                    l = l + 1;
                }
                proof {
                    assert((g + 1) * lw == g * lw + lw) by (nonlinear_arith);
                    assert forall|j: int| 0 <= j < (g + 1) * lw implies #[trigger] out@[j] == cell(
                        *vp,
                        *res,
                        budget as nat,
                        row as int,
                        j,
                    ) by {
                        if j >= g * lw {
                            let k = j - g * lw;
                            assert(out@[g * lw + k] == cell(*vp, *res, budget as nat, row as int, g * lw + k));
                        }
                    }
                }
                g = g + 1;
            }
            proof {
                lemma_fundamental_div_mod(w as int, lw as int);
                assert(g * lw == w) by (nonlinear_arith)
                    requires
                        g == w / lw,
                        w == lw * (w / lw) + w % lw,
                        w % lw == 0,
                ;
            }
        },
    }
    out
}

/// Counts of every row, each row computed by its own task on rayon's thread
/// pool. Relies on rayon's `into_par_iter` over a `Range<usize>`, `map` and
/// `collect` into a `Vec`: an indexed parallel iterator hands each index to the
/// closure once and collects the results in index order.
#[verifier::external_body]
fn rows_in_parallel(vp: &Viewport, res: &Resolution, budget: u32, kernel: RowKernel) -> (rows: Vec<
    Vec<u32>,
>)
    requires
        vp.valid(),
        res.valid(),
        kernel_fits(kernel, *res),
    ensures
        rows@.len() == res.height,
        forall|r: int|
            0 <= r < res.height ==> is_row(#[trigger] rows@[r]@, *vp, *res, budget as nat, r),
{
    (0..res.height).into_par_iter().map(|row| compute_row(vp, res, budget, kernel, row)).collect()
}

/// Rows computed one after another on the calling thread.
fn rows_in_sequence(vp: &Viewport, res: &Resolution, budget: u32) -> (rows: Vec<Vec<u32>>)
    requires
        vp.valid(),
        res.valid(),
    ensures
        rows@.len() == res.height,
        forall|r: int|
            0 <= r < res.height ==> is_row(#[trigger] rows@[r]@, *vp, *res, budget as nat, r),
{
    let mut rows: Vec<Vec<u32>> = Vec::new();
    let mut row: usize = 0;
    while row < res.height
        invariant
            vp.valid(),
            res.valid(),
            row <= res.height,
            rows@.len() == row,
            forall|r: int|
                0 <= r < row ==> is_row(#[trigger] rows@[r]@, *vp, *res, budget as nat, r),
        decreases res.height - row,
    {
        rows.push(compute_row(vp, res, budget, RowKernel::Scalar, row));
        row = row + 1;
    }
    rows
}

/// Position `r * w + j` of a row-major grid is row `r`, column `j`.
proof fn lemma_cell_index(r: int, j: int, w: int, h: int)
    requires
        0 <= r < h,
        0 <= j < w,
    ensures
        (r * w + j) / w == r,
        (r * w + j) % w == j,
        r * w + j < w * h,
        0 <= r * w,
        (r + 1) * w == r * w + w,
{
    lemma_fundamental_div_mod_converse(r * w + j, w, r, j);
    assert(r * w + j < w * h && 0 <= r * w && (r + 1) * w == r * w + w) by (nonlinear_arith)
        requires
            0 <= r < h,
            0 <= j < w,
    ;
}

/// The grid made of `rows` laid end to end: every cell of it is written by
/// exactly one push, so no cell is left unset.
fn concat_rows(rows: &Vec<Vec<u32>>, vp: &Viewport, res: &Resolution, budget: u32) -> (g: Vec<u32>)
    requires
        res.valid(),
        res.width * res.height <= usize::MAX,
        rows@.len() == res.height,
        forall|r: int|
            0 <= r < res.height ==> is_row(#[trigger] rows@[r]@, *vp, *res, budget as nat, r),
    ensures
        is_grid(g@, *vp, *res, budget as nat),
{
    let w = res.width;
    let h = res.height;
    let mut g: Vec<u32> = Vec::new();
    let mut r: usize = 0;
    while r < h
        invariant
            w == res.width,
            h == res.height,
            w > 0,
            w * h <= usize::MAX,
            rows@.len() == h,
            forall|q: int| 0 <= q < h ==> is_row(#[trigger] rows@[q]@, *vp, *res, budget as nat, q),
            r <= h,
            g@.len() == r * w,
            forall|i: int|
                0 <= i < g@.len() ==> #[trigger] g@[i] == cell(
                    *vp,
                    *res,
                    budget as nat,
                    i / (w as int),
                    i % (w as int),
                ),
        decreases h - r,
    {
        let row = &rows[r];
        assert(is_row(rows@[r as int]@, *vp, *res, budget as nat, r as int));
        let mut j: usize = 0;
        while j < w
            invariant
                w == res.width,
                h == res.height,
                w > 0,
                w * h <= usize::MAX,
                r < h,
                j <= w,
                row@ == rows@[r as int]@,
                is_row(row@, *vp, *res, budget as nat, r as int),
                g@.len() == r * w + j,
                forall|i: int|
                    0 <= i < g@.len() ==> #[trigger] g@[i] == cell(
                        *vp,
                        *res,
                        budget as nat,
                        i / (w as int),
                        i % (w as int),
                    ),
            decreases w - j,
        {
            proof {
                lemma_cell_index(r as int, j as int, w as int, h as int);
            }
            g.push(row[j]);
            j = j + 1;
        }
        proof {
            lemma_cell_index(r as int, 0, w as int, h as int);
        }
        r = r + 1;
    }
    proof {
        assert(r * w == w * h) by (nonlinear_arith)
            requires
                r == h,
        ;
    }
    g
}

/// Computes the grid sequentially, one point at a time.
pub fn compute_scalar(vp: &Viewport, res: &Resolution, budget: u64) -> (r: Result<Vec<u32>, GridError>)
    requires
        res.width * res.height <= usize::MAX,
    ensures
        grid_outcome(r, config_problem(*vp, *res, budget), *vp, *res, budget),
{
    if let Some(e) = check_config(vp, res, budget) {
        return Err(e);
    }
    let rows = rows_in_sequence(vp, res, budget as u32);
    Ok(concat_rows(&rows, vp, res, budget as u32))
}

/// Computes the grid with one task per row on a thread pool, one point at a
/// time. The result depends on the inputs alone, not on the pool.
pub fn compute_parallel(vp: &Viewport, res: &Resolution, budget: u64) -> (r: Result<
    Vec<u32>,
    GridError,
>)
    requires
        res.width * res.height <= usize::MAX,
    ensures
        grid_outcome(r, config_problem(*vp, *res, budget), *vp, *res, budget),
{
    if let Some(e) = check_config(vp, res, budget) {
        return Err(e);
    }
    let rows = rows_in_parallel(vp, res, budget as u32, RowKernel::Scalar);
    Ok(concat_rows(&rows, vp, res, budget as u32))
}

/// Computes the grid with one task per row on a thread pool, each row in
/// groups of `lane_width` points iterated in lock step. A width that is not a
/// multiple of `lane_width` is rejected before any work.
pub fn compute_parallel_vectorized(
    vp: &Viewport,
    res: &Resolution,
    budget: u64,
    lane_width: usize,
) -> (r: Result<Vec<u32>, GridError>)
    requires
        res.width * res.height <= usize::MAX,
    ensures
        grid_outcome(r, lanes_problem(*vp, *res, budget, lane_width), *vp, *res, budget),
{
    if let Some(e) = check_lanes_config(vp, res, budget, lane_width) {
        return Err(e);
    }
    let rows = rows_in_parallel(vp, res, budget as u32, RowKernel::Lanes(lane_width));
    Ok(concat_rows(&rows, vp, res, budget as u32))
}

/// The lane-grouped parallel grid of the window `[min_x, max_x] x [min_y, max_y]`
/// at `width x height` pixels, with `DEFAULT_LANES` lanes per group.
pub fn generate(
    min_x: i32,
    max_x: i32,
    min_y: i32,
    max_y: i32,
    width: usize,
    height: usize,
    iters: u32,
) -> (r: Result<Vec<u32>, GridError>)
    requires
        width * height <= usize::MAX,
    ensures
        grid_outcome(
            r,
            lanes_problem(
                Viewport { min_x, max_x, min_y, max_y },
                Resolution { width, height },
                iters as u64,
                DEFAULT_LANES,
            ),
            Viewport { min_x, max_x, min_y, max_y },
            Resolution { width, height },
            iters as u64,
        ),
{
    let vp = Viewport::new(min_x, max_x, min_y, max_y);
    let res = Resolution::new(width, height);
    compute_parallel_vectorized(&vp, &res, iters as u64, DEFAULT_LANES)
}

} // verus!
