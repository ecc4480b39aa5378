//! Properties that hold of every input, proved over the contracts of the
//! computation functions.

use crate::escape::{escape_time, escaped, next_im, next_re, rescale, steps_from};
use crate::geometry::{pixel_im, pixel_re, step_x, step_y, Resolution, Viewport};
use crate::grid::{
    config_problem, grid_outcome, is_grid, lanes_problem, ConfigProblem, GridError,
};
use vstd::prelude::*;

verus! {

/// Two sequences that both hold the grid of one configuration are equal.
pub proof fn grid_is_unique(a: Seq<u32>, b: Seq<u32>, vp: Viewport, res: Resolution, budget: nat)
    requires
        is_grid(a, vp, res, budget),
        is_grid(b, vp, res, budget),
    ensures
        a == b,
{
    assert(a =~= b);
}

/// For every valid configuration the scalar, the parallel and the lane-grouped
/// parallel strategies all succeed and produce identical grids.
pub proof fn strategies_agree(
    vp: Viewport,
    res: Resolution,
    budget: u64,
    lane_width: usize,
    scalar: Result<Vec<u32>, GridError>,
    parallel: Result<Vec<u32>, GridError>,
    vectorized: Result<Vec<u32>, GridError>,
)
    requires
        lanes_problem(vp, res, budget, lane_width) is None,
        grid_outcome(scalar, config_problem(vp, res, budget), vp, res, budget),
        grid_outcome(parallel, config_problem(vp, res, budget), vp, res, budget),
        grid_outcome(vectorized, lanes_problem(vp, res, budget, lane_width), vp, res, budget),
    ensures
        scalar is Ok,
        parallel is Ok,
        vectorized is Ok,
        scalar->Ok_0@ == parallel->Ok_0@,
        parallel->Ok_0@ == vectorized->Ok_0@,
{
    grid_is_unique(scalar->Ok_0@, parallel->Ok_0@, vp, res, budget as nat);
    grid_is_unique(parallel->Ok_0@, vectorized->Ok_0@, vp, res, budget as nat);
}

/// Running the parallel strategy twice on the same inputs gives the same
/// result, whatever the thread pool did.
pub proof fn parallel_is_deterministic(
    vp: Viewport,
    res: Resolution,
    budget: u64,
    first: Result<Vec<u32>, GridError>,
    second: Result<Vec<u32>, GridError>,
)
    requires
        grid_outcome(first, config_problem(vp, res, budget), vp, res, budget),
        grid_outcome(second, config_problem(vp, res, budget), vp, res, budget),
    ensures
        first is Ok <==> second is Ok,
        first is Ok ==> first->Ok_0@ == second->Ok_0@,
        first is Err ==> first == second,
{
    if first is Ok {
        grid_is_unique(first->Ok_0@, second->Ok_0@, vp, res, budget as nat);
    }
}

/// No iterate takes more steps than its fuel.
pub proof fn steps_within_fuel(re: int, im: int, c_re: int, c_im: int, fuel: nat)
    ensures
        steps_from(re, im, c_re, c_im, fuel) <= fuel,
    decreases fuel,
{
    if fuel > 0 && !escaped(re, im) {
        steps_within_fuel(next_re(re, im, c_re), next_im(re, im, c_im), c_re, c_im, (fuel - 1) as nat);
    }
}

/// Every cell of a grid lies in `[0, budget]`.
pub proof fn cells_within_budget(g: Seq<u32>, vp: Viewport, res: Resolution, budget: nat)
    requires
        is_grid(g, vp, res, budget),
    ensures
        forall|i: int| 0 <= i < g.len() ==> 0 <= #[trigger] g[i] <= budget,
{
    assert forall|i: int| 0 <= i < g.len() implies 0 <= #[trigger] g[i] <= budget by {
        let w = res.width as int;
        steps_within_fuel(0, 0, pixel_re(vp, res, i % w), pixel_im(vp, res, i / w), budget);
    }
}

/// Starting from the origin with `c = 0` the iterate stays at the origin.
proof fn origin_steps(fuel: nat)
    ensures
        steps_from(0, 0, 0, 0, fuel) == fuel,
    decreases fuel,
{
    if fuel > 0 {
        assert(rescale(0) == 0);
        assert(next_re(0, 0, 0) == 0 && next_im(0, 0, 0) == 0);
        origin_steps((fuel - 1) as nat);
    }
}

/// The point `c = 0` lies in the set: its count is always the budget.
pub proof fn origin_reaches_budget(budget: nat)
    ensures
        escape_time(0, 0, budget) == budget,
{
    origin_steps(budget);
}

/// A point outside the disc of radius 2 escapes after its first step: its
/// count is 1 for every positive budget.
pub proof fn far_point_escapes_at_once(c_re: int, c_im: int, budget: nat)
    requires
        escaped(c_re, c_im),
        budget >= 1,
    ensures
        escape_time(c_re, c_im, budget) == 1,
{
    assert(rescale(0) == 0);
    assert(next_re(0, 0, c_re) == c_re && next_im(0, 0, c_im) == c_im);
    assert(steps_from(c_re, c_im, c_re, c_im, (budget - 1) as nat) == 0);
}

/// Adjacent columns are one horizontal step apart, and adjacent rows one
/// vertical step apart.
pub proof fn mapping_is_affine(vp: Viewport, res: Resolution, row: int, col: int)
    ensures
        pixel_re(vp, res, col + 1) - pixel_re(vp, res, col) == step_x(vp, res),
        pixel_im(vp, res, row + 1) - pixel_im(vp, res, row) == step_y(vp, res),
{
    let dx = step_x(vp, res);
    let dy = step_y(vp, res);
    assert(dx * (col + 1) == dx * col + dx) by (nonlinear_arith);
    assert(dy * (row + 1) == dy * row + dy) by (nonlinear_arith);
}

/// A width that is not a multiple of the lane width is rejected with a
/// configuration error, and no grid is handed out.
pub proof fn misaligned_width_rejected(
    vp: Viewport,
    res: Resolution,
    budget: u64,
    lane_width: usize,
    r: Result<Vec<u32>, GridError>,
)
    requires
        config_problem(vp, res, budget) is None,
        lane_width > 0,
        res.width % lane_width != 0,
        grid_outcome(r, lanes_problem(vp, res, budget, lane_width), vp, res, budget),
    ensures
        r == Err::<Vec<u32>, GridError>(
            GridError::ConfigurationError(ConfigProblem::WidthNotMultipleOfLanes),
        ),
{
}

} // verus!
