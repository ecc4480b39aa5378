use mandelbrot::escape::{escape_count, escape_counts_lanes};
use mandelbrot::geometry::{map_pixel, Point, Resolution, Viewport, ONE};
use mandelbrot::grid::{
    check_config, check_lanes_config, compute_parallel, compute_parallel_vectorized,
    compute_row, compute_scalar, generate, ConfigProblem, GridError, RowKernel, DEFAULT_LANES,
};

fn fx(v: f64) -> i32 {
    (v * ONE as f64) as i32
}

fn view(min_x: f64, max_x: f64, min_y: f64, max_y: f64) -> Viewport {
    Viewport::new(fx(min_x), fx(max_x), fx(min_y), fx(max_y))
}

fn classic() -> Viewport {
    view(-2.0, 1.0, -1.5, 1.5)
}

#[test]
fn strategies_produce_identical_grids() {
    let configs = [
        (classic(), Resolution::new(16, 12), 50u64),
        (view(-0.75, -0.70, 0.05, 0.12), Resolution::new(24, 7), 300),
        (view(-1.5, 0.5, -1.0, 1.0), Resolution::new(8, 1), 1),
    ];
    for (vp, res, budget) in configs.iter() {
        let s = compute_scalar(vp, res, *budget).unwrap();
        let p = compute_parallel(vp, res, *budget).unwrap();
        let v4 = compute_parallel_vectorized(vp, res, *budget, 4).unwrap();
        let v8 = compute_parallel_vectorized(vp, res, *budget, 8).unwrap();
        let v1 = compute_parallel_vectorized(vp, res, *budget, 1).unwrap();
        assert_eq!(s.len(), res.width * res.height);
        assert_eq!(s, p);
        assert_eq!(p, v4);
        assert_eq!(v4, v8);
        assert_eq!(v8, v1);
    }
}

#[test]
fn cells_lie_within_budget() {
    let vp = classic();
    let res = Resolution::new(32, 24);
    for budget in [1u64, 2, 17, 64] {
        let g = compute_parallel(&vp, &res, budget).unwrap();
        assert!(g.iter().all(|&c| (c as u64) <= budget));
        assert!(g.iter().any(|&c| c as u64 == budget));
    }
}

#[test]
fn origin_reports_budget() {
    assert_eq!(escape_count(Point { re: 0, im: 0 }, 0), 0);
    assert_eq!(escape_count(Point { re: 0, im: 0 }, 1), 1);
    assert_eq!(escape_count(Point { re: 0, im: 0 }, 255), 255);
    // The top-left pixel of this window is the origin.
    let vp = view(0.0, 1.0, 0.0, 1.0);
    let res = Resolution::new(8, 8);
    for budget in [1u64, 100, 1000] {
        let s = compute_scalar(&vp, &res, budget).unwrap();
        let p = compute_parallel(&vp, &res, budget).unwrap();
        let v = compute_parallel_vectorized(&vp, &res, budget, 8).unwrap();
        assert_eq!(s[0] as u64, budget);
        assert_eq!(p[0] as u64, budget);
        assert_eq!(v[0] as u64, budget);
    }
}

#[test]
fn far_point_diverges_at_first_step() {
    let c = Point { re: fx(3.0), im: fx(3.0) };
    assert_eq!(escape_count(c, 1), 1);
    assert_eq!(escape_count(c, 100), 1);
    assert_eq!(escape_counts_lanes(&vec![c, c, c], 100), vec![1, 1, 1]);
    let vp = view(3.0, 4.0, 3.0, 4.0);
    let res = Resolution::new(4, 2);
    let s = compute_scalar(&vp, &res, 100).unwrap();
    let p = compute_parallel(&vp, &res, 100).unwrap();
    let v = compute_parallel_vectorized(&vp, &res, 100, 4).unwrap();
    assert_eq!(s[0], 1);
    assert_eq!(p[0], 1);
    assert_eq!(v[0], 1);
}

#[test]
fn known_escape_times() {
    // 1: 0 -> 1 -> 2 -> 5, escaping at the third step.
    assert_eq!(escape_count(Point { re: fx(1.0), im: 0 }, 100), 3);
    // 0.5: 0.5, 0.75, 1.0625, 1.62890625, 3.15..., escaping at the fifth step.
    assert_eq!(escape_count(Point { re: fx(0.5), im: 0 }, 100), 5);
    assert_eq!(escape_count(Point { re: fx(0.5), im: 0 }, 4), 4);
    // -2: 0 -> -2 -> 2 -> 2 ..., on the boundary |z|^2 == 4, never above it.
    assert_eq!(escape_count(Point { re: fx(-2.0), im: 0 }, 40), 40);
    // i: 0 -> i -> -1+i -> -i -> -1+i ..., a cycle.
    assert_eq!(escape_count(Point { re: 0, im: fx(1.0) }, 60), 60);
    // -2 - 1.5i: |c|^2 = 6.25.
    assert_eq!(escape_count(Point { re: fx(-2.0), im: fx(-1.5) }, 100), 1);
}

#[test]
fn lane_group_matches_single_points() {
    let cs = vec![
        Point { re: fx(1.0), im: 0 },
        Point { re: fx(0.5), im: 0 },
        Point { re: 0, im: 0 },
        Point { re: fx(3.0), im: fx(3.0) },
        Point { re: fx(-0.75), im: fx(0.1) },
    ];
    let counts = escape_counts_lanes(&cs, 100);
    assert_eq!(counts, vec![3, 5, 100, 1, escape_count(cs[4], 100)]);
    assert_eq!(escape_counts_lanes(&Vec::new(), 10), Vec::<u32>::new());
}

#[test]
fn mapping_steps_evenly() {
    let vp = classic();
    let res = Resolution::new(800, 600);
    let dx = (vp.max_x as i64 - vp.min_x as i64) / 800;
    let dy = (vp.max_y as i64 - vp.min_y as i64) / 600;
    assert_eq!(dx, 62914);
    assert_eq!(dy, 83886);
    let origin = map_pixel(&vp, &res, 0, 0);
    assert_eq!(origin, Point { re: fx(-2.0), im: fx(-1.5) });
    for (row, col) in [(0usize, 0usize), (5, 17), (599, 798), (300, 400)] {
        let a = map_pixel(&vp, &res, row, col);
        let b = map_pixel(&vp, &res, row, col + 1);
        assert_eq!(b.re as i64 - a.re as i64, dx);
        assert_eq!(b.im, a.im);
    }
    for (row, col) in [(0usize, 0usize), (598, 799), (123, 456)] {
        let a = map_pixel(&vp, &res, row, col);
        let b = map_pixel(&vp, &res, row + 1, col);
        assert_eq!(b.im as i64 - a.im as i64, dy);
        assert_eq!(b.re, a.re);
    }
    let last = map_pixel(&vp, &res, 599, 799);
    assert_eq!(last.re as i64, fx(-2.0) as i64 + 799 * dx);
}

#[test]
fn misaligned_width_is_rejected() {
    let vp = classic();
    let res = Resolution::new(10, 4);
    let err = GridError::ConfigurationError(ConfigProblem::WidthNotMultipleOfLanes);
    assert_eq!(compute_parallel_vectorized(&vp, &res, 50, 4), Err(err));
    assert_eq!(compute_parallel_vectorized(&vp, &res, 50, 3), Err(err));
    assert_eq!(generate(vp.min_x, vp.max_x, vp.min_y, vp.max_y, 12, 4, 50), Err(err));
    assert!(compute_parallel_vectorized(&vp, &res, 50, 5).is_ok());
    assert!(compute_parallel_vectorized(&vp, &res, 50, 10).is_ok());
}

#[test]
fn classic_window_scenario() {
    let vp = classic();
    let res = Resolution::new(800, 600);
    let g = compute_parallel(&vp, &res, 100).unwrap();
    assert_eq!(g.len(), 480000);
    assert!(g.iter().all(|&c| c <= 100));
    assert!(g[0] <= 2);
    assert_eq!(g[0], 1);
    // Row 300, column 533 is close to the origin, which lies in the set.
    assert_eq!(g[300 * 800 + 533], 100);
}

#[test]
fn parallel_runs_are_deterministic() {
    let vp = view(-0.8, -0.7, 0.0, 0.1);
    let res = Resolution::new(64, 48);
    let a = compute_parallel(&vp, &res, 500).unwrap();
    let b = compute_parallel(&vp, &res, 500).unwrap();
    assert_eq!(a, b);
    let pool = rayon::ThreadPoolBuilder::new().num_threads(1).build().unwrap();
    let c = pool.install(|| compute_parallel(&vp, &res, 500).unwrap());
    assert_eq!(a, c);
    let pool3 = rayon::ThreadPoolBuilder::new().num_threads(3).build().unwrap();
    let d = pool3.install(|| compute_parallel_vectorized(&vp, &res, 500, 8).unwrap());
    assert_eq!(a, d);
}

#[test]
fn configuration_errors() {
    let vp = classic();
    let res = Resolution::new(8, 8);
    let cfg = |p| Err(GridError::ConfigurationError(p));
    let flat_x = Viewport::new(fx(1.0), fx(1.0), fx(-1.0), fx(1.0));
    let flipped_y = Viewport::new(fx(-1.0), fx(1.0), fx(1.0), fx(-1.0));
    assert_eq!(compute_scalar(&flat_x, &res, 10), cfg(ConfigProblem::DegenerateViewport));
    assert_eq!(compute_parallel(&flipped_y, &res, 10), cfg(ConfigProblem::DegenerateViewport));
    assert_eq!(
        compute_parallel_vectorized(&flat_x, &res, 10, 8),
        cfg(ConfigProblem::DegenerateViewport)
    );
    assert_eq!(compute_scalar(&vp, &Resolution::new(0, 8), 10), cfg(ConfigProblem::EmptyResolution));
    assert_eq!(compute_parallel(&vp, &Resolution::new(8, 0), 10), cfg(ConfigProblem::EmptyResolution));
    assert_eq!(compute_scalar(&vp, &res, 0), cfg(ConfigProblem::ZeroBudget));
    assert_eq!(
        compute_parallel_vectorized(&vp, &res, 10, 0),
        cfg(ConfigProblem::ZeroLaneWidth)
    );
    assert_eq!(check_config(&vp, &res, 10), None);
    assert_eq!(check_lanes_config(&vp, &res, 10, 8), None);
}

#[test]
fn budget_beyond_count_type_overflows() {
    let vp = classic();
    let res = Resolution::new(8, 8);
    let big = u32::MAX as u64 + 1;
    assert_eq!(compute_scalar(&vp, &res, big), Err(GridError::NumericOverflowError));
    assert_eq!(compute_parallel(&vp, &res, big), Err(GridError::NumericOverflowError));
    assert_eq!(
        compute_parallel_vectorized(&vp, &res, big, 8),
        Err(GridError::NumericOverflowError)
    );
    assert_eq!(check_config(&vp, &res, u32::MAX as u64), None);
}

#[test]
fn generate_uses_default_lanes() {
    let vp = classic();
    let res = Resolution::new(16, 9);
    let g = generate(vp.min_x, vp.max_x, vp.min_y, vp.max_y, 16, 9, 80).unwrap();
    assert_eq!(DEFAULT_LANES, 8);
    assert_eq!(g, compute_parallel_vectorized(&vp, &res, 80, 8).unwrap());
    assert_eq!(g, compute_scalar(&vp, &res, 80).unwrap());
}

#[test]
fn rows_agree_across_kernels() {
    let vp = classic();
    let res = Resolution::new(12, 6);
    let grid = compute_scalar(&vp, &res, 40).unwrap();
    for row in 0..6 {
        let a = compute_row(&vp, &res, 40, RowKernel::Scalar, row);
        let b = compute_row(&vp, &res, 40, RowKernel::Lanes(4), row);
        let c = compute_row(&vp, &res, 40, RowKernel::Lanes(6), row);
        assert_eq!(a, b);
        assert_eq!(b, c);
        assert_eq!(a[..], grid[row * 12..(row + 1) * 12]);
    }
}
