//! The escape-time iteration `z <- z*z + c` from `z = 0`, for one point and
//! for a group of points advanced in lock step under a divergence mask.

use crate::geometry::{Point, ONE};
use vstd::prelude::*;

verus! {

/// Largest magnitude that an iterate component reaches: one step from a point
/// that has not escaped lands within `4 + |c|`.
pub open spec fn iterate_bound() -> int {
    0x2_0000_0000
}

/// Fixed-point rescaling of a product, rounding toward zero.
pub open spec fn rescale(p: int) -> int {
    if p >= 0 {
        p / (ONE as int)
    } else {
        -((-p) / (ONE as int))
    }
}

/// `|z|^2 > 4`: the iterate has escaped.
pub open spec fn escaped(re: int, im: int) -> bool {
    re * re + im * im > 4 * ONE * ONE
}

/// Real part of `z*z + c`.
pub open spec fn next_re(re: int, im: int, c_re: int) -> int {
    rescale(re * re - im * im) + c_re
}

/// Imaginary part of `z*z + c`.
pub open spec fn next_im(re: int, im: int, c_im: int) -> int {
    rescale(2 * re * im) + c_im
}

/// Steps taken from iterate `z` before it escapes, at most `fuel`.
pub open spec fn steps_from(re: int, im: int, c_re: int, c_im: int, fuel: nat) -> nat
    decreases fuel,
{
    if fuel == 0 || escaped(re, im) {
        0
    } else {
        1 + steps_from(
            next_re(re, im, c_re),
            next_im(re, im, c_im),
            c_re,
            c_im,
            (fuel - 1) as nat,
        )
    }
}

/// The escape time of `c`: the number of steps executed before `|z|^2 > 4`,
/// or `budget` when that never happens within `budget` steps.
pub open spec fn escape_time(c_re: int, c_im: int, budget: nat) -> nat {
    steps_from(0, 0, c_re, c_im, budget)
}

/// An iterate component within reach of the arithmetic below.
pub open spec fn in_bound(v: int) -> bool {
    -iterate_bound() <= v <= iterate_bound()
}

/// `p / ONE`, rounded toward zero.
fn rescale_exec(p: i64) -> (r: i64)
    ensures
        r == rescale(p as int),
        -(p as int) <= r <= p || p <= r <= -(p as int),
{
    if p >= 0 {
        p / ONE
    } else {
        let q: i128 = -(p as i128);
        -((q / (ONE as i128)) as i64)
    }
}

/// Tests `|z|^2 > 4`.
fn is_escaped(re: i64, im: i64) -> (b: bool)
    requires
        in_bound(re as int),
        in_bound(im as int),
    ensures
        b == escaped(re as int, im as int),
{
    let r: i128 = re as i128;
    let i: i128 = im as i128;
    proof {
        assert(0 <= r * r <= 0x4_0000_0000_0000_0000) by (nonlinear_arith)
            requires
                -0x2_0000_0000 <= r <= 0x2_0000_0000,
        ;
        assert(0 <= i * i <= 0x4_0000_0000_0000_0000) by (nonlinear_arith)
            requires
                -0x2_0000_0000 <= i <= 0x2_0000_0000,
        ;
    }
    r * r + i * i > 4 * (ONE as i128) * (ONE as i128)
}

/// A component of an iterate that has not escaped is at most 2 in magnitude.
proof fn lemma_unescaped_small(re: int, im: int)
    requires
        !escaped(re, im),
    ensures
        -2 * ONE <= re <= 2 * ONE,
        -2 * ONE <= im <= 2 * ONE,
{
    assert(-2 * ONE <= re <= 2 * ONE) by (nonlinear_arith)
        requires
            re * re + im * im <= 4 * ONE * ONE,
            ONE > 0,
    ;
    assert(-2 * ONE <= im <= 2 * ONE) by (nonlinear_arith)
        requires
            re * re + im * im <= 4 * ONE * ONE,
            ONE > 0,
    ;
}

/// One step `z <- z*z + c` from an iterate that has not escaped.
fn advance(re: i64, im: i64, c: Point) -> (z: (i64, i64))
    requires
        !escaped(re as int, im as int),
    ensures
        z.0 == next_re(re as int, im as int, c.re as int),
        z.1 == next_im(re as int, im as int, c.im as int),
        in_bound(z.0 as int),
        in_bound(z.1 as int),
{
    proof {
        lemma_unescaped_small(re as int, im as int);
        assert(re * re <= 4 * ONE * ONE && im * im <= 4 * ONE * ONE) by (nonlinear_arith)
            requires
                -2 * ONE <= re <= 2 * ONE,
                -2 * ONE <= im <= 2 * ONE,
                ONE > 0,
        ;
        assert(-8 * ONE * ONE <= 2 * re * im <= 8 * ONE * ONE) by (nonlinear_arith)
            requires
                -2 * ONE <= re <= 2 * ONE,
                -2 * ONE <= im <= 2 * ONE,
                ONE > 0,
        ;
        assert(0 <= re * re && 0 <= im * im) by (nonlinear_arith);
    }
    let sq: i64 = re * re - im * im;
    let cross: i64 = 2 * re * im;
    let a = rescale_exec(sq);
    let b = rescale_exec(cross);
    proof {
        assert(-(sq as int) <= a <= sq || sq <= a <= -(sq as int));
    }
    (a + c.re as i64, b + c.im as i64)
}

/// The escape time of one point: the number of steps `z <- z*z + c` taken from
/// `z = 0` before `|z|^2 > 4`, or `budget` if the point never escapes.
pub fn escape_count(c: Point, budget: u32) -> (n: u32)
    ensures
        n == escape_time(c.re as int, c.im as int, budget as nat),
{
    let mut re: i64 = 0;
    let mut im: i64 = 0;
    let mut i: u32 = 0;
    while i < budget && !is_escaped(re, im)
        invariant
            i <= budget,
            in_bound(re as int),
            in_bound(im as int),
            i + steps_from(re as int, im as int, c.re as int, c.im as int, (budget - i) as nat)
                == escape_time(c.re as int, c.im as int, budget as nat),
        decreases budget - i,
    {
        let z = advance(re, im, c);
        re = z.0;
        im = z.1;
        i = i + 1;
    }
    i
}

/// The state of one lane after `t` lock-step rounds: its iterate is in range,
/// its mask bit says whether it has not escaped, and its count plus the steps
/// still ahead of it make up its escape time.
pub open spec fn lane_state(
    re: i64,
    im: i64,
    active: bool,
    count: u32,
    c: Point,
    budget: nat,
    t: nat,
) -> bool {
    &&& t <= budget
    &&& in_bound(re as int)
    &&& in_bound(im as int)
    &&& active == !escaped(re as int, im as int)
    &&& count <= t
    &&& count + steps_from(re as int, im as int, c.re as int, c.im as int, (budget - t) as nat)
        == escape_time(c.re as int, c.im as int, budget)
}

/// True when some lane of `mask` is set.
fn any_set(mask: &Vec<bool>) -> (b: bool)
    ensures
        b == exists|j: int| 0 <= j < mask@.len() && mask@[j],
{
    let mut k: usize = 0;
    while k < mask.len()
        invariant
            k <= mask@.len(),
            forall|j: int| 0 <= j < k ==> !mask@[j],
        decreases mask@.len() - k,
    {
        if mask[k] {
            return true;
        }
        k = k + 1;
    }
    false
}

/// Escape times of a group of points iterated in lock step. Each round
/// advances and counts only the lanes whose mask bit is set (those that have
/// not escaped), then recomputes their bits; the rounds stop after `budget`
/// of them or once every lane has escaped. Each lane's count equals the
/// escape time of its own point.
pub fn escape_counts_lanes(cs: &Vec<Point>, budget: u32) -> (counts: Vec<u32>)
    ensures
        counts@.len() == cs@.len(),
        forall|l: int|
            0 <= l < cs@.len() ==> #[trigger] counts@[l] == escape_time(
                cs@[l].re as int,
                cs@[l].im as int,
                budget as nat,
            ),
{
    let n = cs.len();
    let mut res: Vec<i64> = vec![0i64; n];
    let mut ims: Vec<i64> = vec![0i64; n];
    let mut counts: Vec<u32> = vec![0u32; n];
    let mut mask: Vec<bool> = vec![true; n];
    assert(!escaped(0, 0));
    let mut t: u32 = 0;
    while t < budget && any_set(&mask)
        invariant
            t <= budget,
            n == cs@.len(),
            res@.len() == n,
            ims@.len() == n,
            counts@.len() == n,
            mask@.len() == n,
            forall|j: int|
                0 <= j < n ==> lane_state(
                    #[trigger] res@[j],
                    ims@[j],
                    mask@[j],
                    counts@[j],
                    cs@[j],
                    budget as nat,
                    t as nat,
                ),
        decreases budget - t,
    {
        let mut l: usize = 0;
        while l < n
            invariant
                t < budget,
                l <= n,
                n == cs@.len(),
                res@.len() == n,
                ims@.len() == n,
                counts@.len() == n,
                mask@.len() == n,
                forall|j: int|
                    0 <= j < l ==> lane_state(
                        #[trigger] res@[j],
                        ims@[j],
                        mask@[j],
                        counts@[j],
                        cs@[j],
                        budget as nat,
                        (t + 1) as nat,
                    ),
                forall|j: int|
                    l <= j < n ==> lane_state(
                        #[trigger] res@[j],
                        ims@[j],
                        mask@[j],
                        counts@[j],
                        cs@[j],
                        budget as nat,
                        t as nat,
                    ),
            decreases n - l,
        {
            assert(lane_state(res@[l as int], ims@[l as int], mask@[l as int], counts@[l as int], cs@[l as int], budget as nat, t as nat));
            if mask[l] {
                let z = advance(res[l], ims[l], cs[l]);
                let k = counts[l] + 1;
                let active = !is_escaped(z.0, z.1);
                res[l] = z.0;
                ims[l] = z.1;
                counts[l] = k;
                mask[l] = active;
            }
            l = l + 1;
        }
        t = t + 1;
    }
    proof {
        assert forall|l: int| 0 <= l < cs@.len() implies #[trigger] counts@[l] == escape_time(
            cs@[l].re as int,
            cs@[l].im as int,
            budget as nat,
        ) by {
            assert(lane_state(res@[l], ims@[l], mask@[l], counts@[l], cs@[l], budget as nat, t as nat));
        }
    }
    counts
}

} // verus!
