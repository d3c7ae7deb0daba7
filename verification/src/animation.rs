//! Easing functions for the animation engine. An easing receives the
//! elapsed time and the total duration (both in milliseconds) and yields a
//! pair of dimension values, interpreted by the animated element as
//! relative offsets or scale factors from its baseline geometry.

use vstd::prelude::*;
use crate::geometry::Dim;
use crate::arith::{tdiv, COORD_LIMIT, PM_LIMIT, PM_DEN};

verus! {

/// Longest animation duration, in milliseconds (2^20, about 17 minutes).
pub const DUR_LIMIT: u64 = 1048576;

/// Interpolate between two values of the same dimension flavor, truncating
/// toward zero; across flavors the value snaps from `a` to `b` at the end.
pub open spec fn spec_dim_lerp(a: Dim, b: Dim, t: int, d: int) -> Dim {
    if d <= 0 {
        b
    } else {
        match (a, b) {
            (Dim::Absolute(x), Dim::Absolute(y)) => Dim::Absolute(
                (x + tdiv((y - x) * t, d)) as i64,
            ),
            (Dim::Relative(x), Dim::Relative(y)) => Dim::Relative(
                (x + tdiv((y - x) * t, d)) as i64,
            ),
            _ => if t < d {
                a
            } else {
                b
            },
        }
    }
}

/// The triangle wave in thousandths: it climbs from zero to one thousand
/// at half the duration and falls back to zero.
pub open spec fn spec_tri_pm(t: int, d: int) -> int {
    if d <= 0 {
        0
    } else if 2 * t <= d {
        tdiv(2 * PM_DEN * t, d)
    } else {
        tdiv(2 * PM_DEN * (d - t), d)
    }
}

/// A dimension scaled by a per-mille factor, truncating toward zero.
pub open spec fn spec_dim_scale(a: Dim, pm: int) -> Dim {
    match a {
        Dim::Absolute(x) => Dim::Absolute(tdiv(x * pm, PM_DEN as int) as i64),
        Dim::Relative(x) => Dim::Relative(tdiv(x * pm, PM_DEN as int) as i64),
    }
}

/// A size easing: a straight interpolation between two sizes, or a pulse
/// that swells to the given amplitude at half time and returns to zero.
#[derive(Debug, PartialEq, Eq, Structural, Copy, Clone)]
pub enum SizeAnimation {
    Linear { from_x: Dim, from_y: Dim, to_x: Dim, to_y: Dim },
    Pulse { x: Dim, y: Dim },
}

/// A position easing, with the same shapes as the size easing.
#[derive(Debug, PartialEq, Eq, Structural, Copy, Clone)]
pub enum PositionAnimation {
    Linear { from_x: Dim, from_y: Dim, to_x: Dim, to_y: Dim },
    Pulse { x: Dim, y: Dim },
}

impl SizeAnimation {
    pub open spec fn wf(self) -> bool {
        match self {
            SizeAnimation::Linear { from_x, from_y, to_x, to_y } => from_x.wf() && from_y.wf()
                && to_x.wf() && to_y.wf(),
            SizeAnimation::Pulse { x, y } => x.wf() && y.wf(),
        }
    }

    /// The eased pair at time `t` of `d`.
    pub open spec fn spec_calc(self, t: int, d: int) -> (Dim, Dim) {
        match self {
            SizeAnimation::Linear { from_x, from_y, to_x, to_y } => (
                spec_dim_lerp(from_x, to_x, t, d),
                spec_dim_lerp(from_y, to_y, t, d),
            ),
            SizeAnimation::Pulse { x, y } => (
                spec_dim_scale(x, spec_tri_pm(t, d)),
                spec_dim_scale(y, spec_tri_pm(t, d)),
            ),
        }
    }

    /// Evaluate the easing.
    pub fn calc(&self, t: u64, duration: u64) -> (r: (Dim, Dim))
        requires
            self.wf(),
            t <= duration <= DUR_LIMIT,
        ensures
            r == self.spec_calc(t as int, duration as int),
            r.0.wf(),
            r.1.wf(),
    {
        match self {
            SizeAnimation::Linear { from_x, from_y, to_x, to_y } => (
                dim_lerp(*from_x, *to_x, t, duration),
                dim_lerp(*from_y, *to_y, t, duration),
            ),
            SizeAnimation::Pulse { x, y } => {
                let pm = tri_pm(t, duration);
                (dim_scale(*x, pm), dim_scale(*y, pm))
            },
        }
    }
}

impl PositionAnimation {
    pub open spec fn wf(self) -> bool {
        match self {
            PositionAnimation::Linear { from_x, from_y, to_x, to_y } => from_x.wf() && from_y.wf()
                && to_x.wf() && to_y.wf(),
            PositionAnimation::Pulse { x, y } => x.wf() && y.wf(),
        }
    }

    /// The eased pair at time `t` of `d`.
    pub open spec fn spec_calc(self, t: int, d: int) -> (Dim, Dim) {
        match self {
            PositionAnimation::Linear { from_x, from_y, to_x, to_y } => (
                spec_dim_lerp(from_x, to_x, t, d),
                spec_dim_lerp(from_y, to_y, t, d),
            ),
            PositionAnimation::Pulse { x, y } => (
                spec_dim_scale(x, spec_tri_pm(t, d)),
                spec_dim_scale(y, spec_tri_pm(t, d)),
            ),
        }
    }

    /// Evaluate the easing.
    pub fn calc(&self, t: u64, duration: u64) -> (r: (Dim, Dim))
        requires
            self.wf(),
            t <= duration <= DUR_LIMIT,
        ensures
            r == self.spec_calc(t as int, duration as int),
            r.0.wf(),
            r.1.wf(),
    {
        match self {
            PositionAnimation::Linear { from_x, from_y, to_x, to_y } => (
                dim_lerp(*from_x, *to_x, t, duration),
                dim_lerp(*from_y, *to_y, t, duration),
            ),
            PositionAnimation::Pulse { x, y } => {
                let pm = tri_pm(t, duration);
                (dim_scale(*x, pm), dim_scale(*y, pm))
            },
        }
    }
}

/// Interpolate one coordinate, truncating toward zero.
fn lerp_i64(x: i64, y: i64, t: u64, d: u64) -> (r: i64)
    requires
        -COORD_LIMIT <= x <= COORD_LIMIT,
        -COORD_LIMIT <= y <= COORD_LIMIT,
        t <= d <= DUR_LIMIT,
        d > 0,
    ensures
        r == x + tdiv((y - x) * t, d as int),
{
    let diff = y - x;
    if diff >= 0 {
        proof {
            assert(0 <= diff * (t as int) <= 2 * COORD_LIMIT * DUR_LIMIT) by (nonlinear_arith)
                requires
                    0 <= diff <= 2 * COORD_LIMIT,
                    0 <= t <= DUR_LIMIT,
            ;
        }
        let p = diff * (t as i64);
        proof {
            assert(0 <= (p as int) / (d as int) <= p) by (nonlinear_arith)
                requires
                    p >= 0,
                    d >= 1,
            ;
        }
        let q = p / (d as i64);
        x + q
    } else {
        let neg = -diff;
        proof {
            assert(0 <= neg * (t as int) <= 2 * COORD_LIMIT * DUR_LIMIT) by (nonlinear_arith)
                requires
                    0 <= neg <= 2 * COORD_LIMIT,
                    0 <= t <= DUR_LIMIT,
            ;
        }
        let p = neg * (t as i64);
        proof {
            assert(0 <= (p as int) / (d as int) <= p) by (nonlinear_arith)
                requires
                    p >= 0,
                    d >= 1,
            ;
            assert((y - x) * (t as int) == -(neg * (t as int))) by (nonlinear_arith)
                requires
                    neg == -(y - x),
            ;
        }
        let q = p / (d as i64);
        x + (-q)
    }
}

/// Evaluate the triangle wave.
fn tri_pm(t: u64, d: u64) -> (r: i64)
    requires
        t <= d <= DUR_LIMIT,
    ensures
        r == spec_tri_pm(t as int, d as int),
        0 <= r <= PM_DEN,
{
    if d == 0 {
        return 0;
    }
    proof {
        assert(forall|p: int, dd: int|
            0 <= p && 1 <= dd && p <= PM_DEN * dd ==> 0 <= #[trigger] (p / dd) <= PM_DEN)
            by (nonlinear_arith);
    }
    if 2 * t <= d {
        let p = 2 * (PM_DEN as u64) * t;
        proof {
            assert(2 * PM_DEN * t <= PM_DEN * d) by (nonlinear_arith)
                requires
                    2 * t <= d,
                    0 <= t,
                    PM_DEN > 0,
            ;
            assert(tdiv(2 * PM_DEN * (t as int), d as int) == (2 * PM_DEN * (t as int)) / (
            d as int));
        }
        (p / d) as i64
    } else {
        let p = 2 * (PM_DEN as u64) * (d - t);
        proof {
            assert(2 * PM_DEN * (d - t) <= PM_DEN * d) by (nonlinear_arith)
                requires
                    2 * (d - t) <= d,
                    0 <= d - t,
                    PM_DEN > 0,
            ;
            assert(tdiv(2 * PM_DEN * ((d - t) as int), d as int) == (2 * PM_DEN * ((d - t) as int))
                / (d as int));
        }
        (p / d) as i64
    }
}

/// Scale one dimension payload by a per-mille factor.
fn scale_i64(x: i64, pm: i64) -> (r: i64)
    requires
        -COORD_LIMIT <= x <= COORD_LIMIT,
        0 <= pm <= PM_DEN,
    ensures
        r == tdiv(x * pm, PM_DEN as int),
        x >= 0 ==> 0 <= r <= x,
        x < 0 ==> x <= r <= 0,
{
    if x >= 0 {
        proof {
            assert(0 <= x * pm <= x * PM_DEN) by (nonlinear_arith)
                requires
                    0 <= x,
                    0 <= pm <= PM_DEN,
            ;
            assert(x * PM_DEN <= COORD_LIMIT * PM_DEN) by (nonlinear_arith)
                requires
                    0 <= x <= COORD_LIMIT,
                    PM_DEN > 0,
            ;
        }
        let p = x * pm;
        proof {
            assert(0 <= (p as int) / (PM_DEN as int) && PM_DEN as int * ((p as int) / (
            PM_DEN as int)) <= p) by (nonlinear_arith)
                requires
                    p >= 0,
            ;
            assert(PM_DEN as int * (x as int) >= p ==> (p as int) / (PM_DEN as int) <= x)
                by (nonlinear_arith)
                requires
                    p >= 0,
            ;
        }
        p / PM_DEN
    } else {
        let neg = -x;
        proof {
            assert(0 <= neg * pm <= neg * PM_DEN) by (nonlinear_arith)
                requires
                    0 <= neg,
                    0 <= pm <= PM_DEN,
            ;
            assert(neg * PM_DEN <= COORD_LIMIT * PM_DEN) by (nonlinear_arith)
                requires
                    0 <= neg <= COORD_LIMIT,
                    PM_DEN > 0,
            ;
        }
        let p = neg * pm;
        proof {
            assert(0 <= (p as int) / (PM_DEN as int) && PM_DEN as int * ((p as int) / (
            PM_DEN as int)) <= p) by (nonlinear_arith)
                requires
                    p >= 0,
            ;
            assert(PM_DEN as int * (neg as int) >= p ==> (p as int) / (PM_DEN as int) <= neg)
                by (nonlinear_arith)
                requires
                    p >= 0,
            ;
            assert(x * pm == -(neg * pm)) by (nonlinear_arith)
                requires
                    neg == -x,
            ;
        }
        -(p / PM_DEN)
    }
}

/// Interpolate between two dimensions.
fn dim_lerp(a: Dim, b: Dim, t: u64, d: u64) -> (r: Dim)
    requires
        a.wf(),
        b.wf(),
        t <= d <= DUR_LIMIT,
    ensures
        r == spec_dim_lerp(a, b, t as int, d as int),
        r.wf(),
{
    if d == 0 {
        return b;
    }
    match (a, b) {
        (Dim::Absolute(x), Dim::Absolute(y)) => {
            let v = lerp_i64(x, y, t, d);
            proof {
                lemma_lerp_between(x as int, y as int, t as int, d as int);
            }
            Dim::Absolute(v)
        },
        (Dim::Relative(x), Dim::Relative(y)) => {
            let v = lerp_i64(x, y, t, d);
            proof {
                lemma_lerp_between(x as int, y as int, t as int, d as int);
            }
            Dim::Relative(v)
        },
        _ => {
            if t < d {
                a
            } else {
                b
            }
        },
    }
}

/// A truncating interpolation never leaves the segment between its ends.
proof fn lemma_lerp_between(x: int, y: int, t: int, d: int)
    requires
        0 <= t <= d,
        d >= 1,
    ensures
        y >= x ==> x <= x + tdiv((y - x) * t, d) <= y,
        y < x ==> y <= x + tdiv((y - x) * t, d) <= x,
{
    if y >= x {
        assert(0 <= (y - x) * t <= (y - x) * d) by (nonlinear_arith)
            requires
                0 <= t <= d,
                y - x >= 0,
        ;
        assert(0 <= ((y - x) * t) / d <= y - x) by (nonlinear_arith)
            requires
                0 <= (y - x) * t <= (y - x) * d,
                d >= 1,
        ;
    } else {
        assert(0 <= (x - y) * t <= (x - y) * d) by (nonlinear_arith)
            requires
                0 <= t <= d,
                x - y >= 0,
        ;
        assert(0 <= ((x - y) * t) / d <= x - y) by (nonlinear_arith)
            requires
                0 <= (x - y) * t <= (x - y) * d,
                d >= 1,
        ;
        assert((y - x) * t == -((x - y) * t)) by (nonlinear_arith);
    }
}

/// Scale a dimension by a per-mille factor.
fn dim_scale(a: Dim, pm: i64) -> (r: Dim)
    requires
        a.wf(),
        0 <= pm <= PM_DEN,
    ensures
        r == spec_dim_scale(a, pm as int),
        r.wf(),
{
    proof {
        assert(forall|p: int, dd: int|
            p >= 0 && dd >= 1 ==> 0 <= #[trigger] (p / dd) <= p) by (nonlinear_arith);
    }
    match a {
        Dim::Absolute(x) => Dim::Absolute(scale_i64(x, pm)),
        Dim::Relative(x) => Dim::Relative(scale_i64(x, pm)),
    }
}

} // verus!
