//! Small integer helpers shared by the geometry and layout code: saturating
//! addition (used when aggregating size constraints, where `i64::MAX` stands
//! for "unbounded"), truncating division (the rounding mode of the layout
//! formulas), and per-mille scaling (resolving a fractional dimension against
//! a reference length).

use vstd::prelude::*;

verus! {

/// Denominator of fractional (per-mille) dimension values: a `Relative`
/// dimension of `1000` spans the whole reference length.
pub const PM_DEN: i64 = 1000;

/// Largest magnitude, in pixels, that any coordinate or absolute dimension
/// handled by the layout code may have (2^40). Keeps every layout formula
/// free of `i64` overflow.
pub const COORD_LIMIT: i64 = 1099511627776;

/// Largest magnitude of a per-mille fraction (2^20, about a factor of 1048).
pub const PM_LIMIT: i64 = 1048576;

/// Saturating `i64` addition, as a mathematical function.
pub open spec fn sat_add(a: int, b: int) -> int {
    if a + b > i64::MAX as int {
        i64::MAX as int
    } else if a + b < i64::MIN as int {
        i64::MIN as int
    } else {
        a + b
    }
}

/// Truncating (round-toward-zero) division, as a mathematical function.
/// Spec-mode `/` is Euclidean; executable Rust `/` truncates, so the layout
/// contracts are stated over this function instead.
pub open spec fn tdiv(a: int, b: int) -> int {
    if a >= 0 {
        a / b
    } else {
        -((-a) / b)
    }
}

/// `v` scaled by `pm` thousandths, truncated toward zero.
pub open spec fn scale_pm(v: int, pm: int) -> int {
    tdiv(v * pm, PM_DEN as int)
}

/// Saturating addition on `i64`, treating `i64::MAX` as "unbounded".
pub fn sat_add_i64(a: i64, b: i64) -> (r: i64)
    ensures
        r == sat_add(a as int, b as int),
{
    match a.checked_add(b) {
        Some(v) => v,
        None => {
            if a > 0 {
                i64::MAX
            } else {
                i64::MIN
            }
        },
    }
}

/// Truncating division of `a` by a positive divisor `b`.
pub fn tdiv_i64(a: i64, b: i64) -> (r: i64)
    requires
        b > 0,
        a > i64::MIN,
    ensures
        r == tdiv(a as int, b as int),
{
    if a >= 0 {
        a / b
    } else {
        -((-a) / b)
    }
}

/// `v` scaled by `pm` thousandths, truncated toward zero.
pub fn scale_pm_i64(v: i64, pm: i64) -> (r: i64)
    requires
        0 <= v <= COORD_LIMIT,
        -2 * PM_LIMIT <= pm <= 2 * PM_LIMIT,
    ensures
        r == scale_pm(v as int, pm as int),
        -COORD_LIMIT * 2 * PM_LIMIT <= r <= COORD_LIMIT * 2 * PM_LIMIT,
        -PM_LIMIT <= pm <= PM_LIMIT ==> -COORD_LIMIT * PM_LIMIT <= r <= COORD_LIMIT * PM_LIMIT,
{
    if pm >= 0 {
        proof {
            assert(0 <= v * pm <= COORD_LIMIT * 2 * PM_LIMIT && (pm <= PM_LIMIT ==> v * pm
                <= COORD_LIMIT * PM_LIMIT)) by (nonlinear_arith)
                requires
                    0 <= v <= COORD_LIMIT,
                    0 <= pm <= 2 * PM_LIMIT,
            ;
        }
        let p = v * pm;
        proof {
            assert(0 <= p as int / (PM_DEN as int) <= p) by (nonlinear_arith)
                requires
                    p >= 0,
            ;
        }
        p / PM_DEN
    } else {
        proof {
            assert(0 <= v * (-pm) <= COORD_LIMIT * 2 * PM_LIMIT && (-pm <= PM_LIMIT ==> v * (-pm)
                <= COORD_LIMIT * PM_LIMIT)) by (nonlinear_arith)
                requires
                    0 <= v <= COORD_LIMIT,
                    0 <= -pm <= 2 * PM_LIMIT,
            ;
        }
        let p = v * (-pm);
        proof {
            assert(0 <= p as int / (PM_DEN as int) <= p) by (nonlinear_arith)
                requires
                    p >= 0,
            ;
            assert(v * pm == -(v * (-pm))) by (nonlinear_arith);
        }
        -(p / PM_DEN)
    }
}

/// Truncating halving, used by the centering formulas.
pub fn half(a: i64) -> (r: i64)
    requires
        a > i64::MIN,
    ensures
        r == tdiv(a as int, 2),
{
    tdiv_i64(a, 2)
}

} // verus!
