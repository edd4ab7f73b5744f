//! Signed fixed-point scalars.
//!
//! A value is an integer count of `1 / SCALE` units together with a sign.
//! Addition and subtraction are exact; multiplication and division truncate
//! the true result toward zero to the nearest representable unit.  Every
//! operation that can leave the representable range reports the overflow
//! through an `Option` instead of wrapping or panicking.

use vstd::prelude::*;

verus! {

/// Number of fixed-point units per whole unit: values are integer multiples
/// of `10^-12`.
pub const SCALE: u128 = 1_000_000_000_000;

/// A signed fixed-point scalar: `mag` counts units of `1 / SCALE`, `neg`
/// carries the sign.  Zero is canonically non-negative.
#[derive(Clone, Copy, Debug, PartialEq, Eq, Structural)]
pub struct Fx {
    pub neg: bool,
    pub mag: u128,
}

impl Fx {
    /// Canonical form: there is no negative zero.
    pub open spec fn wf(self) -> bool {
        self.mag == 0 ==> self.neg == false
    }

    /// The value as an integer count of `1 / SCALE` units.
    pub open spec fn v(self) -> int {
        if self.neg {
            -(self.mag as int)
        } else {
            self.mag as int
        }
    }
}

/// Magnitude of an integer.
pub open spec fn abs_i(a: int) -> int {
    if a >= 0 {
        a
    } else {
        -a
    }
}

/// Product of two fixed-point values, truncated toward zero.
pub open spec fn t_mul(a: int, b: int) -> int {
    if a * b >= 0 {
        (a * b) / (SCALE as int)
    } else {
        -((-(a * b)) / (SCALE as int))
    }
}

/// Quotient of two fixed-point values, truncated toward zero; meaningful
/// only for `b != 0`.
pub open spec fn t_div(a: int, b: int) -> int {
    if (a >= 0) == (b >= 0) {
        (abs_i(a) * (SCALE as int)) / abs_i(b)
    } else {
        -((abs_i(a) * (SCALE as int)) / abs_i(b))
    }
}

/// Exact sum, or `None` where the magnitude leaves the representable range.
pub open spec fn s_add(a: int, b: int) -> Option<int> {
    if abs_i(a + b) <= u128::MAX as int {
        Some(a + b)
    } else {
        None
    }
}

/// Exact difference, or `None` on overflow.
pub open spec fn s_sub(a: int, b: int) -> Option<int> {
    s_add(a, -b)
}

/// Truncated product, or `None` where the intermediate product overflows.
pub open spec fn s_mul(a: int, b: int) -> Option<int> {
    if abs_i(a) * abs_i(b) <= u128::MAX as int {
        Some(t_mul(a, b))
    } else {
        None
    }
}

/// Truncated quotient, or `None` for a zero divisor or an overflowing
/// scaled dividend.
pub open spec fn s_div(a: int, b: int) -> Option<int> {
    if b == 0 {
        None
    } else if abs_i(a) * (SCALE as int) <= u128::MAX as int {
        Some(t_div(a, b))
    } else {
        None
    }
}

/// The value of an optional scalar.
pub open spec fn opt_v(r: Option<Fx>) -> Option<int> {
    match r {
        Some(x) => Some(x.v()),
        None => None,
    }
}

/// Canonical form of an optional scalar.
pub open spec fn opt_wf(r: Option<Fx>) -> bool {
    match r {
        Some(x) => x.wf(),
        None => true,
    }
}

proof fn lemma_mul_signs(am: int, bm: int)
    by (nonlinear_arith)
    requires
        am >= 0,
        bm >= 0,
    ensures
        (-am) * bm == -(am * bm),
        am * (-bm) == -(am * bm),
        (-am) * (-bm) == am * bm,
        am * bm >= 0,
{
}

/// The canonical scalar with the given sign and magnitude.
pub fn fx_new(neg: bool, mag: u128) -> (r: Fx)
    ensures
        r.wf(),
        r.mag == mag,
        r.v() == (if neg {
            -(mag as int)
        } else {
            mag as int
        }),
{
    Fx { neg: neg && mag != 0, mag }
}

/// The scalar zero.
pub fn fx_zero() -> (r: Fx)
    ensures
        r.wf(),
        r.v() == 0,
{
    Fx { neg: false, mag: 0 }
}

/// Exact addition.
pub fn fx_add(a: Fx, b: Fx) -> (r: Option<Fx>)
    requires
        a.wf(),
        b.wf(),
    ensures
        opt_v(r) == s_add(a.v(), b.v()),
        opt_wf(r),
{
    if a.neg == b.neg {
        match a.mag.checked_add(b.mag) {
            Some(m) => Some(fx_new(a.neg, m)),
            None => None,
        }
    } else {
        if a.mag >= b.mag {
            Some(fx_new(a.neg, a.mag - b.mag))
        } else {
            Some(fx_new(b.neg, b.mag - a.mag))
        }
    }
}

/// Exact negation.
pub fn fx_neg(a: Fx) -> (r: Fx)
    requires
        a.wf(),
    ensures
        r.wf(),
        r.v() == -a.v(),
{
    fx_new(!a.neg, a.mag)
}

/// Exact subtraction.
pub fn fx_sub(a: Fx, b: Fx) -> (r: Option<Fx>)
    requires
        a.wf(),
        b.wf(),
    ensures
        opt_v(r) == s_sub(a.v(), b.v()),
        opt_wf(r),
{
    fx_add(a, fx_neg(b))
}

/// Truncating multiplication.
pub fn fx_mul(a: Fx, b: Fx) -> (r: Option<Fx>)
    requires
        a.wf(),
        b.wf(),
    ensures
        opt_v(r) == s_mul(a.v(), b.v()),
        opt_wf(r),
{
    proof {
        lemma_mul_signs(a.mag as int, b.mag as int);
    }
    match a.mag.checked_mul(b.mag) {
        Some(p) => Some(fx_new(a.neg != b.neg, p / SCALE)),
        None => None,
    }
}

/// Truncating division by a nonzero divisor.
pub fn fx_div(a: Fx, b: Fx) -> (r: Option<Fx>)
    requires
        a.wf(),
        b.wf(),
        b.mag != 0,
    ensures
        opt_v(r) == s_div(a.v(), b.v()),
        opt_wf(r),
{
    proof {
        lemma_mul_signs(a.mag as int, SCALE as int);
    }
    match a.mag.checked_mul(SCALE) {
        Some(p) => Some(fx_new(a.neg != b.neg, p / b.mag)),
        None => None,
    }
}

/// Ordering test: `a <= b`.
pub fn fx_le(a: Fx, b: Fx) -> (r: bool)
    requires
        a.wf(),
        b.wf(),
    ensures
        r == (a.v() <= b.v()),
{
    if a.neg && !b.neg {
        true
    } else if !a.neg && b.neg {
        false
    } else if !a.neg {
        a.mag <= b.mag
    } else {
        a.mag >= b.mag
    }
}

/// Sign test: `a <= 0`.
pub fn fx_is_nonpos(a: Fx) -> (r: bool)
    requires
        a.wf(),
    ensures
        r == (a.v() <= 0),
{
    a.neg || a.mag == 0
}

} // verus!
