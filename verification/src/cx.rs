//! Complex numbers over the fixed-point scalars.
//!
//! The value of a complex number is the pair of its component values; the
//! specification-level operations compose the scalar operations of [`crate::fx`]
//! in exactly the order the executable code evaluates them, so an overflow in
//! any intermediate step is reported the same way by both.

use vstd::prelude::*;
use crate::fx::{Fx, fx_add, fx_sub, fx_mul, fx_div, fx_new, fx_zero, s_add, s_sub, s_mul,
    s_div, opt_v, opt_wf, SCALE};

verus! {

/// A complex number with fixed-point components.
#[derive(Clone, Copy, Debug, PartialEq, Eq, Structural)]
pub struct Cx {
    pub re: Fx,
    pub im: Fx,
}

/// A zero denominator makes a complex quotient undefined; every other
/// failure is an intermediate overflow.
#[derive(Clone, Copy, Debug, PartialEq, Eq, Structural)]
pub enum DivErr {
    Zero,
    Overflow,
}

impl Cx {
    /// Canonical form of both components.
    pub open spec fn wf(self) -> bool {
        self.re.wf() && self.im.wf()
    }

    /// The pair of component values.
    pub open spec fn v(self) -> (int, int) {
        (self.re.v(), self.im.v())
    }
}

/// The value of an optional complex number.
pub open spec fn copt_v(r: Option<Cx>) -> Option<(int, int)> {
    match r {
        Some(x) => Some(x.v()),
        None => None,
    }
}

/// Canonical form of an optional complex number.
pub open spec fn copt_wf(r: Option<Cx>) -> bool {
    match r {
        Some(x) => x.wf(),
        None => true,
    }
}

/// Componentwise complex sum.
pub open spec fn sc_add(a: (int, int), b: (int, int)) -> Option<(int, int)> {
    match (s_add(a.0, b.0), s_add(a.1, b.1)) {
        (Some(re), Some(im)) => Some((re, im)),
        _ => None,
    }
}

/// Componentwise complex difference.
pub open spec fn sc_sub(a: (int, int), b: (int, int)) -> Option<(int, int)> {
    match (s_sub(a.0, b.0), s_sub(a.1, b.1)) {
        (Some(re), Some(im)) => Some((re, im)),
        _ => None,
    }
}

/// Complex product `(ac - bd, ad + bc)` over the truncating scalar ops.
pub open spec fn sc_mul(a: (int, int), b: (int, int)) -> Option<(int, int)> {
    match (s_mul(a.0, b.0), s_mul(a.1, b.1), s_mul(a.0, b.1), s_mul(a.1, b.0)) {
        (Some(ac), Some(bd), Some(ad), Some(bc)) => match (s_sub(ac, bd), s_add(ad, bc)) {
            (Some(re), Some(im)) => Some((re, im)),
            _ => None,
        },
        _ => None,
    }
}

/// Product with a real scalar.
pub open spec fn sc_scale(a: (int, int), s: int) -> Option<(int, int)> {
    match (s_mul(a.0, s), s_mul(a.1, s)) {
        (Some(re), Some(im)) => Some((re, im)),
        _ => None,
    }
}

/// Componentwise division by a real scalar.
pub open spec fn sc_div_scalar(a: (int, int), s: int) -> Option<(int, int)> {
    match (s_div(a.0, s), s_div(a.1, s)) {
        (Some(re), Some(im)) => Some((re, im)),
        _ => None,
    }
}

/// Squared norm `re^2 + im^2` over the truncating scalar ops.
pub open spec fn sc_norm2(a: (int, int)) -> Option<int> {
    match (s_mul(a.0, a.0), s_mul(a.1, a.1)) {
        (Some(rr), Some(ii)) => s_add(rr, ii),
        _ => None,
    }
}

/// Complex quotient by the conjugate rule: the denominator is the squared
/// norm of `b`, the numerator components are `(a.re b.re + a.im b.im)` and
/// `(a.im b.re - a.re b.im)`.
pub open spec fn sc_div(a: (int, int), b: (int, int)) -> Result<(int, int), DivErr> {
    match sc_norm2(b) {
        None => Err(DivErr::Overflow),
        Some(den) => if den == 0 {
            Err(DivErr::Zero)
        } else {
            match (s_mul(a.0, b.0), s_mul(a.1, b.1), s_mul(a.1, b.0), s_mul(a.0, b.1)) {
                (Some(xu), Some(yv), Some(yu), Some(xv)) => match (s_add(xu, yv), s_sub(yu, xv)) {
                    (Some(nre), Some(nim)) => match (s_div(nre, den), s_div(nim, den)) {
                        (Some(re), Some(im)) => Ok((re, im)),
                        _ => Err(DivErr::Overflow),
                    },
                    _ => Err(DivErr::Overflow),
                },
                _ => Err(DivErr::Overflow),
            }
        },
    }
}

/// The complex zero.
pub fn cx_zero() -> (r: Cx)
    ensures
        r.wf(),
        r.v() == (0int, 0int),
{
    Cx { re: fx_zero(), im: fx_zero() }
}

/// The complex one.
pub fn cx_one() -> (r: Cx)
    ensures
        r.wf(),
        r.v() == (SCALE as int, 0int),
{
    Cx { re: fx_new(false, SCALE), im: fx_zero() }
}

/// Componentwise complex addition.
pub fn cx_add(a: Cx, b: Cx) -> (r: Option<Cx>)
    requires
        a.wf(),
        b.wf(),
    ensures
        copt_v(r) == sc_add(a.v(), b.v()),
        copt_wf(r),
{
    let re = match fx_add(a.re, b.re) {
        Some(x) => x,
        None => {
            return None;
        },
    };
    let im = match fx_add(a.im, b.im) {
        Some(x) => x,
        None => {
            return None;
        },
    };
    Some(Cx { re, im })
}

/// Componentwise complex subtraction.
pub fn cx_sub(a: Cx, b: Cx) -> (r: Option<Cx>)
    requires
        a.wf(),
        b.wf(),
    ensures
        copt_v(r) == sc_sub(a.v(), b.v()),
        copt_wf(r),
{
    let re = match fx_sub(a.re, b.re) {
        Some(x) => x,
        None => {
            return None;
        },
    };
    let im = match fx_sub(a.im, b.im) {
        Some(x) => x,
        None => {
            return None;
        },
    };
    Some(Cx { re, im })
}

/// Complex multiplication.
pub fn cx_mul(a: Cx, b: Cx) -> (r: Option<Cx>)
    requires
        a.wf(),
        b.wf(),
    ensures
        copt_v(r) == sc_mul(a.v(), b.v()),
        copt_wf(r),
{
    let ac = match fx_mul(a.re, b.re) {
        Some(x) => x,
        None => {
            return None;
        },
    };
    let bd = match fx_mul(a.im, b.im) {
        Some(x) => x,
        None => {
            return None;
        },
    };
    let ad = match fx_mul(a.re, b.im) {
        Some(x) => x,
        None => {
            return None;
        },
    };
    let bc = match fx_mul(a.im, b.re) {
        Some(x) => x,
        None => {
            return None;
        },
    };
    let re = match fx_sub(ac, bd) {
        Some(x) => x,
        None => {
            return None;
        },
    };
    let im = match fx_add(ad, bc) {
        Some(x) => x,
        None => {
            return None;
        },
    };
    Some(Cx { re, im })
}

/// Multiplication by a real scalar.
pub fn cx_scale(a: Cx, s: Fx) -> (r: Option<Cx>)
    requires
        a.wf(),
        s.wf(),
    ensures
        copt_v(r) == sc_scale(a.v(), s.v()),
        copt_wf(r),
{
    let re = match fx_mul(a.re, s) {
        Some(x) => x,
        None => {
            return None;
        },
    };
    let im = match fx_mul(a.im, s) {
        Some(x) => x,
        None => {
            return None;
        },
    };
    Some(Cx { re, im })
}

/// Componentwise division by a nonzero real scalar.
pub fn cx_div_scalar(a: Cx, s: Fx) -> (r: Option<Cx>)
    requires
        a.wf(),
        s.wf(),
        s.mag != 0,
    ensures
        copt_v(r) == sc_div_scalar(a.v(), s.v()),
        copt_wf(r),
{
    let re = match fx_div(a.re, s) {
        Some(x) => x,
        None => {
            return None;
        },
    };
    let im = match fx_div(a.im, s) {
        Some(x) => x,
        None => {
            return None;
        },
    };
    Some(Cx { re, im })
}

/// Squared norm of a complex number.
pub fn cx_norm2(a: Cx) -> (r: Option<Fx>)
    requires
        a.wf(),
    ensures
        opt_v(r) == sc_norm2(a.v()),
        opt_wf(r),
{
    let rr = match fx_mul(a.re, a.re) {
        Some(x) => x,
        None => {
            return None;
        },
    };
    let ii = match fx_mul(a.im, a.im) {
        Some(x) => x,
        None => {
            return None;
        },
    };
    fx_add(rr, ii)
}

/// Complex division.
pub fn cx_div(a: Cx, b: Cx) -> (r: Result<Cx, DivErr>)
    requires
        a.wf(),
        b.wf(),
    ensures
        (match r {
            Ok(x) => sc_div(a.v(), b.v()) == Result::<(int, int), DivErr>::Ok(x.v()) && x.wf(),
            Err(e) => sc_div(a.v(), b.v()) == Result::<(int, int), DivErr>::Err(e),
        }),
{
    let den = match cx_norm2(b) {
        Some(x) => x,
        None => {
            return Err(DivErr::Overflow);
        },
    };
    if den.mag == 0 {
        return Err(DivErr::Zero);
    }
    let xu = match fx_mul(a.re, b.re) {
        Some(x) => x,
        None => {
            return Err(DivErr::Overflow);
        },
    };
    let yv = match fx_mul(a.im, b.im) {
        Some(x) => x,
        None => {
            return Err(DivErr::Overflow);
        },
    };
    let yu = match fx_mul(a.im, b.re) {
        Some(x) => x,
        None => {
            return Err(DivErr::Overflow);
        },
    };
    let xv = match fx_mul(a.re, b.im) {
        Some(x) => x,
        None => {
            return Err(DivErr::Overflow);
        },
    };
    let nre = match fx_add(xu, yv) {
        Some(x) => x,
        None => {
            return Err(DivErr::Overflow);
        },
    };
    let nim = match fx_sub(yu, xv) {
        Some(x) => x,
        None => {
            return Err(DivErr::Overflow);
        },
    };
    let re = match fx_div(nre, den) {
        Some(x) => x,
        None => {
            return Err(DivErr::Overflow);
        },
    };
    let im = match fx_div(nim, den) {
        Some(x) => x,
        None => {
            return Err(DivErr::Overflow);
        },
    };
    Ok(Cx { re, im })
}

} // verus!
