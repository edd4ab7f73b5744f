//! A physical layer: a name, a complex refractive index per channel, and a
//! thickness, together with the round-trip phase a wave accumulates while
//! crossing a given thickness of the layer.

use vstd::prelude::*;
use crate::fx::{Fx, fx_new, fx_zero, fx_div, s_div, SCALE};
use crate::cx::{Cx, cx_zero, cx_scale, cx_div_scalar, sc_scale, sc_div_scalar, copt_v, copt_wf};

verus! {

/// `4 * pi` in fixed-point units, truncated toward zero.
pub const FOUR_PI_UNITS: u128 = 12_566_370_614_359;

/// One value per wavelength channel; exactly three channels exist.
#[derive(Clone, Copy, Debug, PartialEq, Eq, Structural)]
pub struct Triple<T> {
    pub c0: T,
    pub c1: T,
    pub c2: T,
}

impl<T> Triple<T> {
    /// The component of the given channel.
    pub open spec fn spec_get(self, i: int) -> T {
        if i == 0 {
            self.c0
        } else if i == 1 {
            self.c1
        } else {
            self.c2
        }
    }

    /// The component of the given channel.
    pub fn get(&self, i: usize) -> (r: &T)
        requires
            i < 3,
        ensures
            *r == self.spec_get(i as int),
    {
        if i == 0 {
            &self.c0
        } else if i == 1 {
            &self.c1
        } else {
            &self.c2
        }
    }
}

/// An immutable physical layer.
pub struct Layer {
    /// Display label; no effect on the computation.
    pub name: Vec<char>,
    /// Complex refractive index, one per channel.
    pub n_col: Triple<Cx>,
    /// Physical thickness, in the same length unit as the wavelengths.
    pub d: Fx,
}

impl Layer {
    /// Canonical form of every numeric field.
    pub open spec fn wf(self) -> bool {
        &&& self.n_col.c0.wf()
        &&& self.n_col.c1.wf()
        &&& self.n_col.c2.wf()
        &&& self.d.wf()
    }
}

/// All three wavelengths are canonical and strictly positive.
pub open spec fn lambdas_wf(lambdas: Triple<Fx>) -> bool {
    &&& lambdas.c0.wf() && lambdas.c0.v() > 0
    &&& lambdas.c1.wf() && lambdas.c1.v() > 0
    &&& lambdas.c2.wf() && lambdas.c2.v() > 0
}

/// Phase for one channel at full thickness: `((4 pi / lambda) * n) * d`.
pub open spec fn s_delta(n: (int, int), lam: int, d: int) -> Option<(int, int)> {
    match s_div(FOUR_PI_UNITS as int, lam) {
        None => None,
        Some(q) => match sc_scale(n, q) {
            None => None,
            Some(t) => sc_scale(t, d),
        },
    }
}

/// Phase for one channel at a crossed thickness: `((4 pi * n) * d) / lambda`.
pub open spec fn s_delta_d(n: (int, int), lam: int, d: int) -> Option<(int, int)> {
    match sc_scale(n, FOUR_PI_UNITS as int) {
        None => None,
        Some(t1) => match sc_scale(t1, d) {
            None => None,
            Some(t2) => sc_div_scalar(t2, lam),
        },
    }
}

/// Per-channel phases of a layer at full thickness.
pub open spec fn s_delta3(n_col: Triple<Cx>, lambdas: Triple<Fx>, d: Fx) -> Option<
    Triple<(int, int)>,
> {
    match (s_delta(n_col.c0.v(), lambdas.c0.v(), d.v()), s_delta(
        n_col.c1.v(),
        lambdas.c1.v(),
        d.v(),
    ), s_delta(n_col.c2.v(), lambdas.c2.v(), d.v())) {
        (Some(a), Some(b), Some(c)) => Some(Triple { c0: a, c1: b, c2: c }),
        _ => None,
    }
}

/// Per-channel phases of a layer at a crossed thickness.
pub open spec fn s_delta_d3(n_col: Triple<Cx>, lambdas: Triple<Fx>, d: Fx) -> Option<
    Triple<(int, int)>,
> {
    match (s_delta_d(n_col.c0.v(), lambdas.c0.v(), d.v()), s_delta_d(
        n_col.c1.v(),
        lambdas.c1.v(),
        d.v(),
    ), s_delta_d(n_col.c2.v(), lambdas.c2.v(), d.v())) {
        (Some(a), Some(b), Some(c)) => Some(Triple { c0: a, c1: b, c2: c }),
        _ => None,
    }
}

/// The values of an optional phase triple.
pub open spec fn topt_v(r: Option<Triple<Cx>>) -> Option<Triple<(int, int)>> {
    match r {
        Some(t) => Some(Triple { c0: t.c0.v(), c1: t.c1.v(), c2: t.c2.v() }),
        None => None,
    }
}

/// Canonical form of an optional phase triple.
pub open spec fn topt_wf(r: Option<Triple<Cx>>) -> bool {
    match r {
        Some(t) => t.c0.wf() && t.c1.wf() && t.c2.wf(),
        None => true,
    }
}

fn delta_full_ch(n: Cx, lam: Fx, d: Fx) -> (r: Option<Cx>)
    requires
        n.wf(),
        lam.wf(),
        lam.v() > 0,
        d.wf(),
    ensures
        copt_v(r) == s_delta(n.v(), lam.v(), d.v()),
        copt_wf(r),
{
    let four_pi = fx_new(false, FOUR_PI_UNITS);
    let q = match fx_div(four_pi, lam) {
        Some(x) => x,
        None => {
            return None;
        },
    };
    let t = match cx_scale(n, q) {
        Some(x) => x,
        None => {
            return None;
        },
    };
    cx_scale(t, d)
}

fn delta_crossed_ch(n: Cx, lam: Fx, d: Fx) -> (r: Option<Cx>)
    requires
        n.wf(),
        lam.wf(),
        lam.v() > 0,
        d.wf(),
    ensures
        copt_v(r) == s_delta_d(n.v(), lam.v(), d.v()),
        copt_wf(r),
{
    let four_pi = fx_new(false, FOUR_PI_UNITS);
    let t1 = match cx_scale(n, four_pi) {
        Some(x) => x,
        None => {
            return None;
        },
    };
    let t2 = match cx_scale(t1, d) {
        Some(x) => x,
        None => {
            return None;
        },
    };
    cx_div_scalar(t2, lam)
}

impl Layer {
    /// Replace the display label.
    pub fn set_name(self, name: Vec<char>) -> (r: Self)
        ensures
            r.name == name,
            r.n_col == self.n_col,
            r.d == self.d,
    {
        Layer { name, n_col: self.n_col, d: self.d }
    }

    /// Replace the thickness.
    pub fn set_d(self, d: Fx) -> (r: Self)
        ensures
            r.name == self.name,
            r.n_col == self.n_col,
            r.d == d,
    {
        Layer { name: self.name, n_col: self.n_col, d }
    }

    /// Replace the per-channel refractive indices.
    pub fn set_n_col(self, cols: Triple<Cx>) -> (r: Self)
        ensures
            r.name == self.name,
            r.n_col == cols,
            r.d == self.d,
    {
        Layer { name: self.name, n_col: cols, d: self.d }
    }

    /// Round-trip phase per channel for the layer's full thickness:
    /// `((4 pi / lambda) * n) * d` in each channel, `None` on overflow.
    pub fn delta(&self, lambdas: Triple<Fx>) -> (r: Option<Triple<Cx>>)
        requires
            self.wf(),
            lambdas_wf(lambdas),
        ensures
            topt_v(r) == s_delta3(self.n_col, lambdas, self.d),
            topt_wf(r),
    {
        let a = match delta_full_ch(self.n_col.c0, lambdas.c0, self.d) {
            Some(x) => x,
            None => {
                return None;
            },
        };
        let b = match delta_full_ch(self.n_col.c1, lambdas.c1, self.d) {
            Some(x) => x,
            None => {
                return None;
            },
        };
        let c = match delta_full_ch(self.n_col.c2, lambdas.c2, self.d) {
            Some(x) => x,
            None => {
                return None;
            },
        };
        Some(Triple { c0: a, c1: b, c2: c })
    }

    /// Round-trip phase per channel for a crossed thickness `d`, which may be
    /// any part of the layer's own thickness: `((4 pi * n) * d) / lambda` in
    /// each channel, `None` on overflow.
    pub fn delta_d(&self, lambdas: Triple<Fx>, d: Fx) -> (r: Option<Triple<Cx>>)
        requires
            self.wf(),
            lambdas_wf(lambdas),
            d.wf(),
        ensures
            topt_v(r) == s_delta_d3(self.n_col, lambdas, d),
            topt_wf(r),
    {
        let a = match delta_crossed_ch(self.n_col.c0, lambdas.c0, d) {
            Some(x) => x,
            None => {
                return None;
            },
        };
        let b = match delta_crossed_ch(self.n_col.c1, lambdas.c1, d) {
            Some(x) => x,
            None => {
                return None;
            },
        };
        let c = match delta_crossed_ch(self.n_col.c2, lambdas.c2, d) {
            Some(x) => x,
            None => {
                return None;
            },
        };
        Some(Triple { c0: a, c1: b, c2: c })
    }
}

impl Default for Layer {
    /// An unnamed layer of zero thickness and zero refractive index.
    fn default() -> (r: Self)
        ensures
            r.name@ == Seq::<char>::empty(),
            r.n_col.c0.v() == (0int, 0int),
            r.n_col.c1.v() == (0int, 0int),
            r.n_col.c2.v() == (0int, 0int),
            r.d.v() == 0,
            r.wf(),
    {
        let z = cx_zero();
        Layer { name: Vec::new(), n_col: Triple { c0: z, c1: z, c2: z }, d: fx_zero() }
    }
}

} // verus!
