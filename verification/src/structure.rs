//! The layer stack and its optical recursion: per-boundary Fresnel
//! coefficients, depth localization, the recursive reflectance buildup, and
//! the intensity derived from it.
//!
//! The recursion needs the complex factor `exp(-j * delta)` for each crossed
//! layer.  No exact arithmetic can produce it, so [`Structure::reie`] and
//! [`Structure::intensity`] take the factors as an argument, one triple per
//! crossed layer, and [`Structure::phases`] reports the phases `delta` they
//! must be computed from.  Every result is pinned to a specification-level
//! rerun of the same fixed-point computation, so a caller that supplies the
//! factors gets a fully determined value.

use vstd::prelude::*;
use crate::fx::{Fx, fx_add, fx_sub, fx_is_nonpos, fx_le, fx_zero, s_add, s_sub, SCALE};
use crate::cx::{Cx, cx_add, cx_sub, cx_mul, cx_div, cx_norm2, cx_one, sc_add, sc_sub, sc_mul,
    sc_div, sc_norm2, DivErr};
use crate::layer::{Layer, Triple, lambdas_wf, s_delta_d};

verus! {

/// Why a query on a stack could not produce a value.
#[derive(Clone, Copy, Debug, PartialEq, Eq, Structural)]
pub enum StackError {
    /// A reflection needs at least one boundary, hence at least two layers.
    TooFewLayers,
    /// The refractive indices of two adjacent layers sum to zero on some
    /// channel (or so close to zero that the fixed-point squared norm of the
    /// sum truncates to zero), so the Fresnel coefficient is undefined.
    DegenerateBoundary,
    /// The denominator of the recursive combination vanished.
    Singular,
    /// An intermediate value left the representable fixed-point range.
    Overflow,
}

/// An ordered stack of layers and the three operating wavelengths.
pub struct Structure {
    /// Index 0 is the topmost (incident) layer; increasing index is deeper.
    pub layers: Vec<Layer>,
    /// One wavelength per channel, shared by all layers.
    pub lambda: Triple<Fx>,
}

/// Result of depth localization.
#[derive(Clone, Debug, PartialEq, Eq)]
pub struct Located {
    /// Whether the requested depth exceeded the total thickness and was
    /// clamped to it.
    pub clamped: bool,
    /// Index of the layer the depth ends in.
    pub terminal: usize,
    /// Crossed thickness per layer, for layers `0..=terminal`: the full
    /// thickness for every layer above the terminal one, the remaining
    /// depth for the terminal layer.
    pub crossed: Vec<Fx>,
}

impl Structure {
    /// Canonical form of every numeric field.
    pub open spec fn wf(self) -> bool {
        &&& forall|i: int| 0 <= i < self.layers@.len() ==> (#[trigger] self.layers@[i]).wf()
        &&& self.lambda.c0.wf()
        &&& self.lambda.c1.wf()
        &&& self.lambda.c2.wf()
    }
}

/// The values of a sequence of scalars.
pub open spec fn fvals(s: Seq<Fx>) -> Seq<int> {
    s.map_values(|f: Fx| f.v())
}

/// The values of a sequence of complex numbers.
pub open spec fn cvals(s: Seq<Cx>) -> Seq<(int, int)> {
    s.map_values(|c: Cx| c.v())
}

/// The values of one channel of a layer sequence's refractive indices.
pub open spec fn ns_of(layers: Seq<Layer>, ch: int) -> Seq<(int, int)> {
    layers.map_values(|l: Layer| l.n_col.spec_get(ch).v())
}

/// The values of one channel of a sequence of per-channel triples.
pub open spec fn exps_of(exps: Seq<Triple<Cx>>, ch: int) -> Seq<(int, int)> {
    exps.map_values(|t: Triple<Cx>| t.spec_get(ch).v())
}

/// Canonical form of a sequence of per-channel triples.
pub open spec fn exps_wf(exps: Seq<Triple<Cx>>) -> bool {
    forall|k: int|
        0 <= k < exps.len() ==> (#[trigger] exps[k]).c0.wf() && exps[k].c1.wf() && exps[k].c2.wf()
}

/// Fresnel coefficient of the boundary between refractive indices `n1`
/// (above) and `n2` (below), one channel: `(n2 - n1) / (n2 + n1)`.
pub open spec fn s_refrac(n1: (int, int), n2: (int, int)) -> Result<(int, int), StackError> {
    match sc_sub(n2, n1) {
        None => Err(StackError::Overflow),
        Some(diff) => match sc_add(n2, n1) {
            None => Err(StackError::Overflow),
            Some(sum) => match sc_div(diff, sum) {
                Err(DivErr::Zero) => Err(StackError::DegenerateBoundary),
                Err(DivErr::Overflow) => Err(StackError::Overflow),
                Ok(r) => Ok(r),
            },
        },
    }
}

/// Sum of the thicknesses of the first `k` layers, `None` where a partial
/// sum leaves the representable range.
pub open spec fn s_sum_prefix(layers: Seq<Layer>, k: int) -> Option<int>
    decreases k,
{
    if k <= 0 {
        Some(0)
    } else {
        match s_sum_prefix(layers, k - 1) {
            None => None,
            Some(acc) => s_add(acc, layers[k - 1].d.v()),
        }
    }
}

/// The walk of depth localization from layer `i` downward with `rem` depth
/// still to account for: the terminal layer index and the crossed thickness
/// of each layer from `i` on.
pub open spec fn s_walk(layers: Seq<Layer>, rem: int, i: int) -> Option<(int, Seq<int>)>
    decreases layers.len() - i,
{
    if i < 0 || i >= layers.len() {
        Some((layers.len() - 1, Seq::empty()))
    } else {
        let d = layers[i].d.v();
        match s_sub(rem, d) {
            None => None,
            Some(diff) => if diff <= 0 {
                match s_add(d, diff) {
                    None => None,
                    Some(c) => Some((i, seq![c])),
                }
            } else {
                match s_walk(layers, diff, i + 1) {
                    None => None,
                    Some((t, rest)) => Some((t, seq![d] + rest)),
                }
            },
        }
    }
}

/// Depth localization: clamp the depth to the total thickness, then walk the
/// layers from the top accumulating thickness.  A depth landing exactly on a
/// boundary belongs to the shallower layer with its full thickness crossed.
pub open spec fn s_locate(layers: Seq<Layer>, depth: int) -> Result<
    (bool, int, Seq<int>),
    StackError,
> {
    if layers.len() == 0 {
        Err(StackError::TooFewLayers)
    } else {
        match s_sum_prefix(layers, layers.len() as int) {
            None => Err(StackError::Overflow),
            Some(max) => {
                let clamped = depth > max;
                let start = if clamped {
                    max
                } else {
                    depth
                };
                match s_walk(layers, start, 0) {
                    None => Err(StackError::Overflow),
                    Some((t, crossed)) => Ok((clamped, t, crossed)),
                }
            },
        }
    }
}

/// One step of the recursive buildup, one channel: with `eff` the effective
/// reflectance accumulated so far, `next` the coefficient of the next
/// recorded boundary and `e` the phase factor of the crossed layer, the new
/// effective reflectance is `(next + eff * e) / (1 + (next * eff) * e)`.
pub open spec fn s_combine(eff: (int, int), next: (int, int), e: (int, int)) -> Result<
    (int, int),
    StackError,
> {
    match sc_mul(eff, e) {
        None => Err(StackError::Overflow),
        Some(t1) => match sc_add(next, t1) {
            None => Err(StackError::Overflow),
            Some(num) => match sc_mul(next, eff) {
                None => Err(StackError::Overflow),
                Some(p) => match sc_mul(p, e) {
                    None => Err(StackError::Overflow),
                    Some(p2) => match sc_add((SCALE as int, 0int), p2) {
                        None => Err(StackError::Overflow),
                        Some(den) => match sc_div(num, den) {
                            Err(DivErr::Zero) => Err(StackError::Singular),
                            Err(DivErr::Overflow) => Err(StackError::Overflow),
                            Ok(r) => Ok(r),
                        },
                    },
                },
            },
        },
    }
}

/// The iteration of the buildup from pair `k` on, one channel: combine, then
/// advance the next-boundary coefficient while boundaries remain strictly
/// above the terminal layer.
pub open spec fn s_fold(
    ns: Seq<(int, int)>,
    exps: Seq<(int, int)>,
    t: int,
    k: int,
    eff: (int, int),
    next: (int, int),
    riter: int,
) -> Result<(int, int), StackError>
    decreases t - k + 1,
{
    if k > t || k < 0 {
        Ok(eff)
    } else {
        match s_combine(eff, next, exps[k]) {
            Err(e) => Err(e),
            Ok(eff2) => if riter < t {
                match s_refrac(ns[riter], ns[riter + 1]) {
                    Err(e) => Err(e),
                    Ok(next2) => s_fold(ns, exps, t, k + 1, eff2, next2, riter + 1),
                }
            } else {
                s_fold(ns, exps, t, k + 1, eff2, next, riter)
            },
        }
    }
}

/// The full buildup for one channel: seed with the first boundary's
/// coefficient; where the terminal layer lies below the first boundary and a
/// second boundary exists, fold every crossed layer in; otherwise the seed
/// is already the answer.
pub open spec fn s_reie_ch(ns: Seq<(int, int)>, t: int, exps: Seq<(int, int)>) -> Result<
    (int, int),
    StackError,
> {
    if ns.len() < 2 {
        Err(StackError::TooFewLayers)
    } else {
        match s_refrac(ns[0], ns[1]) {
            Err(e) => Err(e),
            Ok(eff0) => if t >= 1 && ns.len() >= 3 {
                match s_refrac(ns[1], ns[2]) {
                    Err(e) => Err(e),
                    Ok(next0) => s_fold(ns, exps, t, 0, eff0, next0, 2),
                }
            } else {
                Ok(eff0)
            },
        }
    }
}

/// The reflected-field amplitude per channel as seen from `depth`, given the
/// phase factor triple of each crossed layer.
pub open spec fn s_reie(layers: Seq<Layer>, depth: int, exps: Seq<Triple<Cx>>) -> Result<
    Triple<(int, int)>,
    StackError,
> {
    if layers.len() < 2 {
        Err(StackError::TooFewLayers)
    } else {
        match s_locate(layers, depth) {
            Err(e) => Err(e),
            Ok((clamped, t, crossed)) => match s_reie_ch(ns_of(layers, 0), t, exps_of(exps, 0)) {
                Err(e) => Err(e),
                Ok(r0) => match s_reie_ch(ns_of(layers, 1), t, exps_of(exps, 1)) {
                    Err(e) => Err(e),
                    Ok(r1) => match s_reie_ch(ns_of(layers, 2), t, exps_of(exps, 2)) {
                        Err(e) => Err(e),
                        Ok(r2) => Ok(Triple { c0: r0, c1: r1, c2: r2 }),
                    },
                },
            },
        }
    }
}

/// The observable intensity per channel: the squared norm of the amplitude.
pub open spec fn s_intensity(layers: Seq<Layer>, depth: int, exps: Seq<Triple<Cx>>) -> Result<
    Triple<int>,
    StackError,
> {
    match s_reie(layers, depth, exps) {
        Err(e) => Err(e),
        Ok(r) => match (sc_norm2(r.c0), sc_norm2(r.c1), sc_norm2(r.c2)) {
            (Some(a), Some(b), Some(c)) => Ok(Triple { c0: a, c1: b, c2: c }),
            _ => Err(StackError::Overflow),
        },
    }
}

/// The phase triples of the crossed layers from pair `k` on.
pub open spec fn s_phase_list(
    layers: Seq<Layer>,
    lambda: Triple<Fx>,
    crossed: Seq<int>,
    k: int,
) -> Result<Seq<Triple<(int, int)>>, StackError>
    decreases crossed.len() - k,
{
    if k < 0 || k >= crossed.len() {
        Ok(Seq::empty())
    } else {
        match (s_delta_d(layers[k].n_col.c0.v(), lambda.c0.v(), crossed[k]), s_delta_d(
            layers[k].n_col.c1.v(),
            lambda.c1.v(),
            crossed[k],
        ), s_delta_d(layers[k].n_col.c2.v(), lambda.c2.v(), crossed[k])) {
            (Some(a), Some(b), Some(c)) => match s_phase_list(layers, lambda, crossed, k + 1) {
                Err(e) => Err(e),
                Ok(rest) => Ok(seq![Triple { c0: a, c1: b, c2: c }] + rest),
            },
            _ => Err(StackError::Overflow),
        }
    }
}

/// The phases of all crossed layers for a requested depth.
pub open spec fn s_phases(layers: Seq<Layer>, lambda: Triple<Fx>, depth: int) -> Result<
    Seq<Triple<(int, int)>>,
    StackError,
> {
    match s_locate(layers, depth) {
        Err(e) => Err(e),
        Ok((clamped, t, crossed)) => s_phase_list(layers, lambda, crossed, 0),
    }
}

/// Fresnel coefficient for one channel; see `s_refrac`.
fn refrac_ch(n1: Cx, n2: Cx) -> (r: Result<Cx, StackError>)
    requires
        n1.wf(),
        n2.wf(),
    ensures
        (match r {
            Ok(x) => s_refrac(n1.v(), n2.v()) == Result::<(int, int), StackError>::Ok(x.v())
                && x.wf(),
            Err(e) => s_refrac(n1.v(), n2.v()) == Result::<(int, int), StackError>::Err(e),
        }),
{
    let diff = match cx_sub(n2, n1) {
        Some(x) => x,
        None => {
            return Err(StackError::Overflow);
        },
    };
    let sum = match cx_add(n2, n1) {
        Some(x) => x,
        None => {
            return Err(StackError::Overflow);
        },
    };
    match cx_div(diff, sum) {
        Ok(x) => Ok(x),
        Err(DivErr::Zero) => Err(StackError::DegenerateBoundary),
        Err(DivErr::Overflow) => Err(StackError::Overflow),
    }
}

/// One combination step for one channel; see `s_combine`.
fn combine_ch(eff: Cx, next: Cx, e: Cx) -> (r: Result<Cx, StackError>)
    requires
        eff.wf(),
        next.wf(),
        e.wf(),
    ensures
        (match r {
            Ok(x) => s_combine(eff.v(), next.v(), e.v()) == Result::<(int, int), StackError>::Ok(
                x.v(),
            ) && x.wf(),
            Err(err) => s_combine(eff.v(), next.v(), e.v()) == Result::<
                (int, int),
                StackError,
            >::Err(err),
        }),
{
    let t1 = match cx_mul(eff, e) {
        Some(x) => x,
        None => {
            return Err(StackError::Overflow);
        },
    };
    let num = match cx_add(next, t1) {
        Some(x) => x,
        None => {
            return Err(StackError::Overflow);
        },
    };
    let p = match cx_mul(next, eff) {
        Some(x) => x,
        None => {
            return Err(StackError::Overflow);
        },
    };
    let p2 = match cx_mul(p, e) {
        Some(x) => x,
        None => {
            return Err(StackError::Overflow);
        },
    };
    let den = match cx_add(cx_one(), p2) {
        Some(x) => x,
        None => {
            return Err(StackError::Overflow);
        },
    };
    match cx_div(num, den) {
        Ok(x) => Ok(x),
        Err(DivErr::Zero) => Err(StackError::Singular),
        Err(DivErr::Overflow) => Err(StackError::Overflow),
    }
}

/// The buildup for one channel; see `s_reie_ch`.
#[verifier::rlimit(100)]
fn reie_ch(ns: &Vec<Cx>, t: usize, exps: &Vec<Cx>) -> (r: Result<Cx, StackError>)
    requires
        forall|i: int| 0 <= i < ns@.len() ==> (#[trigger] ns@[i]).wf(),
        2 <= ns@.len(),
        t < ns@.len(),
        exps@.len() == t + 1,
        forall|i: int| 0 <= i < exps@.len() ==> (#[trigger] exps@[i]).wf(),
    ensures
        (match r {
            Ok(x) => s_reie_ch(cvals(ns@), t as int, cvals(exps@)) == Result::<
                (int, int),
                StackError,
            >::Ok(x.v()) && x.wf(),
            Err(e) => s_reie_ch(cvals(ns@), t as int, cvals(exps@)) == Result::<
                (int, int),
                StackError,
            >::Err(e),
        }),
{
    let ghost nsv = cvals(ns@);
    let ghost expsv = cvals(exps@);
    assert(forall|i: int| 0 <= i < ns@.len() ==> nsv[i] == (#[trigger] ns@[i]).v());
    assert(forall|i: int| 0 <= i < exps@.len() ==> expsv[i] == (#[trigger] exps@[i]).v());
    let eff0 = match refrac_ch(ns[0], ns[1]) {
        Ok(x) => x,
        Err(e) => {
            return Err(e);
        },
    };
    let nlen: usize = ns.len();
    if t >= 1 && nlen >= 3 {
        let mut next = match refrac_ch(ns[1], ns[2]) {
            Ok(x) => x,
            Err(e) => {
                return Err(e);
            },
        };
        let mut eff = eff0;
        let mut riter: usize = 2;
        let mut k: usize = 0;
        while k <= t
            invariant
                k <= t + 1,
                2 <= riter <= t || riter == 2,
                nlen == ns@.len(),
                t < nlen,
                3 <= nlen,
                exps@.len() == t + 1,
                forall|i: int| 0 <= i < ns@.len() ==> (#[trigger] ns@[i]).wf(),
                forall|i: int| 0 <= i < exps@.len() ==> (#[trigger] exps@[i]).wf(),
                nsv == cvals(ns@),
                expsv == cvals(exps@),
                forall|i: int| 0 <= i < ns@.len() ==> nsv[i] == (#[trigger] ns@[i]).v(),
                forall|i: int| 0 <= i < exps@.len() ==> expsv[i] == (#[trigger] exps@[i]).v(),
                eff.wf(),
                next.wf(),
                s_reie_ch(nsv, t as int, expsv) == s_fold(
                    nsv,
                    expsv,
                    t as int,
                    k as int,
                    eff.v(),
                    next.v(),
                    riter as int,
                ),
            decreases t + 1 - k,
        {
            let e = exps[k];
            eff = match combine_ch(eff, next, e) {
                Ok(x) => x,
                Err(err) => {
                    return Err(err);
                },
            };
            if riter < t {
                next = match refrac_ch(ns[riter], ns[riter + 1]) {
                    Ok(x) => x,
                    Err(err) => {
                        return Err(err);
                    },
                };
                riter = riter + 1;
            }
            k = k + 1;
        }
        Ok(eff)
    } else {
        Ok(eff0)
    }
}

impl Structure {
    /// An empty stack with zero wavelengths.
    pub fn new() -> (r: Self)
        ensures
            r.layers@.len() == 0,
            r.lambda.c0.v() == 0,
            r.lambda.c1.v() == 0,
            r.lambda.c2.v() == 0,
            r.wf(),
    {
        Structure {
            layers: Vec::new(),
            lambda: Triple { c0: fx_zero(), c1: fx_zero(), c2: fx_zero() },
        }
    }

    /// Replace the wavelength triple.
    pub fn set_lambda(self, lambda: Triple<Fx>) -> (r: Self)
        ensures
            r.layers == self.layers,
            r.lambda == lambda,
    {
        Structure { layers: self.layers, lambda }
    }

    /// Fresnel coefficients per channel at the boundary between layers `k1`
    /// (above) and `k2` (below).
    pub fn refrac(&self, k1: usize, k2: usize) -> (r: Result<Triple<Cx>, StackError>)
        requires
            self.wf(),
            k1 < self.layers@.len(),
            k2 < self.layers@.len(),
        ensures
            (match r {
                Ok(x) => s_refrac3(self.layers@[k1 as int], self.layers@[k2 as int]) == Result::<
                    Triple<(int, int)>,
                    StackError,
                >::Ok(Triple { c0: x.c0.v(), c1: x.c1.v(), c2: x.c2.v() }) && x.c0.wf() && x.c1.wf()
                    && x.c2.wf(),
                Err(e) => s_refrac3(self.layers@[k1 as int], self.layers@[k2 as int]) == Result::<
                    Triple<(int, int)>,
                    StackError,
                >::Err(e),
            }),
    {
        let l1 = &self.layers[k1];
        let l2 = &self.layers[k2];
        let a = match refrac_ch(l1.n_col.c0, l2.n_col.c0) {
            Ok(x) => x,
            Err(e) => {
                return Err(e);
            },
        };
        let b = match refrac_ch(l1.n_col.c1, l2.n_col.c1) {
            Ok(x) => x,
            Err(e) => {
                return Err(e);
            },
        };
        let c = match refrac_ch(l1.n_col.c2, l2.n_col.c2) {
            Ok(x) => x,
            Err(e) => {
                return Err(e);
            },
        };
        Ok(Triple { c0: a, c1: b, c2: c })
    }

    /// Total thickness of the stack.
    pub fn max_depth(&self) -> (r: Result<Fx, StackError>)
        requires
            self.wf(),
        ensures
            (match r {
                Ok(x) => s_sum_prefix(self.layers@, self.layers@.len() as int) == Some(x.v())
                    && x.wf(),
                Err(e) => s_sum_prefix(self.layers@, self.layers@.len() as int).is_none() && e
                    == StackError::Overflow,
            }),
    {
        let mut acc = fx_zero();
        let mut i: usize = 0;
        let n = self.layers.len();
        while i < n
            invariant
                i <= n,
                n == self.layers@.len(),
                self.wf(),
                acc.wf(),
                s_sum_prefix(self.layers@, i as int) == Some(acc.v()),
            decreases n - i,
        {
            acc = match fx_add(acc, self.layers[i].d) {
                Some(x) => x,
                None => {
                    proof {
                        lemma_sum_prefix_none(self.layers@, i as int + 1, self.layers@.len() as int);
                    }
                    return Err(StackError::Overflow);
                },
            };
            i = i + 1;
        }
        Ok(acc)
    }

    /// Depth localization; see `s_locate`.
    pub fn locate(&self, depth: Fx) -> (r: Result<Located, StackError>)
        requires
            self.wf(),
            depth.wf(),
        ensures
            (match r {
                Ok(l) => s_locate(self.layers@, depth.v()) == Result::<
                    (bool, int, Seq<int>),
                    StackError,
                >::Ok((l.clamped, l.terminal as int, fvals(l.crossed@))) && l.terminal
                    < self.layers@.len() && l.crossed@.len() == l.terminal + 1 && (forall|i: int|
                    0 <= i < l.crossed@.len() ==> (#[trigger] l.crossed@[i]).wf()),
                Err(e) => s_locate(self.layers@, depth.v()) == Result::<
                    (bool, int, Seq<int>),
                    StackError,
                >::Err(e),
            }),
    {
        let n = self.layers.len();
        if n == 0 {
            return Err(StackError::TooFewLayers);
        }
        let max = match self.max_depth() {
            Ok(x) => x,
            Err(e) => {
                return Err(e);
            },
        };
        let clamped = !fx_le(depth, max);
        let start = if clamped {
            max
        } else {
            depth
        };
        let mut crossed: Vec<Fx> = Vec::new();
        let mut rem = start;
        let mut i: usize = 0;
        proof {
            if let Some((t2, rest)) = s_walk(self.layers@, start.v(), 0) {
                assert(fvals(crossed@) + rest =~= rest);
            }
        }
        while i < n
            invariant
                i <= n,
                n == self.layers@.len(),
                n >= 1,
                self.wf(),
                rem.wf(),
                depth.wf(),
                max.wf(),
                s_sum_prefix(self.layers@, self.layers@.len() as int) == Some(max.v()),
                clamped == (depth.v() > max.v()),
                start.v() == (if clamped {
                    max.v()
                } else {
                    depth.v()
                }),
                crossed@.len() == i,
                forall|j: int| 0 <= j < crossed@.len() ==> (#[trigger] crossed@[j]).wf(),
                (match s_walk(self.layers@, rem.v(), i as int) {
                    None => s_walk(self.layers@, start.v(), 0).is_none(),
                    Some((t2, rest)) => s_walk(self.layers@, start.v(), 0) == Some(
                        (t2, fvals(crossed@) + rest),
                    ),
                }),
            decreases n - i,
        {
            let ghost rem_old = rem;
            let d = self.layers[i].d;
            let diff = match fx_sub(rem, d) {
                Some(x) => x,
                None => {
                    proof {
                        assert(s_walk(self.layers@, rem_old.v(), i as int).is_none());
                    }
                    return Err(StackError::Overflow);
                },
            };
            if fx_is_nonpos(diff) {
                let c = match fx_add(d, diff) {
                    Some(x) => x,
                    None => {
                        proof {
                            assert(s_walk(self.layers@, rem_old.v(), i as int).is_none());
                        }
                        return Err(StackError::Overflow);
                    },
                };
                let ghost old_crossed = crossed@;
                crossed.push(c);
                proof {
                    assert(s_walk(self.layers@, rem_old.v(), i as int) == Some(
                        (i as int, seq![c.v()]),
                    ));
                    assert(fvals(old_crossed.push(c)) =~= fvals(old_crossed).push(c.v()));
                    assert(fvals(old_crossed) + seq![c.v()] =~= fvals(old_crossed).push(c.v()));
                }
                return Ok(Located { clamped, terminal: i, crossed });
            }
            let ghost old_crossed = crossed@;
            rem = diff;
            crossed.push(d);
            proof {
                assert(fvals(old_crossed.push(d)) =~= fvals(old_crossed).push(d.v()));
                match s_walk(self.layers@, diff.v(), i as int + 1) {
                    None => {
                        assert(s_walk(self.layers@, rem_old.v(), i as int).is_none());
                    },
                    Some((t2, rest)) => {
                        assert(s_walk(self.layers@, rem_old.v(), i as int) == Some(
                            (t2, seq![d.v()] + rest),
                        ));
                        assert(fvals(old_crossed) + (seq![d.v()] + rest) =~= fvals(
                            old_crossed,
                        ).push(d.v()) + rest);
                    },
                }
            }
            i = i + 1;
        }
        // The walk ran past the last layer: the terminal layer is the last
        // one, with its full thickness crossed.
        proof {
            assert(fvals(crossed@) + Seq::<int>::empty() =~= fvals(crossed@));
        }
        Ok(Located { clamped, terminal: n - 1, crossed })
    }
}

/// Fresnel coefficients per channel between two layers.
pub open spec fn s_refrac3(l1: Layer, l2: Layer) -> Result<Triple<(int, int)>, StackError> {
    match s_refrac(l1.n_col.c0.v(), l2.n_col.c0.v()) {
        Err(e) => Err(e),
        Ok(a) => match s_refrac(l1.n_col.c1.v(), l2.n_col.c1.v()) {
            Err(e) => Err(e),
            Ok(b) => match s_refrac(l1.n_col.c2.v(), l2.n_col.c2.v()) {
                Err(e) => Err(e),
                Ok(c) => Ok(Triple { c0: a, c1: b, c2: c }),
            },
        },
    }
}

proof fn lemma_sum_prefix_none(layers: Seq<Layer>, k: int, m: int)
    requires
        0 <= k <= m,
        s_sum_prefix(layers, k).is_none(),
    ensures
        s_sum_prefix(layers, m).is_none(),
    decreases m - k,
{
    if k < m {
        lemma_sum_prefix_none(layers, k + 1, m);
    }
}

/// The values of a sequence of per-channel triples.
pub open spec fn tvals(s: Seq<Triple<Cx>>) -> Seq<Triple<(int, int)>> {
    s.map_values(|t: Triple<Cx>| Triple { c0: t.c0.v(), c1: t.c1.v(), c2: t.c2.v() })
}

proof fn lemma_tmul_nonneg(x: int)
    ensures
        crate::fx::t_mul(x, x) >= 0,
{
    assert(x * x >= 0) by (nonlinear_arith);
}

/// One channel of each layer's refractive index, as a vector.
fn channel_ns(layers: &Vec<Layer>, ch: usize) -> (r: Vec<Cx>)
    requires
        ch < 3,
        forall|i: int| 0 <= i < layers@.len() ==> (#[trigger] layers@[i]).wf(),
    ensures
        r@.len() == layers@.len(),
        cvals(r@) == ns_of(layers@, ch as int),
        forall|i: int| 0 <= i < r@.len() ==> (#[trigger] r@[i]).wf(),
{
    let mut r: Vec<Cx> = Vec::new();
    let n = layers.len();
    let mut i: usize = 0;
    while i < n
        invariant
            i <= n,
            n == layers@.len(),
            ch < 3,
            forall|j: int| 0 <= j < layers@.len() ==> (#[trigger] layers@[j]).wf(),
            r@.len() == i,
            forall|j: int|
                0 <= j < i ==> (#[trigger] r@[j]) == layers@[j].n_col.spec_get(ch as int),
        decreases n - i,
    {
        r.push(*layers[i].n_col.get(ch));
        i = i + 1;
    }
    proof {
        assert(cvals(r@) =~= ns_of(layers@, ch as int));
    }
    r
}

/// One channel of each phase-factor triple, as a vector.
fn channel_exps(exps: &Vec<Triple<Cx>>, ch: usize) -> (r: Vec<Cx>)
    requires
        ch < 3,
        exps_wf(exps@),
    ensures
        r@.len() == exps@.len(),
        cvals(r@) == exps_of(exps@, ch as int),
        forall|i: int| 0 <= i < r@.len() ==> (#[trigger] r@[i]).wf(),
{
    let mut r: Vec<Cx> = Vec::new();
    let n = exps.len();
    let mut i: usize = 0;
    while i < n
        invariant
            i <= n,
            n == exps@.len(),
            ch < 3,
            exps_wf(exps@),
            r@.len() == i,
            forall|j: int| 0 <= j < i ==> (#[trigger] r@[j]) == exps@[j].spec_get(ch as int),
        decreases n - i,
    {
        r.push(*exps[i].get(ch));
        i = i + 1;
    }
    proof {
        assert(cvals(r@) =~= exps_of(exps@, ch as int));
    }
    r
}

impl Structure {
    /// The reflected-field amplitude per channel as seen from `depth`.
    ///
    /// `exps` holds, for each crossed layer in top-to-bottom order, the
    /// channel triple of the factor `exp(-j * delta)` for that layer's
    /// crossed thickness; `phases` reports the phases `delta` and how many
    /// crossed layers there are.
    pub fn reie(&self, depth: Fx, exps: &Vec<Triple<Cx>>) -> (r: Result<Triple<Cx>, StackError>)
        requires
            self.wf(),
            depth.wf(),
            exps_wf(exps@),
            (match s_locate(self.layers@, depth.v()) {
                Ok(l) => exps@.len() == l.1 + 1,
                Err(_) => true,
            }),
        ensures
            (match r {
                Ok(x) => s_reie(self.layers@, depth.v(), exps@) == Result::<
                    Triple<(int, int)>,
                    StackError,
                >::Ok(Triple { c0: x.c0.v(), c1: x.c1.v(), c2: x.c2.v() }) && x.c0.wf() && x.c1.wf()
                    && x.c2.wf(),
                Err(e) => s_reie(self.layers@, depth.v(), exps@) == Result::<
                    Triple<(int, int)>,
                    StackError,
                >::Err(e),
            }),
    {
        if self.layers.len() < 2 {
            return Err(StackError::TooFewLayers);
        }
        let loc = match self.locate(depth) {
            Ok(l) => l,
            Err(e) => {
                return Err(e);
            },
        };
        let t = loc.terminal;
        let ns0 = channel_ns(&self.layers, 0);
        let es0 = channel_exps(exps, 0);
        let r0 = match reie_ch(&ns0, t, &es0) {
            Ok(x) => x,
            Err(e) => {
                return Err(e);
            },
        };
        let ns1 = channel_ns(&self.layers, 1);
        let es1 = channel_exps(exps, 1);
        let r1 = match reie_ch(&ns1, t, &es1) {
            Ok(x) => x,
            Err(e) => {
                return Err(e);
            },
        };
        let ns2 = channel_ns(&self.layers, 2);
        let es2 = channel_exps(exps, 2);
        let r2 = match reie_ch(&ns2, t, &es2) {
            Ok(x) => x,
            Err(e) => {
                return Err(e);
            },
        };
        Ok(Triple { c0: r0, c1: r1, c2: r2 })
    }

    /// The observable intensity per channel as seen from `depth`: the
    /// squared norm of the reflected-field amplitude.  Every channel of a
    /// successful result is non-negative.
    pub fn intensity(&self, depth: Fx, exps: &Vec<Triple<Cx>>) -> (r: Result<
        Triple<Fx>,
        StackError,
    >)
        requires
            self.wf(),
            depth.wf(),
            exps_wf(exps@),
            (match s_locate(self.layers@, depth.v()) {
                Ok(l) => exps@.len() == l.1 + 1,
                Err(_) => true,
            }),
        ensures
            (match r {
                Ok(x) => s_intensity(self.layers@, depth.v(), exps@) == Result::<
                    Triple<int>,
                    StackError,
                >::Ok(Triple { c0: x.c0.v(), c1: x.c1.v(), c2: x.c2.v() }) && x.c0.wf() && x.c1.wf()
                    && x.c2.wf() && x.c0.v() >= 0 && x.c1.v() >= 0 && x.c2.v() >= 0,
                Err(e) => s_intensity(self.layers@, depth.v(), exps@) == Result::<
                    Triple<int>,
                    StackError,
                >::Err(e),
            }),
    {
        let a = match self.reie(depth, exps) {
            Ok(x) => x,
            Err(e) => {
                return Err(e);
            },
        };
        proof {
            lemma_tmul_nonneg(a.c0.re.v());
            lemma_tmul_nonneg(a.c0.im.v());
            lemma_tmul_nonneg(a.c1.re.v());
            lemma_tmul_nonneg(a.c1.im.v());
            lemma_tmul_nonneg(a.c2.re.v());
            lemma_tmul_nonneg(a.c2.im.v());
        }
        let i0 = match cx_norm2(a.c0) {
            Some(x) => x,
            None => {
                return Err(StackError::Overflow);
            },
        };
        let i1 = match cx_norm2(a.c1) {
            Some(x) => x,
            None => {
                return Err(StackError::Overflow);
            },
        };
        let i2 = match cx_norm2(a.c2) {
            Some(x) => x,
            None => {
                return Err(StackError::Overflow);
            },
        };
        Ok(Triple { c0: i0, c1: i1, c2: i2 })
    }

    /// The phase triple `delta` of every crossed layer for a requested
    /// depth, in top-to-bottom order: the factor `exp(-j * delta)` of each
    /// entry is what `reie` and `intensity` expect in `exps`.
    #[verifier::rlimit(100)]
    pub fn phases(&self, depth: Fx) -> (r: Result<Vec<Triple<Cx>>, StackError>)
        requires
            self.wf(),
            depth.wf(),
            lambdas_wf(self.lambda),
        ensures
            (match r {
                Ok(v) => s_phases(self.layers@, self.lambda, depth.v()) == Result::<
                    Seq<Triple<(int, int)>>,
                    StackError,
                >::Ok(tvals(v@)) && exps_wf(v@) && (match s_locate(self.layers@, depth.v()) {
                    Ok(l) => v@.len() == l.1 + 1,
                    Err(_) => false,
                }),
                Err(e) => s_phases(self.layers@, self.lambda, depth.v()) == Result::<
                    Seq<Triple<(int, int)>>,
                    StackError,
                >::Err(e),
            }),
    {
        let loc = match self.locate(depth) {
            Ok(l) => l,
            Err(e) => {
                return Err(e);
            },
        };
        let m = loc.crossed.len();
        let mut out: Vec<Triple<Cx>> = Vec::new();
        let ghost crossedv = fvals(loc.crossed@);
        proof {
            if let Ok(rest) = s_phase_list(self.layers@, self.lambda, crossedv, 0) {
                assert(tvals(out@) + rest =~= rest);
            }
        }
        let mut k: usize = 0;
        while k < m
            invariant
                k <= m,
                m == loc.crossed@.len(),
                m <= self.layers@.len(),
                self.wf(),
                lambdas_wf(self.lambda),
                crossedv == fvals(loc.crossed@),
                s_locate(self.layers@, depth.v()) == Result::<
                    (bool, int, Seq<int>),
                    StackError,
                >::Ok((loc.clamped, loc.terminal as int, crossedv)),
                forall|j: int| 0 <= j < loc.crossed@.len() ==> (#[trigger] loc.crossed@[j]).wf(),
                out@.len() == k,
                exps_wf(out@),
                (match s_phase_list(self.layers@, self.lambda, crossedv, k as int) {
                    Err(e) => s_phase_list(self.layers@, self.lambda, crossedv, 0) == Result::<
                        Seq<Triple<(int, int)>>,
                        StackError,
                    >::Err(e),
                    Ok(rest) => s_phase_list(self.layers@, self.lambda, crossedv, 0) == Result::<
                        Seq<Triple<(int, int)>>,
                        StackError,
                    >::Ok(tvals(out@) + rest),
                }),
            decreases m - k,
        {
            proof {
                assert(crossedv[k as int] == loc.crossed@[k as int].v());
            }
            let ph = match self.layers[k].delta_d(self.lambda, loc.crossed[k]) {
                Some(x) => x,
                None => {
                    return Err(StackError::Overflow);
                },
            };
            let ghost old_out = out@;
            out.push(ph);
            proof {
                assert(tvals(old_out.push(ph)) =~= tvals(old_out).push(
                    Triple { c0: ph.c0.v(), c1: ph.c1.v(), c2: ph.c2.v() },
                ));
                match s_phase_list(self.layers@, self.lambda, crossedv, k as int + 1) {
                    Err(e) => {},
                    Ok(rest) => {
                        assert(tvals(old_out) + (seq![
                            Triple { c0: ph.c0.v(), c1: ph.c1.v(), c2: ph.c2.v() },
                        ] + rest) =~= tvals(old_out).push(
                            Triple { c0: ph.c0.v(), c1: ph.c1.v(), c2: ph.c2.v() },
                        ) + rest);
                    },
                }
            }
            k = k + 1;
        }
        proof {
            assert(tvals(out@) + Seq::<Triple<(int, int)>>::empty() =~= tvals(out@));
        }
        Ok(out)
    }
}

impl From<Vec<Layer>> for Structure {
    /// A stack over the given layers with all three wavelengths zero; the
    /// wavelengths are supplied afterwards through `set_lambda`.
    fn from(value: Vec<Layer>) -> (r: Structure) {
        Structure {
            layers: value,
            lambda: Triple {
                c0: Fx { neg: false, mag: 0 },
                c1: Fx { neg: false, mag: 0 },
                c2: Fx { neg: false, mag: 0 },
            },
        }
    }
}

impl vstd::std_specs::convert::FromSpecImpl<Vec<Layer>> for Structure {
    open spec fn obeys_from_spec() -> bool {
        true
    }

    open spec fn from_spec(v: Vec<Layer>) -> Structure {
        Structure {
            layers: v,
            lambda: Triple {
                c0: Fx { neg: false, mag: 0 },
                c1: Fx { neg: false, mag: 0 },
                c2: Fx { neg: false, mag: 0 },
            },
        }
    }
}

} // verus!
