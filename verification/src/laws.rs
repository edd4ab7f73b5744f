//! Laws of the optical recursion, stated against the same specification
//! functions that the executable engine's contracts are pinned to.

use vstd::prelude::*;
use crate::fx::Fx;
use crate::cx::{Cx, sc_norm2};
use crate::layer::Triple;
use crate::layer::Layer;
use crate::structure::{s_locate, s_reie, s_intensity, s_phases, s_refrac3, s_sum_prefix,
    s_walk, StackError, ns_of};

verus! {

/// The intensity of a bare boundary: the squared norm, per channel, of the
/// boundary's Fresnel coefficient.
pub open spec fn s_boundary_intensity(l1: Layer, l2: Layer) -> Result<Triple<int>, StackError> {
    match s_refrac3(l1, l2) {
        Err(e) => Err(e),
        Ok(tr) => match (sc_norm2(tr.c0), sc_norm2(tr.c1), sc_norm2(tr.c2)) {
            (Some(a), Some(b), Some(c)) => Ok(Triple { c0: a, c1: b, c2: c }),
            _ => Err(StackError::Overflow),
        },
    }
}

/// At depth zero the reflected amplitude is exactly the Fresnel coefficient
/// of the first boundary, whatever phase factors are supplied: no layer has
/// been crossed, so no phase term and no deeper boundary is folded in.
pub proof fn lemma_surface_amplitude(layers: Seq<Layer>, exps: Seq<Triple<Cx>>)
    requires
        layers.len() >= 2,
        layers[0].d.v() >= 0,
        (match s_sum_prefix(layers, layers.len() as int) {
            Some(m) => m >= 0,
            None => false,
        }),
    ensures
        s_reie(layers, 0, exps) == s_refrac3(layers[0], layers[1]),
{
    let m = s_sum_prefix(layers, layers.len() as int)->Some_0;
    assert(s_walk(layers, 0, 0) == Some((0int, seq![0int])));
    assert(s_locate(layers, 0) == Result::<(bool, int, Seq<int>), StackError>::Ok(
        (false, 0int, seq![0int]),
    ));
    assert(ns_of(layers, 0)[0] == layers[0].n_col.c0.v());
    assert(ns_of(layers, 0)[1] == layers[1].n_col.c0.v());
    assert(ns_of(layers, 1)[0] == layers[0].n_col.c1.v());
    assert(ns_of(layers, 1)[1] == layers[1].n_col.c1.v());
    assert(ns_of(layers, 2)[0] == layers[0].n_col.c2.v());
    assert(ns_of(layers, 2)[1] == layers[1].n_col.c2.v());
    assert(ns_of(layers, 0).len() == layers.len());
    assert(ns_of(layers, 1).len() == layers.len());
    assert(ns_of(layers, 2).len() == layers.len());
}

/// At depth zero the intensity is exactly the squared norm of the first
/// boundary's Fresnel coefficient, per channel.
pub proof fn lemma_surface_intensity(layers: Seq<Layer>, exps: Seq<Triple<Cx>>)
    requires
        layers.len() >= 2,
        layers[0].d.v() >= 0,
        (match s_sum_prefix(layers, layers.len() as int) {
            Some(m) => m >= 0,
            None => false,
        }),
    ensures
        s_intensity(layers, 0, exps) == s_boundary_intensity(layers[0], layers[1]),
{
    lemma_surface_amplitude(layers, exps);
}

/// Clamping is idempotent: any depth at or beyond the total thickness gives
/// the same amplitude, intensity and phases as the total thickness itself.
pub proof fn lemma_clamp_idempotent(
    layers: Seq<Layer>,
    lambda: Triple<Fx>,
    depth: int,
    exps: Seq<Triple<Cx>>,
)
    requires
        (match s_sum_prefix(layers, layers.len() as int) {
            Some(m) => depth >= m,
            None => false,
        }),
    ensures
        s_reie(layers, depth, exps) == s_reie(
            layers,
            s_sum_prefix(layers, layers.len() as int)->Some_0,
            exps,
        ),
        s_intensity(layers, depth, exps) == s_intensity(
            layers,
            s_sum_prefix(layers, layers.len() as int)->Some_0,
            exps,
        ),
        s_phases(layers, lambda, depth) == s_phases(
            layers,
            lambda,
            s_sum_prefix(layers, layers.len() as int)->Some_0,
        ),
{
    let m = s_sum_prefix(layers, layers.len() as int)->Some_0;
    if layers.len() == 0 {
    } else {
        assert(s_locate(layers, depth) == (match s_walk(layers, m, 0) {
            None => Result::<(bool, int, Seq<int>), StackError>::Err(StackError::Overflow),
            Some((t, crossed)) => Result::<(bool, int, Seq<int>), StackError>::Ok(
                (depth > m, t, crossed),
            ),
        }));
        assert(s_locate(layers, m) == (match s_walk(layers, m, 0) {
            None => Result::<(bool, int, Seq<int>), StackError>::Err(StackError::Overflow),
            Some((t, crossed)) => Result::<(bool, int, Seq<int>), StackError>::Ok(
                (false, t, crossed),
            ),
        }));
    }
}

/// Sum of the thicknesses of layers `i..k`.
pub open spec fn seg_sum(layers: Seq<Layer>, i: int, k: int) -> int
    decreases k - i,
{
    if i >= k {
        0
    } else {
        layers[i].d.v() + seg_sum(layers, i + 1, k)
    }
}

proof fn lemma_seg_nonneg(layers: Seq<Layer>, i: int, k: int)
    requires
        0 <= i,
        k <= layers.len(),
        forall|j: int| i <= j < k ==> (#[trigger] layers[j]).d.v() >= 0,
    ensures
        seg_sum(layers, i, k) >= 0,
    decreases k - i,
{
    if i < k {
        lemma_seg_nonneg(layers, i + 1, k);
    }
}

proof fn lemma_seg_pos(layers: Seq<Layer>, i: int, k: int)
    requires
        0 <= i < k,
        k <= layers.len(),
        forall|j: int| i <= j < k ==> (#[trigger] layers[j]).d.v() > 0,
    ensures
        seg_sum(layers, i, k) > 0,
    decreases k - i,
{
    assert(layers[i].d.v() > 0);
    if i + 1 < k {
        lemma_seg_pos(layers, i + 1, k);
    } else {
        assert(seg_sum(layers, i + 1, k) == 0);
    }
}

proof fn lemma_seg_split(layers: Seq<Layer>, i: int, k: int, n: int)
    requires
        i <= k <= n,
    ensures
        seg_sum(layers, i, n) == seg_sum(layers, i, k) + seg_sum(layers, k, n),
    decreases k - i,
{
    if i < k {
        lemma_seg_split(layers, i + 1, k, n);
    }
}

proof fn lemma_prefix_is_seg(layers: Seq<Layer>, n: int)
    requires
        0 <= n,
        s_sum_prefix(layers, n).is_some(),
    ensures
        s_sum_prefix(layers, n) == Some(seg_sum(layers, 0, n)),
    decreases n,
{
    if n > 0 {
        lemma_prefix_is_seg(layers, n - 1);
        lemma_seg_split(layers, 0, n - 1, n);
        assert(seg_sum(layers, n, n) == 0);
        assert(seg_sum(layers, n - 1, n) == layers[n - 1].d.v());
    }
}

proof fn lemma_walk_full(layers: Seq<Layer>, i: int, k: int)
    requires
        0 <= i <= k < layers.len(),
        forall|j: int| i <= j <= k ==> (#[trigger] layers[j]).d.v() > 0,
        seg_sum(layers, i, k + 1) <= u128::MAX as int,
    ensures
        s_walk(layers, seg_sum(layers, i, k + 1), i) == Some(
            (k, Seq::new((k + 1 - i) as nat, |j: int| layers[i + j].d.v())),
        ),
    decreases k - i,
{
    let rem = seg_sum(layers, i, k + 1);
    if i == k {
        assert(rem == layers[k].d.v());
        assert(Seq::new(1nat, |j: int| layers[i + j].d.v()) =~= seq![layers[k].d.v()]);
    } else {
        let diff = seg_sum(layers, i + 1, k + 1);
        lemma_seg_pos(layers, i + 1, k + 1);
        lemma_walk_full(layers, i + 1, k);
        assert(seq![layers[i].d.v()] + Seq::new((k - i) as nat, |j: int| layers[i + 1 + j].d.v())
            =~= Seq::new((k + 1 - i) as nat, |j: int| layers[i + j].d.v()));
    }
}

/// The discrete half of depth continuity at a boundary: a depth landing
/// exactly on the boundary below layer `k` localizes to layer `k` itself —
/// the shallower side — with its full thickness crossed, so the value at
/// the boundary is computed with the same crossing that depths just above
/// it approach.
pub proof fn lemma_boundary_tiebreak(layers: Seq<Layer>, k: int)
    requires
        0 <= k < layers.len(),
        forall|j: int| 0 <= j <= k ==> (#[trigger] layers[j]).d.v() > 0,
        forall|j: int| k < j < layers.len() ==> (#[trigger] layers[j]).d.v() >= 0,
        s_sum_prefix(layers, layers.len() as int).is_some(),
    ensures
        s_locate(layers, seg_sum(layers, 0, k + 1)) == Result::<
            (bool, int, Seq<int>),
            StackError,
        >::Ok((false, k, Seq::new((k + 1) as nat, |j: int| layers[j].d.v()))),
{
    let n = layers.len() as int;
    let b = seg_sum(layers, 0, k + 1);
    let m = s_sum_prefix(layers, n)->Some_0;
    lemma_prefix_is_seg(layers, n);
    lemma_seg_split(layers, 0, k + 1, n);
    lemma_seg_nonneg(layers, k + 1, n);
    assert(b <= m);
    lemma_walk_full(layers, 0, k);
    assert(Seq::new((k + 1) as nat, |j: int| layers[0 + j].d.v()) =~= Seq::new(
        (k + 1) as nat,
        |j: int| layers[j].d.v(),
    ));
}

/// A two-layer stack has no interior boundary: wherever depth localization
/// succeeds, the recursive buildup degenerates to the single Fresnel
/// coefficient of the one boundary, independent of the depth and of any
/// phase factors.
pub proof fn lemma_two_layer_stack(layers: Seq<Layer>, depth: int, exps: Seq<Triple<Cx>>)
    requires
        layers.len() == 2,
    ensures
        (match s_locate(layers, depth) {
            Ok(l) => s_reie(layers, depth, exps) == s_refrac3(layers[0], layers[1]),
            Err(e) => s_reie(layers, depth, exps) == Result::<
                Triple<(int, int)>,
                StackError,
            >::Err(e),
        }),
{
    assert(ns_of(layers, 0).len() == 2);
    assert(ns_of(layers, 1).len() == 2);
    assert(ns_of(layers, 2).len() == 2);
    assert(ns_of(layers, 0)[0] == layers[0].n_col.c0.v());
    assert(ns_of(layers, 0)[1] == layers[1].n_col.c0.v());
    assert(ns_of(layers, 1)[0] == layers[0].n_col.c1.v());
    assert(ns_of(layers, 1)[1] == layers[1].n_col.c1.v());
    assert(ns_of(layers, 2)[0] == layers[0].n_col.c2.v());
    assert(ns_of(layers, 2)[1] == layers[1].n_col.c2.v());
}

} // verus!
