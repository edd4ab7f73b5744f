use thinfilm::cx::Cx;
use thinfilm::fx::{Fx, SCALE};
use thinfilm::layer::{Layer, Triple};
use thinfilm::structure::{StackError, Structure};

fn fxu(mag: u128) -> Fx {
    Fx { neg: false, mag }
}

fn fx_f(x: f64) -> Fx {
    let neg = x < 0.0;
    let mag = (x.abs() * 1e12).round() as u128;
    Fx { neg: neg && mag != 0, mag }
}

fn fx_to_f64(x: &Fx) -> f64 {
    let m = x.mag as f64 / 1e12;
    if x.neg {
        -m
    } else {
        m
    }
}

fn cx_f(re: f64, im: f64) -> Cx {
    Cx { re: fx_f(re), im: fx_f(im) }
}

fn uniform(re: f64, im: f64) -> Triple<Cx> {
    Triple { c0: cx_f(re, im), c1: cx_f(re, im), c2: cx_f(re, im) }
}

fn layer(name: &str, re: f64, im: f64, d: f64) -> Layer {
    Layer { name: name.chars().collect(), n_col: uniform(re, im), d: fx_f(d) }
}

fn lambdas(l: f64) -> Triple<Fx> {
    Triple { c0: fx_f(l), c1: fx_f(l), c2: fx_f(l) }
}

fn stack(layers: Vec<Layer>, l: f64) -> Structure {
    Structure::from(layers).set_lambda(lambdas(l))
}

/// The factor `exp(-j * delta)` for one phase triple, computed in floating
/// point from the fixed-point phases the library reports.
fn exp_of(delta: &Triple<Cx>) -> Triple<Cx> {
    let one = |c: &Cx| {
        let a = fx_to_f64(&c.re);
        let b = fx_to_f64(&c.im);
        let scale = b.exp();
        Cx { re: fx_f(scale * a.cos()), im: fx_f(-(scale * a.sin())) }
    };
    Triple { c0: one(&delta.c0), c1: one(&delta.c1), c2: one(&delta.c2) }
}

fn exps_for(st: &Structure, depth: f64) -> Vec<Triple<Cx>> {
    st.phases(fx_f(depth)).unwrap().iter().map(exp_of).collect()
}

fn intensity_at(st: &Structure, depth: f64) -> Triple<Fx> {
    let exps = exps_for(st, depth);
    st.intensity(fx_f(depth), &exps).unwrap()
}

#[test]
fn single_boundary_fresnel_coefficient() {
    // n0 = 1, n1 = 1.5: r = (1.5 - 1.0) / (1.5 + 1.0) = 0.2 exactly.
    let st = stack(vec![layer("air", 1.0, 0.0, 100.0), layer("glass", 1.5, 0.0, 100.0)], 500.0);
    let r = st.refrac(0, 1).unwrap();
    assert_eq!(r.c0.re, fxu(200_000_000_000));
    assert_eq!(r.c0.im, fxu(0));
    assert_eq!(r.c1.re, fxu(200_000_000_000));
    assert_eq!(r.c2.re, fxu(200_000_000_000));
}

#[test]
fn single_boundary_intensity() {
    // |0.2|^2 = 0.04 exactly in fixed point.
    let st = stack(vec![layer("air", 1.0, 0.0, 100.0), layer("glass", 1.5, 0.0, 100.0)], 500.0);
    let v = intensity_at(&st, 0.0);
    assert_eq!(v.c0, fxu(40_000_000_000));
    assert_eq!(v.c1, fxu(40_000_000_000));
    assert_eq!(v.c2, fxu(40_000_000_000));
}

#[test]
fn surface_intensity_is_first_boundary() {
    // Depth zero on a deeper stack still sees only the first boundary.
    let st = stack(
        vec![
            layer("air", 1.0, 0.0, 10.0),
            layer("glass", 1.5, 0.0, 100.0),
            layer("oxide", 2.0, 0.0, 50.0),
        ],
        500.0,
    );
    let v = intensity_at(&st, 0.0);
    assert_eq!(v.c0, fxu(40_000_000_000));
}

#[test]
fn two_layer_stack_depth_independent() {
    // No interior boundary: any depth gives the bare Fresnel intensity.
    let st = stack(vec![layer("air", 1.0, 0.0, 100.0), layer("glass", 1.5, 0.0, 100.0)], 500.0);
    let a = intensity_at(&st, 30.0);
    let b = intensity_at(&st, 70.0);
    let c = intensity_at(&st, 150.0);
    assert_eq!(a.c0, fxu(40_000_000_000));
    assert_eq!(b.c0, fxu(40_000_000_000));
    assert_eq!(c.c0, fxu(40_000_000_000));
}

#[test]
fn intensity_nonnegative_with_absorbing_layers() {
    let st = stack(
        vec![
            layer("air", 1.0, 0.0, 0.0),
            layer("metal", 0.5, 2.3, 40.0),
            layer("base", 1.4, 0.1, 1000.0),
        ],
        650.0,
    );
    for d in [0.0, 10.0, 25.0, 40.0, 200.0] {
        let v = intensity_at(&st, d);
        assert!(!v.c0.neg && !v.c1.neg && !v.c2.neg);
    }
}

#[test]
fn three_layer_mid_depth_matches_manual_recursion() {
    // Incident medium of zero thickness, a 100 nm film of n = 1.5, a thick
    // substrate of n = 1; wavelength 500 on all channels; query depth 50.
    let st = stack(
        vec![
            layer("air", 1.0, 0.0, 0.0),
            layer("film", 1.5, 0.0, 100.0),
            layer("sub", 1.0, 0.0, 100000.0),
        ],
        500.0,
    );
    let v = intensity_at(&st, 50.0);
    // Manual evaluation of the same recursion in floating point:
    // eff = r01 = 0.2, next = r12 = -0.2.
    // Pair 0 (air, crossed 0): e = 1, eff = (-0.2 + 0.2) / (1 - 0.04) = 0.
    // Pair 1 (film, crossed 50): eff = (next + 0) / (1 + 0) = -0.2.
    // Intensity = 0.04.
    let got = fx_to_f64(&v.c0);
    assert!((got - 0.04).abs() < 1e-9, "got {got}");
    assert_eq!(v.c0, fxu(40_000_000_000));
}

#[test]
fn clamped_depth_equals_max_depth() {
    let st = stack(
        vec![
            layer("air", 1.0, 0.0, 0.0),
            layer("film", 1.5, 0.0, 100.0),
            layer("oxide", 2.0, 0.0, 50.0),
        ],
        500.0,
    );
    let max = st.max_depth().unwrap();
    assert_eq!(max, fxu(150_000_000_000_000));
    let loc = st.locate(fx_f(500.0)).unwrap();
    assert!(loc.clamped);
    let at_max = st.locate(max).unwrap();
    assert!(!at_max.clamped);
    assert_eq!(loc.terminal, at_max.terminal);
    assert_eq!(loc.crossed, at_max.crossed);
    assert_eq!(st.phases(fx_f(500.0)).unwrap(), st.phases(max).unwrap());
    let a = intensity_at(&st, 500.0);
    let b = intensity_at(&st, 150.0);
    assert_eq!(a, b);
}

#[test]
fn locate_walks_layers_in_order() {
    let st = stack(
        vec![
            layer("a", 1.0, 0.0, 10.0),
            layer("b", 1.5, 0.0, 20.0),
            layer("c", 2.0, 0.0, 30.0),
        ],
        500.0,
    );
    // Depth 25 ends 15 into layer b.
    let loc = st.locate(fx_f(25.0)).unwrap();
    assert!(!loc.clamped);
    assert_eq!(loc.terminal, 1);
    assert_eq!(loc.crossed, vec![fx_f(10.0), fx_f(15.0)]);
    // A depth exactly on the first boundary belongs to the shallower layer.
    let at_boundary = st.locate(fx_f(10.0)).unwrap();
    assert_eq!(at_boundary.terminal, 0);
    assert_eq!(at_boundary.crossed, vec![fx_f(10.0)]);
    // Depth zero ends at the top of the first layer.
    let at_top = st.locate(fx_f(0.0)).unwrap();
    assert_eq!(at_top.terminal, 0);
    assert_eq!(at_top.crossed, vec![fx_f(0.0)]);
}

#[test]
fn phase_of_crossed_thickness_is_exact() {
    // ((4 pi * 1.5) * 50) / 500 with truncation at every step.
    let l = layer("film", 1.5, 0.0, 100.0);
    let d = l.delta_d(lambdas(500.0), fx_f(50.0)).unwrap();
    assert_eq!(d.c0.re, fxu(1_884_955_592_153));
    assert_eq!(d.c0.im, fxu(0));
    // The full-thickness variant divides by the wavelength first.
    let f = l.delta(lambdas(500.0)).unwrap();
    assert!(!f.c0.re.neg);
}

#[test]
fn too_few_layers_is_rejected() {
    let st = stack(vec![layer("only", 1.5, 0.0, 100.0)], 500.0);
    let exps = vec![uniform(1.0, 0.0)];
    assert_eq!(st.reie(fx_f(0.0), &exps), Err(StackError::TooFewLayers));
    assert_eq!(st.intensity(fx_f(0.0), &exps), Err(StackError::TooFewLayers));
    let empty = stack(vec![], 500.0);
    assert_eq!(empty.locate(fx_f(0.0)), Err(StackError::TooFewLayers));
}

#[test]
fn degenerate_boundary_is_rejected() {
    // n0 + n1 = 0 on every channel.
    let st = stack(vec![layer("a", 1.0, 0.0, 100.0), layer("b", -1.0, 0.0, 100.0)], 500.0);
    let exps = vec![uniform(1.0, 0.0)];
    assert_eq!(st.intensity(fx_f(0.0), &exps), Err(StackError::DegenerateBoundary));
}

#[test]
fn singular_combination_is_rejected() {
    // r01 = -1 and r12 = 1 make the combination denominator vanish.
    let st = stack(
        vec![
            layer("a", 1.0, 0.0, 0.0),
            layer("b", 0.0, 0.0, 100.0),
            layer("c", 1.0, 0.0, 100.0),
        ],
        500.0,
    );
    let exps = exps_for(&st, 50.0);
    assert_eq!(st.intensity(fx_f(50.0), &exps), Err(StackError::Singular));
}

#[test]
fn thickness_sum_overflow_is_rejected() {
    let huge = Fx { neg: false, mag: u128::MAX };
    let mut a = layer("a", 1.0, 0.0, 0.0);
    a.d = huge;
    let mut b = layer("b", 1.5, 0.0, 0.0);
    b.d = huge;
    let st = stack(vec![a, b], 500.0);
    assert_eq!(st.locate(fx_f(0.0)), Err(StackError::Overflow));
    assert_eq!(st.max_depth(), Err(StackError::Overflow));
}

#[test]
fn builders_keep_other_fields() {
    let l = layer("before", 1.5, 0.0, 100.0)
        .set_name("after".chars().collect())
        .set_d(fx_f(25.0));
    assert_eq!(l.name, "after".chars().collect::<Vec<char>>());
    assert_eq!(l.d, fx_f(25.0));
    assert_eq!(l.n_col.c0.re, fx_f(1.5));
    let st = Structure::new();
    assert_eq!(st.layers.len(), 0);
    let st2 = st.set_lambda(lambdas(650.0));
    assert_eq!(st2.lambda.c0, fx_f(650.0));
}
