use thinfilm::cx::{cx_add, cx_div, cx_mul, cx_norm2, Cx, DivErr};
use thinfilm::fx::{fx_add, fx_div, fx_le, fx_mul, fx_neg, fx_sub, Fx, SCALE};

fn fxu(mag: u128) -> Fx {
    Fx { neg: false, mag }
}

fn fxn(mag: u128) -> Fx {
    Fx { neg: true, mag }
}

#[test]
fn addition_is_exact_and_checked() {
    assert_eq!(fx_add(fxu(SCALE), fxu(2 * SCALE)), Some(fxu(3 * SCALE)));
    assert_eq!(fx_add(fxu(SCALE), fxn(3 * SCALE)), Some(fxn(2 * SCALE)));
    // A difference that lands on zero carries no sign.
    assert_eq!(fx_add(fxu(5), fxn(5)), Some(fxu(0)));
    assert_eq!(fx_sub(fxu(5), fxu(5)), Some(fxu(0)));
    assert_eq!(fx_add(fxu(u128::MAX), fxu(1)), None);
    assert_eq!(fx_neg(fxu(0)), fxu(0));
}

#[test]
fn multiplication_truncates_toward_zero() {
    // 0.5 * 0.5 = 0.25 exactly.
    assert_eq!(
        fx_mul(fxu(500_000_000_000), fxu(500_000_000_000)),
        Some(fxu(250_000_000_000))
    );
    // 5e-7 squared is 2.5e-13, below one unit: truncates to zero.
    assert_eq!(fx_mul(fxu(500_000), fxu(500_000)), Some(fxu(0)));
    // The sign truncates toward zero, not toward minus infinity.
    assert_eq!(fx_mul(fxn(500_000), fxu(500_000)), Some(fxu(0)));
    assert_eq!(fx_mul(fxn(SCALE), fxu(SCALE)), Some(fxn(SCALE)));
    assert_eq!(fx_mul(fxu(u128::MAX), fxu(u128::MAX)), None);
}

#[test]
fn division_truncates_toward_zero() {
    // 1 / 3 = 0.333333333333 at the fixed scale.
    assert_eq!(fx_div(fxu(SCALE), fxu(3 * SCALE)), Some(fxu(333_333_333_333)));
    assert_eq!(fx_div(fxn(SCALE), fxu(3 * SCALE)), Some(fxn(333_333_333_333)));
    // The scaled dividend can overflow.
    assert_eq!(fx_div(fxu(u128::MAX), fxu(SCALE)), None);
}

#[test]
fn ordering() {
    assert!(fx_le(fxn(5), fxu(3)));
    assert!(fx_le(fxu(3), fxu(3)));
    assert!(!fx_le(fxu(4), fxu(3)));
    assert!(fx_le(fxn(3), fxn(2)));
    assert!(!fx_le(fxn(2), fxn(3)));
}

#[test]
fn complex_products_and_norms() {
    let i = Cx { re: fxu(0), im: fxu(SCALE) };
    // i * i = -1.
    assert_eq!(
        cx_mul(i, i),
        Some(Cx { re: fxn(SCALE), im: fxu(0) })
    );
    // |3 + 4i|^2 = 25.
    let c = Cx { re: fxu(3 * SCALE), im: fxu(4 * SCALE) };
    assert_eq!(cx_norm2(c), Some(fxu(25 * SCALE)));
    // (1 + i) + (1 - i) = 2.
    let a = Cx { re: fxu(SCALE), im: fxu(SCALE) };
    let b = Cx { re: fxu(SCALE), im: fxn(SCALE) };
    assert_eq!(cx_add(a, b), Some(Cx { re: fxu(2 * SCALE), im: fxu(0) }));
}

#[test]
fn complex_division() {
    // (1 + i) / i = 1 - i.
    let a = Cx { re: fxu(SCALE), im: fxu(SCALE) };
    let i = Cx { re: fxu(0), im: fxu(SCALE) };
    assert_eq!(cx_div(a, i), Ok(Cx { re: fxu(SCALE), im: fxn(SCALE) }));
    // Division by zero is its own error.
    let z = Cx { re: fxu(0), im: fxu(0) };
    assert_eq!(cx_div(a, z), Err(DivErr::Zero));
    // A denominator so small that its squared norm truncates to zero is
    // reported the same way.
    let tiny = Cx { re: fxu(500_000), im: fxu(0) };
    assert_eq!(cx_div(a, tiny), Err(DivErr::Zero));
}
