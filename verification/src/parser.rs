//! The configuration grammar: variable assignments (`name : number`) and
//! layer records (`name [ {(re,im),(re,im),(re,im)}, thickness ]`), one per
//! line, with `#` comment lines.
//!
//! Every parsing function consumes characters from a given position and is
//! pinned to a specification-level rerun of the same scan, so both the
//! consumed span and the produced value are fully determined.  Numbers are
//! decimal with an optional sign, fraction and exponent, read exactly into
//! fixed-point with truncation toward zero; a number whose intermediate
//! magnitudes leave the representable range is rejected.

use vstd::prelude::*;
use crate::fx::{Fx, fx_new, SCALE};
use crate::cx::Cx;
use crate::layer::{Layer, Triple};
use crate::structure::Structure;

verus! {

/// Whether a character is alphanumeric under the full Unicode definition.
pub uninterp spec fn unicode_alphanumeric(c: char) -> bool;

/// Relies on char::is_alphanumeric: whether the character is Unicode
/// alphabetic or numeric, a function of the character alone; on ASCII it
/// holds exactly of digits and letters.
#[verifier::external_body]
fn char_is_alphanumeric(c: char) -> (r: bool)
    ensures
        r == unicode_alphanumeric(c),
        (c as u32) < 128 ==> r == ((48 <= c as u32 && c as u32 <= 57) || (97 <= c as u32 && c
            as u32 <= 122) || (65 <= c as u32 && c as u32 <= 90)),
{
    c.is_alphanumeric()
}

/// An identifier character: alphanumeric or an underscore.
pub open spec fn spec_is_id_char(c: char) -> bool {
    unicode_alphanumeric(c) || c == '_'
}

/// Whether `c` may appear in an identifier.
pub fn is_id_char(c: char) -> (r: bool)
    ensures
        r == spec_is_id_char(c),
{
    char_is_alphanumeric(c) || c == '_'
}

/// A white-space character (space, tab, carriage return or newline).
pub open spec fn is_space(c: char) -> bool {
    c == ' ' || c == '\t' || c == '\r' || c == '\n'
}

/// An ASCII decimal digit.
pub open spec fn is_digit(c: char) -> bool {
    48 <= c as u32 && c as u32 <= 57
}

/// The numeric value of a digit character.
pub open spec fn digit_val(c: char) -> int {
    c as u32 - 48
}

/// The position of the first non-space character at or after `i`.
pub open spec fn s_skip_ws(s: Seq<char>, i: int) -> int
    decreases s.len() - i,
{
    if i < 0 || i >= s.len() || !is_space(s[i]) {
        i
    } else {
        s_skip_ws(s, i + 1)
    }
}

/// The position of the first non-digit character at or after `i`.
pub open spec fn s_scan_digits(s: Seq<char>, i: int) -> int
    decreases s.len() - i,
{
    if i < 0 || i >= s.len() || !is_digit(s[i]) {
        i
    } else {
        s_scan_digits(s, i + 1)
    }
}

/// The position of the first non-identifier character at or after `i`.
pub open spec fn s_scan_id(s: Seq<char>, i: int) -> int
    decreases s.len() - i,
{
    if i < 0 || i >= s.len() || !spec_is_id_char(s[i]) {
        i
    } else {
        s_scan_id(s, i + 1)
    }
}

/// The digits of `s[i..j)` accumulated onto `acc` in base ten, `None` where
/// the accumulator leaves the representable range.
pub open spec fn s_digits_val(s: Seq<char>, i: int, j: int, acc: int) -> Option<int>
    decreases j - i,
{
    if i >= j {
        Some(acc)
    } else {
        let a2 = acc * 10 + digit_val(s[i]);
        if a2 > u128::MAX as int {
            None
        } else {
            s_digits_val(s, i + 1, j, a2)
        }
    }
}

/// The digits of `s[i..j)` accumulated onto `acc` in base ten, saturated at
/// 1000: an exponent this large always overflows or underflows the
/// representable range, so the cap loses nothing.
pub open spec fn s_exp_val(s: Seq<char>, i: int, j: int, acc: int) -> int
    decreases j - i,
{
    if i >= j {
        acc
    } else {
        let a2 = if acc * 10 + digit_val(s[i]) > 1000 {
            1000
        } else {
            acc * 10 + digit_val(s[i])
        };
        s_exp_val(s, i + 1, j, a2)
    }
}

/// Ten to the `k`-th power.
pub open spec fn s_pow10(k: int) -> int
    decreases k,
{
    if k <= 0 {
        1
    } else {
        10 * s_pow10(k - 1)
    }
}

/// The fixed-point value of the decimal `mant * 10^e`, with sign `neg`,
/// truncated toward zero; `None` where an intermediate magnitude leaves the
/// representable range.
pub open spec fn dec_value(neg: bool, mant: int, e: int) -> Option<int> {
    if mant == 0 {
        Some(0)
    } else if e >= 0 {
        if e > 38 {
            // Ten to any power this large exceeds the representable range.
            None
        } else if s_pow10(e) > u128::MAX as int {
            None
        } else if mant * s_pow10(e) > u128::MAX as int {
            None
        } else if mant * s_pow10(e) * (SCALE as int) > u128::MAX as int {
            None
        } else {
            Some(
                if neg {
                    -(mant * s_pow10(e) * (SCALE as int))
                } else {
                    mant * s_pow10(e) * (SCALE as int)
                },
            )
        }
    } else {
        if mant * (SCALE as int) > u128::MAX as int {
            None
        } else if -e > 38 {
            Some(0)
        } else if s_pow10(-e) > u128::MAX as int {
            None
        } else {
            Some(
                if neg {
                    -((mant * (SCALE as int)) / s_pow10(-e))
                } else {
                    (mant * (SCALE as int)) / s_pow10(-e)
                },
            )
        }
    }
}

/// Skip white space.
pub fn skip_ws(s: &Vec<char>, i: usize) -> (r: usize)
    requires
        i <= s@.len(),
    ensures
        r == s_skip_ws(s@, i as int),
        i <= r <= s@.len(),
{
    let n = s.len();
    let mut j = i;
    while j < n && (s[j] == ' ' || s[j] == '\t' || s[j] == '\r' || s[j] == '\n')
        invariant
            i <= j <= n,
            n == s@.len(),
            s_skip_ws(s@, i as int) == s_skip_ws(s@, j as int),
        decreases n - j,
    {
        j = j + 1;
    }
    j
}

/// Scan a run of digits.
pub fn scan_digits(s: &Vec<char>, i: usize) -> (r: usize)
    requires
        i <= s@.len(),
    ensures
        r == s_scan_digits(s@, i as int),
        i <= r <= s@.len(),
{
    let n = s.len();
    let mut j = i;
    while j < n && 48 <= s[j] as u32 && s[j] as u32 <= 57
        invariant
            i <= j <= n,
            n == s@.len(),
            s_scan_digits(s@, i as int) == s_scan_digits(s@, j as int),
        decreases n - j,
    {
        j = j + 1;
    }
    j
}

/// Scan a run of identifier characters.
pub fn scan_id(s: &Vec<char>, i: usize) -> (r: usize)
    requires
        i <= s@.len(),
    ensures
        r == s_scan_id(s@, i as int),
        i <= r <= s@.len(),
{
    let n = s.len();
    let mut j = i;
    loop
        invariant
            i <= j <= n,
            n == s@.len(),
            s_scan_id(s@, i as int) == s_scan_id(s@, j as int),
        decreases n - j,
    {
        if j < n && is_id_char(s[j]) {
            j = j + 1;
        } else {
            return j;
        }
    }
}

/// Copy the characters of `s[i..j)`.
pub fn copy_range(s: &Vec<char>, i: usize, j: usize) -> (r: Vec<char>)
    requires
        i <= j <= s@.len(),
    ensures
        r@ == s@.subrange(i as int, j as int),
{
    let mut r: Vec<char> = Vec::new();
    let mut k = i;
    while k < j
        invariant
            i <= k <= j <= s@.len(),
            r@ == s@.subrange(i as int, k as int),
        decreases j - k,
    {
        let ghost old_r = r@;
        r.push(s[k]);
        proof {
            assert(old_r.push(s@[k as int]) =~= s@.subrange(i as int, k as int + 1));
        }
        k = k + 1;
    }
    r
}

/// Accumulate the digits of `s[i..j)` onto `acc`.
fn digits_val(s: &Vec<char>, i: usize, j: usize, acc: u128) -> (r: Option<u128>)
    requires
        i <= j <= s@.len(),
        forall|k: int| i <= k < j ==> is_digit(#[trigger] s@[k]),
    ensures
        (match r {
            Some(m) => s_digits_val(s@, i as int, j as int, acc as int) == Some(m as int),
            None => s_digits_val(s@, i as int, j as int, acc as int).is_none(),
        }),
{
    let mut m = acc;
    let mut k = i;
    while k < j
        invariant
            i <= k <= j <= s@.len(),
            forall|q: int| i <= q < j ==> is_digit(#[trigger] s@[q]),
            s_digits_val(s@, i as int, j as int, acc as int) == s_digits_val(
                s@,
                k as int,
                j as int,
                m as int,
            ),
        decreases j - k,
    {
        let d: u128 = (s[k] as u32 - 48) as u128;
        m = match m.checked_mul(10) {
            Some(x) => match x.checked_add(d) {
                Some(y) => y,
                None => {
                    return None;
                },
            },
            None => {
                proof {
                    assert(m as int * 10 + digit_val(s@[k as int]) > u128::MAX as int);
                }
                return None;
            },
        };
        k = k + 1;
    }
    Some(m)
}

/// Accumulate the digits of `s[i..j)` onto `acc`, saturated at 1000.
fn exp_val(s: &Vec<char>, i: usize, j: usize, acc: u32) -> (r: u32)
    requires
        i <= j <= s@.len(),
        acc <= 1000,
        forall|k: int| i <= k < j ==> is_digit(#[trigger] s@[k]),
    ensures
        r == s_exp_val(s@, i as int, j as int, acc as int),
        r <= 1000,
{
    let mut m = acc;
    let mut k = i;
    while k < j
        invariant
            i <= k <= j <= s@.len(),
            m <= 1000,
            forall|q: int| i <= q < j ==> is_digit(#[trigger] s@[q]),
            s_exp_val(s@, i as int, j as int, acc as int) == s_exp_val(
                s@,
                k as int,
                j as int,
                m as int,
            ),
        decreases j - k,
    {
        let d: u32 = s[k] as u32 - 48;
        m = if m * 10 + d > 1000 {
            1000
        } else {
            m * 10 + d
        };
        k = k + 1;
    }
    m
}

/// Ten to the `k`-th power, `None` where it leaves the representable range.
fn pow10(k: u32) -> (r: Option<u128>)
    ensures
        (match r {
            Some(p) => p as int == s_pow10(k as int),
            None => s_pow10(k as int) > u128::MAX as int,
        }),
{
    let mut p: u128 = 1;
    let mut i: u32 = 0;
    while i < k
        invariant
            i <= k,
            p as int == s_pow10(i as int),
        decreases k - i,
    {
        p = match p.checked_mul(10) {
            Some(x) => x,
            None => {
                proof {
                    lemma_pow10_mono(i as int + 1, k as int);
                }
                return None;
            },
        };
        i = i + 1;
    }
    Some(p)
}

proof fn lemma_pow10_mono(a: int, b: int)
    requires
        0 <= a <= b,
    ensures
        s_pow10(a) <= s_pow10(b),
        s_pow10(a) >= 1,
    decreases b - a,
{
    if a < b {
        lemma_pow10_mono(a, b - 1);
    } else {
        lemma_pow10_pos(a);
    }
}

proof fn lemma_pow10_pos(a: int)
    ensures
        s_pow10(a) >= 1,
    decreases (if a > 0 {
        a
    } else {
        0
    }),
{
    if a > 0 {
        lemma_pow10_pos(a - 1);
    }
}

/// The fixed-point number for `mant * 10^e` with sign `neg`, where the net
/// exponent `e` is given as a magnitude `k` and a sign `eneg`.
fn dec_to_fx(neg: bool, mant: u128, eneg: bool, k: usize) -> (r: Option<Fx>)
    ensures
        (match r {
            Some(f) => dec_value(
                neg,
                mant as int,
                if eneg {
                    -(k as int)
                } else {
                    k as int
                },
            ) == Some(f.v()) && f.wf(),
            None => dec_value(
                neg,
                mant as int,
                if eneg {
                    -(k as int)
                } else {
                    k as int
                },
            ).is_none(),
        }),
{
    if mant == 0 {
        return Some(fx_new(false, 0));
    }
    if !eneg || k == 0 {
        // Non-negative net exponent.
        if k > 38 {
            return None;
        }
        let p = match pow10(k as u32) {
            Some(x) => x,
            None => {
                return None;
            },
        };
        let m1 = match mant.checked_mul(p) {
            Some(x) => x,
            None => {
                return None;
            },
        };
        let m2 = match m1.checked_mul(SCALE) {
            Some(x) => x,
            None => {
                return None;
            },
        };
        Some(fx_new(neg, m2))
    } else {
        // Negative net exponent: divide the scaled mantissa.
        let m1 = match mant.checked_mul(SCALE) {
            Some(x) => x,
            None => {
                return None;
            },
        };
        if k > 38 {
            return Some(fx_new(neg, 0));
        }
        let p = match pow10(k as u32) {
            Some(x) => x,
            None => {
                return None;
            },
        };
        proof {
            lemma_pow10_pos(k as int);
        }
        Some(fx_new(neg, m1 / p))
    }
}

proof fn lemma_scan_digits_chars(s: Seq<char>, i: int)
    ensures
        forall|k: int| i <= k < s_scan_digits(s, i) ==> is_digit(#[trigger] s[k]),
    decreases s.len() - i,
{
    if 0 <= i && i < s.len() && is_digit(s[i]) {
        lemma_scan_digits_chars(s, i + 1);
    }
}

/// A decimal number: an optional sign, digits with an optional fraction
/// (at least one digit on one side of the dot), and an
/// optional exponent whose digits, if absent, leave the `e` unconsumed.
/// The result is the new position and the fixed-point value; a grammar
/// mismatch or an unrepresentable value leaves the position unchanged.
pub open spec fn s_parse_number(s: Seq<char>, i: int) -> (int, Option<int>) {
    let neg = 0 <= i < s.len() && s[i] == '-';
    let js = if 0 <= i < s.len() && (s[i] == '-' || s[i] == '+') {
        i + 1
    } else {
        i
    };
    let j1 = s_scan_digits(s, js);
    let has_dot = j1 < s.len() && s[j1] == '.';
    let fs = if has_dot {
        j1 + 1
    } else {
        j1
    };
    let j2 = if has_dot {
        s_scan_digits(s, fs)
    } else {
        j1
    };
    if j1 == js && j2 == fs {
        (i, None)
    } else {
        match s_digits_val(s, js, j1, 0) {
            None => (i, None),
            Some(m1) => match (if has_dot {
                s_digits_val(s, fs, j2, m1)
            } else {
                Some(m1)
            }) {
                None => (i, None),
                Some(mant) => {
                    let fraclen = j2 - fs;
                    let has_e = j2 < s.len() && (s[j2] == 'e' || s[j2] == 'E');
                    let eneg = has_e && j2 + 1 < s.len() && s[j2 + 1] == '-';
                    let es = if !has_e {
                        j2
                    } else if j2 + 1 < s.len() && (s[j2 + 1] == '-' || s[j2 + 1] == '+') {
                        j2 + 2
                    } else {
                        j2 + 1
                    };
                    let j4 = if has_e {
                        s_scan_digits(s, es)
                    } else {
                        j2
                    };
                    let exp_used = has_e && j4 > es;
                    let j3 = if exp_used {
                        j4
                    } else {
                        j2
                    };
                    let emag = if exp_used {
                        s_exp_val(s, es, j4, 0)
                    } else {
                        0
                    };
                    let enet = (if exp_used && eneg {
                        -emag
                    } else {
                        emag
                    }) - fraclen;
                    match dec_value(neg, mant, enet) {
                        None => (i, None),
                        Some(v) => (j3, Some(v)),
                    }
                },
            },
        }
    }
}

/// Read a number; see `s_parse_number`.
#[verifier::rlimit(100)]
pub fn parse_number(s: &Vec<char>, i: usize) -> (r: (usize, Option<Fx>))
    requires
        i <= s@.len(),
    ensures
        r.0 as int == s_parse_number(s@, i as int).0,
        (match (r.1, s_parse_number(s@, i as int).1) {
            (Some(f), Some(v)) => f.v() == v && f.wf(),
            (None, None) => true,
            _ => false,
        }),
        i <= r.0 <= s@.len(),
{
    let n = s.len();
    let neg = i < n && s[i] == '-';
    let js = if i < n && (s[i] == '-' || s[i] == '+') {
        i + 1
    } else {
        i
    };
    let j1 = scan_digits(s, js);
    let has_dot = j1 < n && s[j1] == '.';
    let fs = if has_dot {
        j1 + 1
    } else {
        j1
    };
    let j2 = if has_dot {
        scan_digits(s, fs)
    } else {
        j1
    };
    if j1 == js && j2 == fs {
        return (i, None);
    }
    proof {
        lemma_scan_digits_chars(s@, js as int);
        lemma_scan_digits_chars(s@, fs as int);
    }
    let m1 = match digits_val(s, js, j1, 0) {
        Some(x) => x,
        None => {
            return (i, None);
        },
    };
    let mant = if has_dot {
        match digits_val(s, fs, j2, m1) {
            Some(x) => x,
            None => {
                return (i, None);
            },
        }
    } else {
        m1
    };
    let fraclen = j2 - fs;
    let has_e = j2 < n && (s[j2] == 'e' || s[j2] == 'E');
    let eneg = has_e && j2 + 1 < n && s[j2 + 1] == '-';
    let es = if !has_e {
        j2
    } else if j2 + 1 < n && (s[j2 + 1] == '-' || s[j2 + 1] == '+') {
        j2 + 2
    } else {
        j2 + 1
    };
    let j4 = if has_e {
        scan_digits(s, es)
    } else {
        j2
    };
    let exp_used = has_e && j4 > es;
    let j3 = if exp_used {
        j4
    } else {
        j2
    };
    let emag: u32 = if exp_used {
        proof {
            lemma_scan_digits_chars(s@, es as int);
        }
        exp_val(s, es, j4, 0)
    } else {
        0
    };
    let e_is_neg = exp_used && eneg;
    // Net exponent: the explicit exponent minus the number of fraction
    // digits, as a sign and a magnitude.
    let k: usize = if !e_is_neg {
        if emag as usize >= fraclen {
            emag as usize - fraclen
        } else {
            fraclen - emag as usize
        }
    } else {
        if fraclen > usize::MAX - 1000 {
            // The magnitude is far past any representable scale; the exact
            // count no longer matters, any value above the cutoff acts the
            // same.
            fraclen
        } else {
            emag as usize + fraclen
        }
    };
    let kneg: bool = if !e_is_neg {
        (emag as usize) < fraclen
    } else {
        true
    };
    proof {
        let enet = (if e_is_neg {
            -(emag as int)
        } else {
            emag as int
        }) - fraclen;
        assert((if kneg {
            -(k as int)
        } else {
            k as int
        }) == enet || (kneg && k > 38 && enet < -38));
    }
    match dec_to_fx(neg, mant, kneg, k) {
        Some(f) => (j3, Some(f)),
        None => (i, None),
    }
}

/// Read an identifier: the (possibly empty) maximal run of identifier
/// characters.
pub fn parse_ident(s: &Vec<char>, i: usize) -> (r: (usize, Vec<char>))
    requires
        i <= s@.len(),
    ensures
        r.0 as int == s_scan_id(s@, i as int),
        r.1@ == s@.subrange(i as int, s_scan_id(s@, i as int)),
        i <= r.0 <= s@.len(),
{
    let j = scan_id(s, i);
    let name = copy_range(s, i, j);
    (j, name)
}

/// A complex number: `( re , im )` with white space allowed around the
/// components.  A mismatch leaves the position unchanged.
pub open spec fn s_parse_complex(s: Seq<char>, i: int) -> (int, Option<(int, int)>) {
    if !(0 <= i < s.len() && s[i] == '(') {
        (i, None)
    } else {
        let a = s_skip_ws(s, i + 1);
        let p1 = s_parse_number(s, a);
        match p1.1 {
            None => (i, None),
            Some(re) => {
                let b = s_skip_ws(s, p1.0);
                if !(b < s.len() && s[b] == ',') {
                    (i, None)
                } else {
                    let c = s_skip_ws(s, b + 1);
                    let p2 = s_parse_number(s, c);
                    match p2.1 {
                        None => (i, None),
                        Some(im) => {
                            let d = s_skip_ws(s, p2.0);
                            if !(d < s.len() && s[d] == ')') {
                                (i, None)
                            } else {
                                (d + 1, Some((re, im)))
                            }
                        },
                    }
                }
            },
        }
    }
}

/// Read a complex number; see `s_parse_complex`.
pub fn parse_complex(s: &Vec<char>, i: usize) -> (r: (usize, Option<Cx>))
    requires
        i <= s@.len(),
    ensures
        r.0 as int == s_parse_complex(s@, i as int).0,
        (match (r.1, s_parse_complex(s@, i as int).1) {
            (Some(c), Some(v)) => c.v() == v && c.wf(),
            (None, None) => true,
            _ => false,
        }),
        i <= r.0 <= s@.len(),
{
    let n = s.len();
    if !(i < n && s[i] == '(') {
        return (i, None);
    }
    let a = skip_ws(s, i + 1);
    let (pa, re_opt) = parse_number(s, a);
    let re = match re_opt {
        Some(x) => x,
        None => {
            return (i, None);
        },
    };
    let b = skip_ws(s, pa);
    if !(b < n && s[b] == ',') {
        return (i, None);
    }
    let c = skip_ws(s, b + 1);
    let (pc, im_opt) = parse_number(s, c);
    let im = match im_opt {
        Some(x) => x,
        None => {
            return (i, None);
        },
    };
    let d = skip_ws(s, pc);
    if !(d < n && s[d] == ')') {
        return (i, None);
    }
    (d + 1, Some(Cx { re, im }))
}

/// A refractive-index triple: `{ complex , complex , complex }`.
pub open spec fn s_parse_n_col(s: Seq<char>, i: int) -> (int, Option<Triple<(int, int)>>) {
    if !(0 <= i < s.len() && s[i] == '{') {
        (i, None)
    } else {
        let a = s_skip_ws(s, i + 1);
        let p1 = s_parse_complex(s, a);
        match p1.1 {
            None => (i, None),
            Some(r) => {
                let b = s_skip_ws(s, p1.0);
                if !(b < s.len() && s[b] == ',') {
                    (i, None)
                } else {
                    let c = s_skip_ws(s, b + 1);
                    let p2 = s_parse_complex(s, c);
                    match p2.1 {
                        None => (i, None),
                        Some(g) => {
                            let d = s_skip_ws(s, p2.0);
                            if !(d < s.len() && s[d] == ',') {
                                (i, None)
                            } else {
                                let e = s_skip_ws(s, d + 1);
                                let p3 = s_parse_complex(s, e);
                                match p3.1 {
                                    None => (i, None),
                                    Some(bl) => {
                                        let f = s_skip_ws(s, p3.0);
                                        if !(f < s.len() && s[f] == '}') {
                                            (i, None)
                                        } else {
                                            (f + 1, Some(Triple { c0: r, c1: g, c2: bl }))
                                        }
                                    },
                                }
                            }
                        },
                    }
                }
            },
        }
    }
}

/// Read a refractive-index triple; see `s_parse_n_col`.
pub fn parse_n_col(s: &Vec<char>, i: usize) -> (r: (usize, Option<Triple<Cx>>))
    requires
        i <= s@.len(),
    ensures
        r.0 as int == s_parse_n_col(s@, i as int).0,
        (match (r.1, s_parse_n_col(s@, i as int).1) {
            (Some(t), Some(v)) => Triple { c0: t.c0.v(), c1: t.c1.v(), c2: t.c2.v() } == v
                && t.c0.wf() && t.c1.wf() && t.c2.wf(),
            (None, None) => true,
            _ => false,
        }),
        i <= r.0 <= s@.len(),
{
    let n = s.len();
    if !(i < n && s[i] == '{') {
        return (i, None);
    }
    let a = skip_ws(s, i + 1);
    let (pa, r_opt) = parse_complex(s, a);
    let cr = match r_opt {
        Some(x) => x,
        None => {
            return (i, None);
        },
    };
    let b = skip_ws(s, pa);
    if !(b < n && s[b] == ',') {
        return (i, None);
    }
    let c = skip_ws(s, b + 1);
    let (pc, g_opt) = parse_complex(s, c);
    let cg = match g_opt {
        Some(x) => x,
        None => {
            return (i, None);
        },
    };
    let d = skip_ws(s, pc);
    if !(d < n && s[d] == ',') {
        return (i, None);
    }
    let e = skip_ws(s, d + 1);
    let (pe, b_opt) = parse_complex(s, e);
    let cb = match b_opt {
        Some(x) => x,
        None => {
            return (i, None);
        },
    };
    let f = skip_ws(s, pe);
    if !(f < n && s[f] == '}') {
        return (i, None);
    }
    (f + 1, Some(Triple { c0: cr, c1: cg, c2: cb }))
}

/// A variable assignment: `name : number`, with white space allowed, the
/// name possibly empty; what follows the number is not inspected.
pub open spec fn s_parse_var(s: Seq<char>, i: int) -> (int, Option<(Seq<char>, int)>) {
    let a = s_skip_ws(s, i);
    let j = s_scan_id(s, a);
    let b = s_skip_ws(s, j);
    if !(b < s.len() && s[b] == ':') {
        (i, None)
    } else {
        let c = s_skip_ws(s, b + 1);
        let p = s_parse_number(s, c);
        match p.1 {
            None => (i, None),
            Some(v) => (p.0, Some((s.subrange(a, j), v))),
        }
    }
}

/// Read a variable assignment; see `s_parse_var`.
pub fn parse_var(s: &Vec<char>, i: usize) -> (r: (usize, Option<(Vec<char>, Fx)>))
    requires
        i <= s@.len(),
    ensures
        r.0 as int == s_parse_var(s@, i as int).0,
        (match (r.1, s_parse_var(s@, i as int).1) {
            (Some(nv), Some(w)) => nv.0@ == w.0 && nv.1.v() == w.1 && nv.1.wf(),
            (None, None) => true,
            _ => false,
        }),
        i <= r.0 <= s@.len(),
{
    let n = s.len();
    let a = skip_ws(s, i);
    let (j, name) = parse_ident(s, a);
    let b = skip_ws(s, j);
    if !(b < n && s[b] == ':') {
        return (i, None);
    }
    let c = skip_ws(s, b + 1);
    let (p, v_opt) = parse_number(s, c);
    let v = match v_opt {
        Some(x) => x,
        None => {
            return (i, None);
        },
    };
    (p, Some((name, v)))
}

/// A layer record: `name [ n_col ,? thickness ]`, with white space allowed
/// and the comma after the triple optional.
pub open spec fn s_parse_layer(s: Seq<char>, i: int) -> (
    int,
    Option<(Seq<char>, Triple<(int, int)>, int)>,
) {
    let a = s_skip_ws(s, i);
    let j = s_scan_id(s, a);
    let b = s_skip_ws(s, j);
    if !(b < s.len() && s[b] == '[') {
        (i, None)
    } else {
        let c = s_skip_ws(s, b + 1);
        let p1 = s_parse_n_col(s, c);
        match p1.1 {
            None => (i, None),
            Some(ncol) => {
                let d = s_skip_ws(s, p1.0);
                let e = if d < s.len() && s[d] == ',' {
                    d + 1
                } else {
                    d
                };
                let f = s_skip_ws(s, e);
                let p2 = s_parse_number(s, f);
                match p2.1 {
                    None => (i, None),
                    Some(th) => {
                        let g = s_skip_ws(s, p2.0);
                        if !(g < s.len() && s[g] == ']') {
                            (i, None)
                        } else {
                            (g + 1, Some((s.subrange(a, j), ncol, th)))
                        }
                    },
                }
            },
        }
    }
}

/// Read a layer record; see `s_parse_layer`.
pub fn parse_layer(s: &Vec<char>, i: usize) -> (r: (usize, Option<Layer>))
    requires
        i <= s@.len(),
    ensures
        r.0 as int == s_parse_layer(s@, i as int).0,
        (match (r.1, s_parse_layer(s@, i as int).1) {
            (Some(l), Some(w)) => l.name@ == w.0 && Triple {
                c0: l.n_col.c0.v(),
                c1: l.n_col.c1.v(),
                c2: l.n_col.c2.v(),
            } == w.1 && l.d.v() == w.2 && l.wf(),
            (None, None) => true,
            _ => false,
        }),
        i <= r.0 <= s@.len(),
{
    let n = s.len();
    let a = skip_ws(s, i);
    let (j, name) = parse_ident(s, a);
    let b = skip_ws(s, j);
    if !(b < n && s[b] == '[') {
        return (i, None);
    }
    let c = skip_ws(s, b + 1);
    let (pc, ncol_opt) = parse_n_col(s, c);
    let ncol = match ncol_opt {
        Some(x) => x,
        None => {
            return (i, None);
        },
    };
    let d = skip_ws(s, pc);
    let e = if d < n && s[d] == ',' {
        d + 1
    } else {
        d
    };
    let f = skip_ws(s, e);
    let (pf, th_opt) = parse_number(s, f);
    let th = match th_opt {
        Some(x) => x,
        None => {
            return (i, None);
        },
    };
    let g = skip_ws(s, pf);
    if !(g < n && s[g] == ']') {
        return (i, None);
    }
    (g + 1, Some(Layer { name, n_col: ncol, d: th }))
}

/// A named scalar read from the configuration.
pub struct Var {
    pub name: Vec<char>,
    pub value: Fx,
}

/// A configuration without one of the required wavelengths.
#[derive(Clone, Copy, Debug, PartialEq, Eq, Structural)]
pub enum ParseError {
    MissingLambdaRed,
    MissingLambdaGreen,
    MissingLambdaBlue,
}

/// The position of the next newline at or after `i`, or the end.
pub open spec fn s_line_end(s: Seq<char>, i: int) -> int
    decreases s.len() - i,
{
    if i < 0 || i >= s.len() || s[i] == '\n' {
        i
    } else {
        s_line_end(s, i + 1)
    }
}

proof fn lemma_line_end_ge(s: Seq<char>, i: int)
    ensures
        s_line_end(s, i) >= i,
        s_line_end(s, i) <= (if i <= s.len() {
            s.len() as int
        } else {
            i
        }),
    decreases s.len() - i,
{
    if 0 <= i && i < s.len() && s[i] != '\n' {
        lemma_line_end_ge(s, i + 1);
    }
}

/// The values of a sequence of variables.
pub open spec fn varvals(s: Seq<Var>) -> Seq<(Seq<char>, int)> {
    s.map_values(|v: Var| (v.name@, v.value.v()))
}

/// The values of a sequence of layers.
pub open spec fn layervals(s: Seq<Layer>) -> Seq<(Seq<char>, Triple<(int, int)>, int)> {
    s.map_values(
        |l: Layer| (l.name@, Triple { c0: l.n_col.c0.v(), c1: l.n_col.c1.v(), c2: l.n_col.c2.v() },
            l.d.v()),
    )
}

/// All variables and all layer records of the lines from position `i` on:
/// a line whose first non-space character is missing (blank line) or is `#`
/// (comment) contributes nothing; any other line contributes whatever
/// variable and whatever layer record parse at its start.
pub open spec fn s_collect(s: Seq<char>, i: int) -> (
    Seq<(Seq<char>, int)>,
    Seq<(Seq<char>, Triple<(int, int)>, int)>,
)
    decreases s.len() - i,
    via s_collect_decreases
{
    if i < 0 || i >= s.len() {
        (Seq::empty(), Seq::empty())
    } else {
        let j = s_line_end(s, i);
        let line = s.subrange(i, j);
        let rest = s_collect(
            s,
            if j + 1 <= s.len() {
                j + 1
            } else {
                s.len() as int
            },
        );
        let f = s_skip_ws(line, 0);
        if f >= line.len() || line[f] == '#' {
            rest
        } else {
            let vs = match s_parse_var(line, 0).1 {
                Some(nv) => seq![nv] + rest.0,
                None => rest.0,
            };
            let ls = match s_parse_layer(line, 0).1 {
                Some(l) => seq![l] + rest.1,
                None => rest.1,
            };
            (vs, ls)
        }
    }
}

#[via_fn]
proof fn s_collect_decreases(s: Seq<char>, i: int) {
    lemma_line_end_ge(s, i);
}

/// The value of the last variable of the given name, where one exists: a
/// later assignment overrides an earlier one.
pub open spec fn s_lookup(vs: Seq<(Seq<char>, int)>, name: Seq<char>) -> Option<int>
    decreases vs.len(),
{
    if vs.len() == 0 {
        None
    } else if vs.last().0 == name {
        Some(vs.last().1)
    } else {
        s_lookup(vs.drop_last(), name)
    }
}

/// The name of the red-channel wavelength variable.
pub open spec fn name_lambda_red() -> Seq<char> {
    seq!['l', 'a', 'm', 'b', 'd', 'a', '_', 'r', 'e', 'd']
}

/// The name of the green-channel wavelength variable.
pub open spec fn name_lambda_green() -> Seq<char> {
    seq!['l', 'a', 'm', 'b', 'd', 'a', '_', 'g', 'r', 'e', 'e', 'n']
}

/// The name of the blue-channel wavelength variable.
pub open spec fn name_lambda_blue() -> Seq<char> {
    seq!['l', 'a', 'm', 'b', 'd', 'a', '_', 'b', 'l', 'u', 'e']
}

/// The whole configuration: every variable and layer record in order, and
/// the wavelength triple named by `lambda_red`, `lambda_green` and
/// `lambda_blue`; a missing wavelength is the error naming it.
pub open spec fn s_parse_file(s: Seq<char>) -> Result<
    (Seq<(Seq<char>, int)>, Seq<(Seq<char>, Triple<(int, int)>, int)>, (int, int, int)),
    ParseError,
> {
    let (vs, ls) = s_collect(s, 0);
    match s_lookup(vs, name_lambda_red()) {
        None => Err(ParseError::MissingLambdaRed),
        Some(r) => match s_lookup(vs, name_lambda_green()) {
            None => Err(ParseError::MissingLambdaGreen),
            Some(g) => match s_lookup(vs, name_lambda_blue()) {
                None => Err(ParseError::MissingLambdaBlue),
                Some(b) => Ok((vs, ls, (r, g, b))),
            },
        },
    }
}

/// Scan to the end of the current line.
fn scan_line(s: &Vec<char>, i: usize) -> (r: usize)
    requires
        i <= s@.len(),
    ensures
        r as int == s_line_end(s@, i as int),
        i <= r <= s@.len(),
{
    let n = s.len();
    let mut j = i;
    while j < n && s[j] != '\n'
        invariant
            i <= j <= n,
            n == s@.len(),
            s_line_end(s@, i as int) == s_line_end(s@, j as int),
        decreases n - j,
    {
        j = j + 1;
    }
    j
}

/// Character-wise equality of two character vectors.
pub fn chars_eq(a: &Vec<char>, b: &Vec<char>) -> (r: bool)
    ensures
        r == (a@ == b@),
{
    if a.len() != b.len() {
        return false;
    }
    let n = a.len();
    let mut i: usize = 0;
    while i < n
        invariant
            i <= n,
            n == a@.len() == b@.len(),
            forall|k: int| 0 <= k < i ==> a@[k] == b@[k],
        decreases n - i,
    {
        if a[i] != b[i] {
            return false;
        }
        i = i + 1;
    }
    proof {
        assert(a@ =~= b@);
    }
    true
}

/// The value of the last variable of the given name, if any.
pub fn lookup_var(vars: &Vec<Var>, name: &Vec<char>) -> (r: Option<Fx>)
    requires
        forall|k: int| 0 <= k < vars@.len() ==> (#[trigger] vars@[k]).value.wf(),
    ensures
        (match r {
            Some(f) => s_lookup(varvals(vars@), name@) == Some(f.v()) && f.wf(),
            None => s_lookup(varvals(vars@), name@).is_none(),
        }),
{
    let mut idx = vars.len();
    proof {
        assert(varvals(vars@).take(vars@.len() as int) =~= varvals(vars@));
    }
    while idx > 0
        invariant
            idx <= vars@.len(),
            forall|k: int| 0 <= k < vars@.len() ==> (#[trigger] vars@[k]).value.wf(),
            s_lookup(varvals(vars@), name@) == s_lookup(
                varvals(vars@).take(idx as int),
                name@,
            ),
        decreases idx,
    {
        idx = idx - 1;
        proof {
            assert(varvals(vars@).take(idx as int + 1).drop_last() =~= varvals(vars@).take(
                idx as int,
            ));
            assert(varvals(vars@).take(idx as int + 1).last() == (
                vars@[idx as int].name@,
                vars@[idx as int].value.v(),
            ));
        }
        if chars_eq(&vars[idx].name, name) {
            return Some(vars[idx].value);
        }
    }
    proof {
        assert(varvals(vars@).take(0) =~= Seq::<(Seq<char>, int)>::empty());
    }
    None
}

fn name_red() -> (r: Vec<char>)
    ensures
        r@ == name_lambda_red(),
{
    let mut v: Vec<char> = Vec::new();
    v.push('l');
    v.push('a');
    v.push('m');
    v.push('b');
    v.push('d');
    v.push('a');
    v.push('_');
    v.push('r');
    v.push('e');
    v.push('d');
    proof {
        assert(v@ =~= name_lambda_red());
    }
    v
}

fn name_green() -> (r: Vec<char>)
    ensures
        r@ == name_lambda_green(),
{
    let mut v: Vec<char> = Vec::new();
    v.push('l');
    v.push('a');
    v.push('m');
    v.push('b');
    v.push('d');
    v.push('a');
    v.push('_');
    v.push('g');
    v.push('r');
    v.push('e');
    v.push('e');
    v.push('n');
    proof {
        assert(v@ =~= name_lambda_green());
    }
    v
}

fn name_blue() -> (r: Vec<char>)
    ensures
        r@ == name_lambda_blue(),
{
    let mut v: Vec<char> = Vec::new();
    v.push('l');
    v.push('a');
    v.push('m');
    v.push('b');
    v.push('d');
    v.push('a');
    v.push('_');
    v.push('b');
    v.push('l');
    v.push('u');
    v.push('e');
    proof {
        assert(v@ =~= name_lambda_blue());
    }
    v
}

/// Read a whole configuration: the variables, and the stack built from the
/// layer records with the wavelength triple the variables name.
#[verifier::rlimit(100)]
pub fn parse_file(content: &Vec<char>) -> (r: Result<(Vec<Var>, Structure), ParseError>)
    ensures
        (match r {
            Ok(p) => s_parse_file(content@) == Result::<
                (Seq<(Seq<char>, int)>, Seq<(Seq<char>, Triple<(int, int)>, int)>, (int, int, int)),
                ParseError,
            >::Ok(
                (
                    varvals(p.0@),
                    layervals(p.1.layers@),
                    (p.1.lambda.c0.v(), p.1.lambda.c1.v(), p.1.lambda.c2.v()),
                ),
            ) && p.1.wf() && (forall|k: int|
                0 <= k < p.0@.len() ==> (#[trigger] p.0@[k]).value.wf()),
            Err(e) => s_parse_file(content@) == Result::<
                (Seq<(Seq<char>, int)>, Seq<(Seq<char>, Triple<(int, int)>, int)>, (int, int, int)),
                ParseError,
            >::Err(e),
        }),
{
    let n = content.len();
    let mut vars: Vec<Var> = Vec::new();
    let mut layers: Vec<Layer> = Vec::new();
    let mut pos: usize = 0;
    proof {
        assert(varvals(vars@) + s_collect(content@, 0).0 =~= s_collect(content@, 0).0);
        assert(layervals(layers@) + s_collect(content@, 0).1 =~= s_collect(content@, 0).1);
    }
    while pos < n
        invariant
            pos <= n,
            n == content@.len(),
            forall|k: int| 0 <= k < vars@.len() ==> (#[trigger] vars@[k]).value.wf(),
            forall|k: int| 0 <= k < layers@.len() ==> (#[trigger] layers@[k]).wf(),
            s_collect(content@, 0).0 == varvals(vars@) + s_collect(content@, pos as int).0,
            s_collect(content@, 0).1 == layervals(layers@) + s_collect(content@, pos as int).1,
        decreases n - pos,
    {
        let j = scan_line(content, pos);
        let line = copy_range(content, pos, j);
        let f = skip_ws(&line, 0);
        let skip = f >= line.len() || line[f] == '#';
        let ghost vars_before = vars@;
        let ghost layers_before = layers@;
        if !skip {
            let (_vp, var_opt) = parse_var(&line, 0);
            match var_opt {
                Some(nv) => {
                    vars.push(Var { name: nv.0, value: nv.1 });
                },
                None => {},
            }
            let (_lp, layer_opt) = parse_layer(&line, 0);
            match layer_opt {
                Some(l) => {
                    layers.push(l);
                },
                None => {},
            }
        }
        proof {
            let sv = content@;
            let jj = s_line_end(sv, pos as int);
            let rest = s_collect(
                sv,
                if jj + 1 <= sv.len() {
                    jj + 1
                } else {
                    sv.len() as int
                },
            );
            if vars@ != vars_before {
                assert(varvals(vars_before.push(vars@.last())) =~= varvals(vars_before).push(
                    (vars@.last().name@, vars@.last().value.v()),
                ));
                assert(varvals(vars_before) + (seq![
                    (vars@.last().name@, vars@.last().value.v()),
                ] + rest.0) =~= varvals(vars_before).push(
                    (vars@.last().name@, vars@.last().value.v()),
                ) + rest.0);
            }
            if layers@ != layers_before {
                let lv = (
                    layers@.last().name@,
                    Triple {
                        c0: layers@.last().n_col.c0.v(),
                        c1: layers@.last().n_col.c1.v(),
                        c2: layers@.last().n_col.c2.v(),
                    },
                    layers@.last().d.v(),
                );
                assert(layervals(layers_before.push(layers@.last())) =~= layervals(
                    layers_before,
                ).push(lv));
                assert(layervals(layers_before) + (seq![lv] + rest.1) =~= layervals(
                    layers_before,
                ).push(lv) + rest.1);
            }
        }
        if j < n {
            pos = j + 1;
        } else {
            pos = n;
        }
    }
    proof {
        assert(varvals(vars@) + s_collect(content@, pos as int).0 =~= varvals(vars@));
        assert(layervals(layers@) + s_collect(content@, pos as int).1 =~= layervals(layers@));
    }
    let red_name = name_red();
    let red = match lookup_var(&vars, &red_name) {
        Some(x) => x,
        None => {
            return Err(ParseError::MissingLambdaRed);
        },
    };
    let green_name = name_green();
    let green = match lookup_var(&vars, &green_name) {
        Some(x) => x,
        None => {
            return Err(ParseError::MissingLambdaGreen);
        },
    };
    let blue_name = name_blue();
    let blue = match lookup_var(&vars, &blue_name) {
        Some(x) => x,
        None => {
            return Err(ParseError::MissingLambdaBlue);
        },
    };
    let st = Structure { layers, lambda: Triple { c0: red, c1: green, c2: blue } };
    Ok((vars, st))
}

} // verus!
