use thinfilm::fx::{Fx, SCALE};
use thinfilm::parser::{
    chars_eq, is_id_char, lookup_var, parse_complex, parse_file, parse_layer, parse_n_col,
    parse_number, parse_var, ParseError,
};

fn chars(s: &str) -> Vec<char> {
    s.chars().collect()
}

fn fxu(mag: u128) -> Fx {
    Fx { neg: false, mag }
}

fn fxn(mag: u128) -> Fx {
    Fx { neg: true, mag }
}

#[test]
fn identifier_characters() {
    assert!(is_id_char('a'));
    assert!(is_id_char('Z'));
    assert!(is_id_char('7'));
    assert!(is_id_char('_'));
    assert!(!is_id_char(':'));
    assert!(!is_id_char(' '));
    assert!(!is_id_char('['));
    assert!(!is_id_char('-'));
}

#[test]
fn numbers_in_all_forms() {
    let cases: Vec<(&str, Fx)> = vec![
        ("650", fxu(650 * SCALE)),
        ("0", fxu(0)),
        ("-3.25", fxn(3_250_000_000_000)),
        ("+2", fxu(2 * SCALE)),
        (".5", fxu(500_000_000_000)),
        ("3.", fxu(3 * SCALE)),
        ("1e3", fxu(1000 * SCALE)),
        ("2.5e-2", fxu(25_000_000_000)),
        ("-1.5E2", fxn(150 * SCALE)),
        ("0.000000000001", fxu(1)),
        ("0.0000000000001", fxu(0)),
    ];
    for (text, expect) in cases {
        let s = chars(text);
        let (pos, got) = parse_number(&s, 0);
        assert_eq!(got, Some(expect), "parsing {text}");
        assert_eq!(pos, s.len(), "consumed {text}");
    }
}

#[test]
fn number_rejects_and_rollbacks() {
    // No digits at all.
    assert_eq!(parse_number(&chars("abc"), 0), (0, None));
    assert_eq!(parse_number(&chars("."), 0), (0, None));
    assert_eq!(parse_number(&chars("-"), 0), (0, None));
    // A bare exponent marker is left unconsumed.
    let s = chars("12e");
    let (pos, got) = parse_number(&s, 0);
    assert_eq!(got, Some(fxu(12 * SCALE)));
    assert_eq!(pos, 2);
    let s2 = chars("12e+");
    let (pos2, got2) = parse_number(&s2, 0);
    assert_eq!(got2, Some(fxu(12 * SCALE)));
    assert_eq!(pos2, 2);
    // A value beyond the representable range is rejected.
    assert_eq!(parse_number(&chars("1e30"), 0), (0, None));
}

#[test]
fn complex_pairs() {
    let s = chars("(1.5, -0.25)");
    let (pos, got) = parse_complex(&s, 0);
    let c = got.unwrap();
    assert_eq!(pos, s.len());
    assert_eq!(c.re, fxu(1_500_000_000_000));
    assert_eq!(c.im, fxn(250_000_000_000));
    assert_eq!(parse_complex(&chars("(1.5 0.25)"), 0), (0, None));
}

#[test]
fn refractive_index_triples() {
    let s = chars("{(1,0), (1.5,0.1), (2,-0.2)}");
    let (pos, got) = parse_n_col(&s, 0);
    let t = got.unwrap();
    assert_eq!(pos, s.len());
    assert_eq!(t.c0.re, fxu(SCALE));
    assert_eq!(t.c1.im, fxu(100_000_000_000));
    assert_eq!(t.c2.im, fxn(200_000_000_000));
}

#[test]
fn variable_assignments() {
    let s = chars("  lambda_red : 650 ");
    let (_, got) = parse_var(&s, 0);
    let (name, value) = got.unwrap();
    assert!(chars_eq(&name, &chars("lambda_red")));
    assert_eq!(value, fxu(650 * SCALE));
    // The colon is required.
    assert_eq!(parse_var(&chars("depth 42"), 0).1.is_none(), true);
}

#[test]
fn layer_records() {
    let s = chars("glass [{(1.5,0),(1.5,0),(1.5,0)}, 200.5]");
    let (pos, got) = parse_layer(&s, 0);
    let l = got.unwrap();
    assert_eq!(pos, s.len());
    assert!(chars_eq(&l.name, &chars("glass")));
    assert_eq!(l.d, fxu(200_500_000_000_000));
    assert_eq!(l.n_col.c0.re, fxu(1_500_000_000_000));
    // The comma before the thickness is optional.
    let s2 = chars("glass [{(1.5,0),(1.5,0),(1.5,0)} 200.5]");
    assert!(parse_layer(&s2, 0).1.is_some());
}

#[test]
fn whole_configuration() {
    let text = "# structural color stack\n\
                lambda_red: 650\n\
                lambda_green: 510\n\
                lambda_blue: 475\n\
                depth: 150\n\
                point_density: 400\n\
                \n\
                air [{(1,0),(1,0),(1,0)}, 0]\n\
                film [{(1.5,0),(1.52,0),(1.54,0)}, 100]\n\
                base [{(2,0),(2,0),(2,0)}, 50]\n";
    let content = chars(text);
    let (vars, st) = parse_file(&content).unwrap();
    assert_eq!(st.layers.len(), 3);
    assert!(chars_eq(&st.layers[0].name, &chars("air")));
    assert!(chars_eq(&st.layers[1].name, &chars("film")));
    assert_eq!(st.layers[1].d, fxu(100 * SCALE));
    assert_eq!(st.layers[1].n_col.c1.re, fxu(1_520_000_000_000));
    assert_eq!(st.lambda.c0, fxu(650 * SCALE));
    assert_eq!(st.lambda.c1, fxu(510 * SCALE));
    assert_eq!(st.lambda.c2, fxu(475 * SCALE));
    assert_eq!(lookup_var(&vars, &chars("depth")), Some(fxu(150 * SCALE)));
    assert_eq!(lookup_var(&vars, &chars("point_density")), Some(fxu(400 * SCALE)));
    assert_eq!(lookup_var(&vars, &chars("absent")), None);
}

#[test]
fn later_assignment_wins() {
    let text = "lambda_red: 1\nlambda_green: 2\nlambda_blue: 3\nlambda_red: 650\n";
    let (vars, st) = parse_file(&chars(text)).unwrap();
    assert_eq!(st.lambda.c0, fxu(650 * SCALE));
    assert_eq!(lookup_var(&vars, &chars("lambda_red")), Some(fxu(650 * SCALE)));
}

#[test]
fn missing_wavelengths_are_named() {
    let r = parse_file(&chars("lambda_green: 510\nlambda_blue: 475\n"));
    assert_eq!(r.err(), Some(ParseError::MissingLambdaRed));
    let g = parse_file(&chars("lambda_red: 650\nlambda_blue: 475\n"));
    assert_eq!(g.err(), Some(ParseError::MissingLambdaGreen));
    let b = parse_file(&chars("lambda_red: 650\nlambda_green: 510\n"));
    assert_eq!(b.err(), Some(ParseError::MissingLambdaBlue));
}
