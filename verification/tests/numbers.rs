use vizsink::ast::{Angle, AngleUnit};
use vizsink::numbers::{parse_float, parse_u32_chars, Scalar};

const FLOAT_SAMPLES: &[&str] = &[
    "0", "1", "-1", "+1", "1.", ".5", "-.5", "+.5", ".", "-", "+", "", "1e5", "1E5", "1e+5",
    "1e-5", "1e", "1e+", "e5", ".e5", "1.e5", ".5e5", "1.5.5", "1..5", "--1", "+-1", "inf",
    "INF", "-Inf", "infinity", "+InFiNiTy", "infinit", "nan", "NaN", "-nan", "nana", "0x10",
    "1_000", " 1", "1 ", "١", "6.5", "-0.001", "3.14", "1e400", "1e-400", "00012.5000", "e",
    "E5", "1e5.5", ".e", "1.5e-3", "-inf", "+nan", "infinityx", "in", "1e5e5", "1E-0", "-.",
    "+e1", "5.e", "Infinity", "iNF",
];

#[test]
fn float_literals_match_std() {
    for s in FLOAT_SAMPLES {
        let ours = parse_float(s);
        let std64 = s.parse::<f64>();
        let std32 = s.parse::<f32>();
        assert_eq!(ours.is_ok(), std64.is_ok(), "f64 disagreement on {:?}", s);
        assert_eq!(ours.is_ok(), std32.is_ok(), "f32 disagreement on {:?}", s);
        match (ours, std64) {
            (Ok(v), Ok(_)) => assert_eq!(v, Scalar::Literal(s.to_string())),
            (Err(e), Err(std_err)) => assert_eq!(e, std_err.to_string()),
            _ => unreachable!(),
        }
    }
}

#[test]
fn u32_parsing_matches_std() {
    let samples = [
        "0", "7", "+7", "-7", "+", "-", "", "4294967295", "4294967296", "99999999999",
        "99999999999x", "x9999999999", "12a", "0004294967295", "00000000000000000001", "1 ",
        "٣",
    ];
    for s in samples {
        let chars: Vec<char> = s.chars().collect();
        let ours = parse_u32_chars(&chars);
        let theirs = s.parse::<u32>().map_err(|e| e.to_string());
        assert_eq!(ours, theirs, "disagreement on {:?}", s);
    }
}

#[test]
fn angles() {
    let a = Angle::parse("90deg").unwrap();
    assert_eq!((a.amount().as_str(), a.unit()), ("90", AngleUnit::Degrees));
    let a = Angle::parse("  -1.5 rad\t").unwrap();
    assert_eq!((a.amount().as_str(), a.unit()), ("-1.5", AngleUnit::Radians));
    assert_eq!(Angle::parse("90"), Err("angle must end with 'deg' or 'rad'".to_string()));
    assert_eq!(Angle::parse("xdeg"), Err("invalid float literal".to_string()));
    assert_eq!(Angle::parse(" deg"), Err("cannot parse float from empty string".to_string()));
    assert_eq!(Angle::parse("90DEG"), Err("angle must end with 'deg' or 'rad'".to_string()));
    let parsed: Angle = "45deg".parse().unwrap();
    assert_eq!(parsed, Angle::parse("45deg").unwrap());
    let zero = Angle::default();
    assert_eq!((zero.amount().as_str(), zero.unit()), ("0", AngleUnit::Radians));
}

#[test]
fn angles_ignore_outer_space() {
    assert_eq!(Angle::parse(" 90deg "), Angle::parse("90deg"));
    assert_eq!(Angle::try_from("1rad"), Angle::parse("1rad"));
}
