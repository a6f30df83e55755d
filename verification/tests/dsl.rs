use vizsink::color::Color;
use vizsink::dsl::{parse_line, split_spaces, Op, ParserContext};
use vizsink::numbers::Scalar;

fn lit(s: &str) -> Scalar {
    Scalar::Literal(s.to_string())
}

#[test]
fn line_ops() {
    let mut ctx = ParserContext::default();
    let ops = parse_line("line 1 2 3.5 -4".to_string(), &mut ctx);
    assert_eq!(ops.len(), 1);
    match &ops[0] {
        Op::Line { x1, y1, x2, y2 } => {
            assert_eq!((x1, y1, x2, y2), (&lit("1"), &lit("2"), &lit("3.5"), &lit("-4")));
        }
        other => panic!("unexpected {:?}", other),
    }
    // extra arguments are ignored
    assert_eq!(parse_line("line 1 2 3 4 5".to_string(), &mut ctx).len(), 1);
    // missing or bad arguments give nothing
    assert!(parse_line("line 1 2 3".to_string(), &mut ctx).is_empty());
    assert!(parse_line("line 1 2 3 x".to_string(), &mut ctx).is_empty());
    // two spaces make an empty argument
    assert!(parse_line("line 1  2 3 4".to_string(), &mut ctx).is_empty());
}

#[test]
fn color_lines_give_no_ops() {
    let mut ctx = ParserContext::default();
    assert!(parse_line("color red #ff0000".to_string(), &mut ctx).is_empty());
    assert!(parse_line("color red".to_string(), &mut ctx).is_empty());
    assert!(parse_line("color red zz".to_string(), &mut ctx).is_empty());
    assert!(parse_line("clear".to_string(), &mut ctx).is_empty());
    assert!(parse_line("".to_string(), &mut ctx).is_empty());
    let _ = Op::Color { color: Color::from_hex("00ff00".to_string()).unwrap() };
}

#[test]
fn splitting_at_spaces() {
    assert_eq!(split_spaces("a  b"), vec!["a", "", "b"]);
    assert_eq!(split_spaces(""), vec![""]);
    assert_eq!(split_spaces(" a "), vec!["", "a", ""]);
}
