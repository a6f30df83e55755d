use vizsink::ast::{ASTNode, AngleUnit, CanvasNode, DrawNode, ErrorNode, FrameNode, LayerNode, Primitive};
use vizsink::numbers::Scalar;
use vizsink::params::{parse_optional, parse_params, parse_required};
use vizsink::parser::{parse_line, parse_lines, ParserContext};
use vizsink::tokens::tokenizer;

type Float = f64;

fn num(s: &Scalar) -> f64 {
    match s {
        Scalar::Literal(t) => t.parse().unwrap(),
        other => panic!("not a literal: {:?}", other),
    }
}

fn lit(s: &str) -> Scalar {
    Scalar::Literal(s.to_string())
}

fn error(msg: &str) -> ASTNode {
    ASTNode::Error(ErrorNode::ParseError(msg.to_string()))
}

#[test]
fn test_parse_line() {
    let line = "frame set my_frame x=1 y=2 yaw=90deg";
    let parsed = parse_line(line, &mut ParserContext::new());

    println!("{:?}", parsed);
    match &parsed[..] {
        [ASTNode::Frame(FrameNode::Assign { name, x, y, yaw, parent })] => {
            assert_eq!(name, "my_frame");
            assert_eq!(num(x), 1.0);
            assert_eq!(num(y), 2.0);
            assert_eq!(yaw.amount(), "90");
            assert_eq!(yaw.unit(), AngleUnit::Degrees);
            assert_eq!(parent, &None);
        }
        other => panic!("unexpected {:?}", other),
    }
}

#[test]
fn test_parse_lines() {
    let lines = r#"frame select my_frame
    canvas my_canvas
    grid world x=1 y=2 w=3 h=4 cell=0.1"#;
    let parsed = parse_lines(lines, &mut ParserContext::new());

    assert_eq!(parsed.len(), 3);
    assert_eq!(
        parsed[0],
        ASTNode::Frame(FrameNode::Select {
            name: "my_frame".to_string()
        })
    );
    assert_eq!(
        parsed[1],
        ASTNode::Canvas(CanvasNode {
            name: "my_canvas".to_string()
        })
    );
    match &parsed[2] {
        ASTNode::Grid(g) => {
            assert_eq!(g.name, "world".to_string());
            assert_eq!(num(&g.x), 1.0);
            assert_eq!(num(&g.y), 2.0);
            assert_eq!(g.w, 3);
            assert_eq!(g.h, 4);
            assert_eq!(num(&g.cell), 0.1);
        }
        other => panic!("unexpected {:?}", other),
    }

    println!("{:?}", parsed);
}

#[test]
fn test_params() {
    let params_raw = "x=4 y= 6.5 z   = -4";
    let tokens = tokenizer(params_raw);
    println!("{:?}", tokens);
    let params = parse_params(&tokens);

    let x: Float = num(&parse_required::<Scalar>(&params, "x").unwrap());
    let y: Float = num(&parse_required::<Scalar>(&params, "y").unwrap());
    let z: Float = num(&parse_required::<Scalar>(&params, "z").unwrap());
    assert_eq!(x, 4.0);
    assert_eq!(y, 6.5);
    assert_eq!(z, -4.0);
}

#[test]
fn params_later_value_wins_and_stop_at_non_word() {
    let params = parse_params(&tokenizer("a=1 b=2 a=3 ( c=4"));
    assert_eq!(parse_required::<String>(&params, "a"), Ok("3".to_string()));
    assert_eq!(parse_required::<String>(&params, "b"), Ok("2".to_string()));
    assert_eq!(
        parse_required::<String>(&params, "c"),
        Err("missing parameter 'c'".to_string())
    );
    // A key whose next two tokens are not `=` and a word is skipped with them.
    let params = parse_params(&tokenizer("a b c d=2"));
    assert_eq!(parse_optional::<String>(&params, "a"), Ok(None));
    assert_eq!(parse_optional::<String>(&params, "d"), Ok(Some("2".to_string())));
    // After a skipped triple the reading may land on `=` and stop.
    let params = parse_params(&tokenizer("a b c=1 d=2"));
    assert_eq!(parse_optional::<String>(&params, "c"), Ok(None));
    assert_eq!(parse_optional::<String>(&params, "d"), Ok(None));
}

#[test]
fn required_and_optional_errors() {
    let params = parse_params(&tokenizer("n=x1 k=99999999999 e=-3 w=7"));
    assert_eq!(
        parse_required::<Scalar>(&params, "n"),
        Err("invalid value for 'n': invalid float literal".to_string())
    );
    assert_eq!(
        parse_required::<u32>(&params, "k"),
        Err("invalid value for 'k': number too large to fit in target type".to_string())
    );
    assert_eq!(
        parse_required::<u32>(&params, "e"),
        Err("invalid value for 'e': invalid digit found in string".to_string())
    );
    assert_eq!(parse_required::<u32>(&params, "w"), Ok(7));
    assert_eq!(parse_optional::<u32>(&params, "missing"), Ok(None));
    assert_eq!(
        parse_optional::<Scalar>(&params, "n"),
        Err("invalid value for 'n': invalid float literal".to_string())
    );
}

#[test]
fn canvas_and_layer() {
    let mut ctx = ParserContext::new();
    assert_eq!(
        parse_line("layer grid", &mut ctx),
        vec![ASTNode::Layer(LayerNode { name: "grid".to_string() })]
    );
    assert_eq!(parse_line("canvas", &mut ctx), vec![error("canvas: no name")]);
    assert_eq!(parse_line("layer =", &mut ctx), vec![error("layer: no name")]);
}

#[test]
fn unknown_and_unfinished_commands_report_empty() {
    let mut ctx = ParserContext::new();
    for line in ["bogus x=1", "", "shape drone circle r=0.3", "entity uav shape=drone", "draw drone"] {
        assert_eq!(
            parse_line(line, &mut ctx),
            vec![error(&format!("Could not parse: {} (empty)", line))]
        );
    }
}

#[test]
fn frame_errors() {
    let mut ctx = ParserContext::new();
    assert_eq!(
        parse_line("frame set", &mut ctx),
        vec![error("frame: expected subcommand and name")]
    );
    assert_eq!(
        parse_line("frame set f y=2 yaw=0deg", &mut ctx),
        vec![error("frame set f: missing parameter 'x'")]
    );
    assert_eq!(
        parse_line("frame set f x=1 y=2 yaw=90", &mut ctx),
        vec![error("frame set f: invalid value for 'yaw': angle must end with 'deg' or 'rad'")]
    );
    assert_eq!(
        parse_line("frame set f x=1 y=2 yaw=deg", &mut ctx),
        vec![error("frame set f: invalid value for 'yaw': cannot parse float from empty string")]
    );
    assert_eq!(
        parse_line("frame spin f", &mut ctx),
        vec![error("unknown frame subcommand 'spin'")]
    );
    // The subcommand is matched without regard to case.
    assert_eq!(
        parse_line("frame SELECT f", &mut ctx),
        vec![ASTNode::Frame(FrameNode::Select { name: "f".to_string() })]
    );
}

#[test]
fn frame_set_with_parent_and_radians() {
    let parsed = parse_line("frame set arm x=0.5 y=-1 yaw=1.57rad parent=base", &mut ParserContext::new());
    match &parsed[..] {
        [ASTNode::Frame(FrameNode::Assign { name, x, y, yaw, parent })] => {
            assert_eq!(name, "arm");
            assert_eq!(num(x), 0.5);
            assert_eq!(num(y), -1.0);
            assert_eq!(yaw.amount(), "1.57");
            assert_eq!(yaw.unit(), AngleUnit::Radians);
            assert_eq!(parent.as_deref(), Some("base"));
        }
        other => panic!("unexpected {:?}", other),
    }
}

#[test]
fn draw_primitives() {
    let mut ctx = ParserContext::new();
    assert_eq!(
        parse_line("draw line x1=0 y1=0 x2=0.5 y2=0 stroke_color=red", &mut ctx),
        vec![ASTNode::Draw(DrawNode::Primitive(Primitive::Line {
            x1: lit("0"),
            y1: lit("0"),
            x2: lit("0.5"),
            y2: lit("0"),
            stroke_color: Some("red".to_string()),
            stroke_width: None,
        }))]
    );
    assert_eq!(
        parse_line("draw circle x=1 y=2 r=3 fill_color=blue stroke_width=0", &mut ctx),
        vec![ASTNode::Draw(DrawNode::Primitive(Primitive::Circle {
            x: lit("1"),
            y: lit("2"),
            r: lit("3"),
            stroke_color: None,
            stroke_width: Some(lit("0")),
            fill_color: Some("blue".to_string()),
        }))]
    );
    assert_eq!(
        parse_line("draw rect x=1 y=2 w=3", &mut ctx),
        vec![error("rect: missing parameter 'h'")]
    );
    assert_eq!(
        parse_line("draw line x1=0 y1=0 x2=1 y2=1 stroke_width=thick", &mut ctx),
        vec![error("line: invalid value for 'stroke_width': invalid float literal")]
    );
    assert_eq!(parse_line("draw", &mut ctx), vec![error("draw: missing name of shape or primitive")]);
}

#[test]
fn cells_need_a_grid() {
    let mut ctx = ParserContext::new();
    assert_eq!(
        parse_line("draw cell x=1 y=2 grid=occ", &mut ctx),
        vec![error("cell: no grid with name: occ")]
    );
    // The grid of the language docs has no origin: it is refused.
    assert_eq!(
        parse_line("grid occ w=50 h=50 cell=0.2", &mut ctx),
        vec![error("grid missing parameter 'x'")]
    );
    assert_eq!(
        parse_line("grid occ x=0 y=0 w=-5 h=50 cell=0.2", &mut ctx),
        vec![error("grid invalid value for 'w': invalid digit found in string")]
    );
    parse_line("grid occ x=10 y=20 w=50 h=50 cell=0.2", &mut ctx);
    let parsed = parse_line("draw cell x=1 y=2 grid=occ", &mut ctx);
    assert_eq!(
        parsed,
        vec![ASTNode::Draw(DrawNode::Primitive(Primitive::Rectangle {
            x: Scalar::GridOffset {
                origin: "10".to_string(),
                index: "1".to_string(),
                cell: "0.2".to_string()
            },
            y: Scalar::GridOffset {
                origin: "20".to_string(),
                index: "2".to_string(),
                cell: "0.2".to_string()
            },
            w: lit("0.2"),
            h: lit("0.2"),
            stroke_color: None,
            stroke_width: Some(lit("0.0")),
            fill_color: Some("black".to_string()),
        }))]
    );
    // A redefinition replaces the grid.
    parse_line("grid occ x=0 y=0 w=5 h=5 cell=1", &mut ctx);
    match &parse_line("draw cell x=3 y=4 grid=occ fill_color=red", &mut ctx)[..] {
        [ASTNode::Draw(DrawNode::Primitive(Primitive::Rectangle { x, w, fill_color, .. }))] => {
            assert_eq!(
                x,
                &Scalar::GridOffset { origin: "0".to_string(), index: "3".to_string(), cell: "1".to_string() }
            );
            assert_eq!(w, &lit("1"));
            assert_eq!(fill_color.as_deref(), Some("red"));
        }
        other => panic!("unexpected {:?}", other),
    }
}

#[test]
fn lines_and_line_endings() {
    let mut ctx = ParserContext::new();
    let parsed = parse_lines("canvas a\r\n\nlayer b\r", &mut ctx);
    assert_eq!(
        parsed,
        vec![
            ASTNode::Canvas(CanvasNode { name: "a".to_string() }),
            error("Could not parse:  (empty)"),
            ASTNode::Layer(LayerNode { name: "b".to_string() }),
        ]
    );
    assert_eq!(parse_lines("", &mut ctx), vec![]);
    assert_eq!(parse_lines("canvas a\n", &mut ctx).len(), 1);
}

#[test]
fn grids_carry_from_line_to_line() {
    let mut ctx = ParserContext::new();
    let parsed = parse_lines("grid g x=0 y=0 w=2 h=2 cell=1\ndraw cell x=1 y=1 grid=g", &mut ctx);
    assert_eq!(parsed.len(), 2);
    assert!(matches!(parsed[1], ASTNode::Draw(DrawNode::Primitive(Primitive::Rectangle { .. }))));
}

#[test]
fn first_line_then_the_rest() {
    let a = "grid g x=0 y=0 w=2 h=2 cell=1";
    let b = "draw cell x=1 y=1 grid=g\ncanvas c";
    let whole = parse_lines(&format!("{}\n{}", a, b), &mut ParserContext::new());
    let mut ctx = ParserContext::new();
    let mut parts = parse_line(a, &mut ctx);
    parts.extend(parse_lines(b, &mut ctx));
    assert_eq!(whole, parts);
}

#[test]
fn documented_parameter_names() {
    let mut ctx = ParserContext::new();
    assert_eq!(
        parse_line("draw line x1=0 y1=0 x2=1 y2=1 color=red thickness=2", &mut ctx),
        vec![ASTNode::Draw(DrawNode::Primitive(Primitive::Line {
            x1: lit("0"),
            y1: lit("0"),
            x2: lit("1"),
            y2: lit("1"),
            stroke_color: Some("red".to_string()),
            stroke_width: Some(lit("2")),
        }))]
    );
    // The documented names win over the long ones.
    assert_eq!(
        parse_line(
            "draw circle x=1 y=2 r=3 stroke_color=blue color=green stroke_width=5 thickness=0.5",
            &mut ctx
        ),
        vec![ASTNode::Draw(DrawNode::Primitive(Primitive::Circle {
            x: lit("1"),
            y: lit("2"),
            r: lit("3"),
            stroke_color: Some("green".to_string()),
            stroke_width: Some(lit("0.5")),
            fill_color: None,
        }))]
    );
    assert_eq!(
        parse_line("draw rectangle x=1 y=2 w=3 h=4", &mut ctx),
        vec![ASTNode::Draw(DrawNode::Primitive(Primitive::Rectangle {
            x: lit("1"),
            y: lit("2"),
            w: lit("3"),
            h: lit("4"),
            stroke_color: None,
            stroke_width: None,
            fill_color: None,
        }))]
    );
    assert_eq!(
        parse_line("draw rect x=1 y=2 w=3 h=4 color=red fill_color=blue", &mut ctx),
        vec![ASTNode::Draw(DrawNode::Primitive(Primitive::Rectangle {
            x: lit("1"),
            y: lit("2"),
            w: lit("3"),
            h: lit("4"),
            stroke_color: Some("red".to_string()),
            stroke_width: None,
            fill_color: Some("blue".to_string()),
        }))]
    );
    assert_eq!(
        parse_line("draw line x1=0 y1=0 x2=1 y2=1 thickness=wide", &mut ctx),
        vec![error("line: invalid value for 'thickness': invalid float literal")]
    );
}
