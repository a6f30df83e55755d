use vizsink::ast::{ASTNode, DrawNode, ErrorNode, Primitive};
use vizsink::generator::{generate_commands, Command, EffectCommand, Frame, RenderCommand, WorldPoint};
use vizsink::numbers::Scalar;

fn value(s: &Scalar) -> f64 {
    match s {
        Scalar::Literal(t) => t.parse().unwrap(),
        Scalar::GridOffset { origin, index, cell } => {
            origin.parse::<f64>().unwrap() + index.parse::<f64>().unwrap() * cell.parse::<f64>().unwrap()
        }
    }
}

/// The world position of a point given in a frame.
fn world(p: &WorldPoint) -> (f64, f64) {
    let f: &Frame = &p.frame;
    let (s, c) = value(f.yaw()).sin_cos();
    let (x, y) = (value(&p.local.x), value(&p.local.y));
    (c * x - s * y + value(f.x()), s * x + c * y + value(f.y()))
}

fn lit(s: &str) -> Scalar {
    Scalar::Literal(s.to_string())
}

#[test]
fn test_generation() {
    let ast = vec![ASTNode::Draw(DrawNode::Primitive(Primitive::Line {
        x1: lit("1.0"),
        y1: lit("2.0"),
        x2: lit("3.0"),
        y2: lit("4.0"),
        stroke_color: Some("red".to_string()),
        stroke_width: Some(lit("4.0")),
    }))];

    let commands = generate_commands(ast);

    assert_eq!(commands.len(), 8);
    assert_eq!(commands[0], Command::Render(RenderCommand::Save));
    assert_eq!(commands[1], Command::Render(RenderCommand::BeginPath));
    assert_eq!(commands[2], Command::Render(RenderCommand::StrokeStyle("red".to_string())));
    match &commands[3] {
        Command::Render(RenderCommand::LineWidth(w)) => assert_eq!(value(w), 4.0),
        other => panic!("unexpected {:?}", other),
    }
    match &commands[4] {
        Command::Render(RenderCommand::MoveTo(p)) => assert_eq!(world(p), (1.0, 2.0)),
        other => panic!("unexpected {:?}", other),
    }
    match &commands[5] {
        Command::Render(RenderCommand::LineTo(p)) => assert_eq!(world(p), (3.0, 4.0)),
        other => panic!("unexpected {:?}", other),
    }
    assert_eq!(commands[6], Command::Render(RenderCommand::Stroke));
    assert_eq!(commands[7], Command::Render(RenderCommand::Restore));
}

#[test]
fn line_defaults() {
    let commands = generate_commands(vec![ASTNode::Draw(DrawNode::Primitive(Primitive::Line {
        x1: lit("0"),
        y1: lit("0"),
        x2: lit("1"),
        y2: lit("1"),
        stroke_color: None,
        stroke_width: None,
    }))]);
    assert_eq!(commands[2], Command::Render(RenderCommand::StrokeStyle("black".to_string())));
    assert_eq!(commands[3], Command::Render(RenderCommand::LineWidth(lit("0.10"))));
}

#[test]
fn circle_commands() {
    let circle = |fill: Option<&str>, width: Option<&str>| {
        ASTNode::Draw(DrawNode::Primitive(Primitive::Circle {
            x: lit("1"),
            y: lit("2"),
            r: lit("3"),
            stroke_color: None,
            stroke_width: width.map(lit),
            fill_color: fill.map(|s| s.to_string()),
        }))
    };
    let plain = generate_commands(vec![circle(None, None)]);
    assert_eq!(plain.len(), 7);
    assert_eq!(plain[0], Command::Render(RenderCommand::Save));
    match &plain[4] {
        Command::Render(RenderCommand::Arc { center, radius, angle_start, angle_end, ccw }) => {
            assert_eq!(world(center), (1.0, 2.0));
            assert_eq!(value(radius), 3.0);
            assert_eq!(value(angle_start), 0.0);
            assert_eq!(value(angle_end), std::f64::consts::TAU);
            assert!(!ccw);
        }
        other => panic!("unexpected {:?}", other),
    }
    assert_eq!(plain[5], Command::Render(RenderCommand::StrokeUnlessZero(lit("0.10"))));
    assert_eq!(plain[6], Command::Render(RenderCommand::Restore));

    let filled = generate_commands(vec![circle(Some("blue"), Some("0"))]);
    assert_eq!(filled.len(), 9);
    assert_eq!(filled[5], Command::Render(RenderCommand::FillColor("blue".to_string())));
    assert_eq!(filled[6], Command::Render(RenderCommand::Fill));
    assert_eq!(filled[7], Command::Render(RenderCommand::StrokeUnlessZero(lit("0"))));
    assert_eq!(filled[8], Command::Render(RenderCommand::Restore));
}

#[test]
fn errors_become_console_errors() {
    let commands = generate_commands(vec![ASTNode::Error(ErrorNode::ParseError(
        "bad \"line\"".to_string(),
    ))]);
    assert_eq!(
        commands,
        vec![Command::Effect(EffectCommand::ConsoleError(
            format!("{:?}", ErrorNode::ParseError("bad \"line\"".to_string()))
        ))]
    );
    assert_eq!(
        commands[0],
        Command::Effect(EffectCommand::ConsoleError("ParseError(\"bad \\\"line\\\"\")".to_string()))
    );
}

#[test]
fn plain_error_text_is_quoted() {
    let commands = generate_commands(vec![ASTNode::Error(ErrorNode::ParseError("oops".to_string()))]);
    assert_eq!(
        commands,
        vec![Command::Effect(EffectCommand::ConsoleError("ParseError(\"oops\")".to_string()))]
    );
}

#[test]
fn saves_and_restores_pair_up() {
    let line = ASTNode::Draw(DrawNode::Primitive(Primitive::Line {
        x1: lit("0"),
        y1: lit("0"),
        x2: lit("1"),
        y2: lit("1"),
        stroke_color: None,
        stroke_width: None,
    }));
    let circle = ASTNode::Draw(DrawNode::Primitive(Primitive::Circle {
        x: lit("0"),
        y: lit("0"),
        r: lit("1"),
        stroke_color: None,
        stroke_width: None,
        fill_color: Some("red".to_string()),
    }));
    let error = ASTNode::Error(ErrorNode::ParseError("e".to_string()));
    let commands = generate_commands(vec![circle, error, line]);
    let mut depth: i64 = 0;
    for c in &commands {
        match c {
            Command::Render(RenderCommand::Save) => depth += 1,
            Command::Render(RenderCommand::Restore) => depth -= 1,
            _ => {}
        }
        assert!(depth >= 0);
    }
    assert_eq!(depth, 0);
}

#[test]
fn generation_goes_node_by_node() {
    let a = vec![ASTNode::Error(ErrorNode::ParseError("a".to_string()))];
    let b = vec![ASTNode::Error(ErrorNode::ParseError("b".to_string()))];
    let mut both = a.clone();
    both.extend(b.clone());
    let mut expected = generate_commands(a);
    expected.extend(generate_commands(b));
    assert_eq!(generate_commands(both), expected);
    assert_eq!(generate_commands(vec![]), vec![]);
}

#[test]
fn commands_from_parts() {
    assert_eq!(Command::from(RenderCommand::Fill), Command::Render(RenderCommand::Fill));
    assert_eq!(
        Command::from(EffectCommand::ConsoleWarn("w".to_string())),
        Command::Effect(EffectCommand::ConsoleWarn("w".to_string()))
    );
}
