//! Canvas Command Generator
//! Transforms the AST into simple commands close to the native canvas commands.
//!
//! Quantities stay as the literals the parser kept; where the canvas needs a
//! computed number (a point placed in a frame, whether a width is zero) the
//! command says what is to be computed and the renderer computes it.
use vstd::prelude::*;

use crate::ast::{nodes_view, ASTNode, DrawNode, ErrorNode, Primitive, SpecASTNode, SpecDrawNode, SpecPrimitive};
use crate::numbers::{Scalar, SpecScalar};
use crate::text::{concat3, debug_form, debug_text};

verus! {

#[derive(Debug, Clone, PartialEq)]
pub struct Point2D {
    pub x: Scalar,
    pub y: Scalar,
}

pub struct SpecPoint2D {
    pub x: SpecScalar,
    pub y: SpecScalar,
}

impl View for Point2D {
    type V = SpecPoint2D;

    open spec fn view(&self) -> SpecPoint2D {
        SpecPoint2D { x: self.x@, y: self.y@ }
    }
}

/// A coordinate system: its origin and heading in the world.
#[derive(Debug, Clone, PartialEq)]
pub struct Frame {
    name: String,
    x: Scalar,
    y: Scalar,
    yaw: Scalar,
}

pub struct SpecFrame {
    pub name: Seq<char>,
    pub x: SpecScalar,
    pub y: SpecScalar,
    pub yaw: SpecScalar,
}

impl View for Frame {
    type V = SpecFrame;

    closed spec fn view(&self) -> SpecFrame {
        SpecFrame { name: self.name@, x: self.x@, y: self.y@, yaw: self.yaw@ }
    }
}

impl Frame {
    pub fn name(&self) -> (r: &String)
        ensures
            r@ == self@.name,
    {
        &self.name
    }

    pub fn x(&self) -> (r: &Scalar)
        ensures
            r@ == self@.x,
    {
        &self.x
    }

    pub fn y(&self) -> (r: &Scalar)
        ensures
            r@ == self@.y,
    {
        &self.y
    }

    pub fn yaw(&self) -> (r: &Scalar)
        ensures
            r@ == self@.yaw,
    {
        &self.yaw
    }

    /// A copy of the frame.
    pub fn duplicate(&self) -> (r: Frame)
        ensures
            r@ == self@,
    {
        Frame {
            name: self.name.clone(),
            x: self.x.duplicate(),
            y: self.y.duplicate(),
            yaw: self.yaw.duplicate(),
        }
    }
}

/// The world frame: origin at zero, no rotation.
pub open spec fn spec_main_frame() -> SpecFrame {
    SpecFrame {
        name: "main"@,
        x: SpecScalar::Literal("0.0"@),
        y: SpecScalar::Literal("0.0"@),
        yaw: SpecScalar::Literal("0.0"@),
    }
}

pub fn main_frame() -> (r: Frame)
    ensures
        r@ == spec_main_frame(),
{
    Frame {
        name: "main".to_string(),
        x: Scalar::Literal("0.0".to_string()),
        y: Scalar::Literal("0.0".to_string()),
        yaw: Scalar::Literal("0.0".to_string()),
    }
}

/// A point given in a frame; the canvas draws it at its world position.
#[derive(Debug, Clone, PartialEq)]
pub struct WorldPoint {
    pub frame: Frame,
    pub local: Point2D,
}

pub struct SpecWorldPoint {
    pub frame: SpecFrame,
    pub local: SpecPoint2D,
}

impl View for WorldPoint {
    type V = SpecWorldPoint;

    open spec fn view(&self) -> SpecWorldPoint {
        SpecWorldPoint { frame: self.frame@, local: self.local@ }
    }
}

#[derive(Debug, PartialEq, Clone)]
pub enum Command {
    /// Render commands are rerun in order every time the scene rerenders.
    Render(RenderCommand),
    /// Effects are triggered once upon receiving the command.
    Effect(EffectCommand),
}

#[derive(Debug, PartialEq, Clone)]
pub enum RenderCommand {
    /// Draws and arc centered at `center` with a radius. The path starts at
    /// `angle_start`, ends at `angle_end`. Travels counter clockwise if `ccw`
    /// is true, else clockwise.
    ///
    /// Calls `ctx.arc(x, y, radius, startAngle, endAngle, counterclockwise)`
    Arc { center: WorldPoint, radius: Scalar, angle_start: Scalar, angle_end: Scalar, ccw: bool },
    /// Initiates a stroke.
    ///
    /// Calls `ctx.stroke()`
    Stroke,
    /// Initiates a stroke when the width is not zero, and does nothing
    /// otherwise.
    StrokeUnlessZero(Scalar),
    /// Sets the width of the stroke in model units.
    LineWidth(Scalar),
    /// Sets the color of the stroke (`ctx.strokeStyle`).
    StrokeStyle(String),
    /// Starts a path (`ctx.beginPath()`).
    BeginPath,
    /// Closes a path (`ctx.closePath()`).
    ClosePath,
    /// Sets the color of fill (`ctx.fillStyle`).
    FillColor(String),
    /// Fills the current path (`ctx.fill()`).
    Fill,
    /// Move the cursor to a point (`ctx.moveTo()` at its pixel position).
    MoveTo(WorldPoint),
    /// Draws a line from the cursor to a point (`ctx.lineTo()`).
    LineTo(WorldPoint),
    /// Saves the state of the canvas by pushing the current state onto a stack
    /// (`ctx.save()`). Used together with [`RenderCommand::Restore`].
    Save,
    /// Restores the most recently saved canvas state (`ctx.restore()`).
    Restore,
}

#[derive(Debug, PartialEq, Clone)]
pub enum EffectCommand {
    /// Console logs to the browser console (`console.log()`).
    ConsoleLog(String),
    /// Console logs an error to the browser console (`console.error()`).
    ConsoleError(String),
    /// Console logs a warning to the browser console (`console.warn()`).
    ConsoleWarn(String),
}

pub enum SpecRenderCommand {
    Arc {
        center: SpecWorldPoint,
        radius: SpecScalar,
        angle_start: SpecScalar,
        angle_end: SpecScalar,
        ccw: bool,
    },
    Stroke,
    StrokeUnlessZero(SpecScalar),
    LineWidth(SpecScalar),
    StrokeStyle(Seq<char>),
    BeginPath,
    ClosePath,
    FillColor(Seq<char>),
    Fill,
    MoveTo(SpecWorldPoint),
    LineTo(SpecWorldPoint),
    Save,
    Restore,
}

pub enum SpecEffectCommand {
    ConsoleLog(Seq<char>),
    ConsoleError(Seq<char>),
    ConsoleWarn(Seq<char>),
}

pub enum SpecCommand {
    Render(SpecRenderCommand),
    Effect(SpecEffectCommand),
}

impl View for RenderCommand {
    type V = SpecRenderCommand;

    open spec fn view(&self) -> SpecRenderCommand {
        match self {
            RenderCommand::Arc { center, radius, angle_start, angle_end, ccw } =>
                SpecRenderCommand::Arc {
                center: center@,
                radius: radius@,
                angle_start: angle_start@,
                angle_end: angle_end@,
                ccw: *ccw,
            },
            RenderCommand::Stroke => SpecRenderCommand::Stroke,
            RenderCommand::StrokeUnlessZero(w) => SpecRenderCommand::StrokeUnlessZero(w@),
            RenderCommand::LineWidth(w) => SpecRenderCommand::LineWidth(w@),
            RenderCommand::StrokeStyle(s) => SpecRenderCommand::StrokeStyle(s@),
            RenderCommand::BeginPath => SpecRenderCommand::BeginPath,
            RenderCommand::ClosePath => SpecRenderCommand::ClosePath,
            RenderCommand::FillColor(c) => SpecRenderCommand::FillColor(c@),
            RenderCommand::Fill => SpecRenderCommand::Fill,
            RenderCommand::MoveTo(p) => SpecRenderCommand::MoveTo(p@),
            RenderCommand::LineTo(p) => SpecRenderCommand::LineTo(p@),
            RenderCommand::Save => SpecRenderCommand::Save,
            RenderCommand::Restore => SpecRenderCommand::Restore,
        }
    }
}

impl View for EffectCommand {
    type V = SpecEffectCommand;

    open spec fn view(&self) -> SpecEffectCommand {
        match self {
            EffectCommand::ConsoleLog(m) => SpecEffectCommand::ConsoleLog(m@),
            EffectCommand::ConsoleError(m) => SpecEffectCommand::ConsoleError(m@),
            EffectCommand::ConsoleWarn(m) => SpecEffectCommand::ConsoleWarn(m@),
        }
    }
}

impl View for Command {
    type V = SpecCommand;

    open spec fn view(&self) -> SpecCommand {
        match self {
            Command::Render(r) => SpecCommand::Render(r@),
            Command::Effect(e) => SpecCommand::Effect(e@),
        }
    }
}

/// The views of a sequence of commands.
pub open spec fn commands_view(cs: Seq<Command>) -> Seq<SpecCommand> {
    cs.map_values(|c: Command| c@)
}

impl From<RenderCommand> for Command {
    fn from(render_command: RenderCommand) -> (r: Command)
        ensures
            r == Command::Render(render_command),
    {
        Command::Render(render_command)
    }
}

impl vstd::std_specs::convert::FromSpecImpl<RenderCommand> for Command {
    open spec fn obeys_from_spec() -> bool {
        true
    }

    open spec fn from_spec(v: RenderCommand) -> Command {
        Command::Render(v)
    }
}

impl From<EffectCommand> for Command {
    fn from(effect_command: EffectCommand) -> (r: Command)
        ensures
            r == Command::Effect(effect_command),
    {
        Command::Effect(effect_command)
    }
}

impl vstd::std_specs::convert::FromSpecImpl<EffectCommand> for Command {
    open spec fn obeys_from_spec() -> bool {
        true
    }

    open spec fn from_spec(v: EffectCommand) -> Command {
        Command::Effect(v)
    }
}

// ---------------------------------------------------------------------------
// Generation
// ---------------------------------------------------------------------------

/// Stroke color when none is given.
pub open spec fn default_stroke_color() -> Seq<char> {
    "black"@
}

/// Stroke width when none is given, in natural units.
pub open spec fn default_stroke_width() -> Seq<char> {
    "0.10"@
}

/// A full turn in radians (`std::f64::consts::TAU`, shortest round-trip digits).
pub open spec fn full_turn() -> Seq<char> {
    "6.283185307179586"@
}

/// The nodes that the generator handles; every other node stops it.
pub open spec fn is_generated(node: SpecASTNode) -> bool {
    match node {
        SpecASTNode::Draw(SpecDrawNode::Primitive(SpecPrimitive::Line { .. })) => true,
        SpecASTNode::Draw(SpecDrawNode::Primitive(SpecPrimitive::Circle { .. })) => true,
        SpecASTNode::Error(_) => true,
        _ => false,
    }
}

pub open spec fn render(r: SpecRenderCommand) -> SpecCommand {
    SpecCommand::Render(r)
}

pub open spec fn placed(x: SpecScalar, y: SpecScalar) -> SpecWorldPoint {
    SpecWorldPoint { frame: spec_main_frame(), local: SpecPoint2D { x, y } }
}

/// The message that an error node is reported with: its `Debug` form.
pub open spec fn error_report(msg: Seq<char>) -> Seq<char> {
    "ParseError("@ + debug_form(msg) + ")"@
}

/// The commands of one node.
pub open spec fn spec_node_commands(node: SpecASTNode) -> Seq<SpecCommand> {
    match node {
        SpecASTNode::Draw(
            SpecDrawNode::Primitive(SpecPrimitive::Line { x1, y1, x2, y2, stroke_color, stroke_width }),
        ) => {
            let color = match stroke_color {
                Some(c) => c,
                None => default_stroke_color(),
            };
            let width = match stroke_width {
                Some(w) => w,
                None => SpecScalar::Literal(default_stroke_width()),
            };
            seq![
                render(SpecRenderCommand::Save),
                render(SpecRenderCommand::BeginPath),
                render(SpecRenderCommand::StrokeStyle(color)),
                render(SpecRenderCommand::LineWidth(width)),
                render(SpecRenderCommand::MoveTo(placed(x1, y1))),
                render(SpecRenderCommand::LineTo(placed(x2, y2))),
                render(SpecRenderCommand::Stroke),
                render(SpecRenderCommand::Restore),
            ]
        },
        SpecASTNode::Draw(
            SpecDrawNode::Primitive(
                SpecPrimitive::Circle { x, y, r, stroke_color, stroke_width, fill_color },
            ),
        ) => {
            let color = match stroke_color {
                Some(c) => c,
                None => default_stroke_color(),
            };
            let width = match stroke_width {
                Some(w) => w,
                None => SpecScalar::Literal(default_stroke_width()),
            };
            let outline = seq![
                render(SpecRenderCommand::Save),
                render(SpecRenderCommand::BeginPath),
                render(SpecRenderCommand::StrokeStyle(color)),
                render(SpecRenderCommand::LineWidth(width)),
                render(
                    SpecRenderCommand::Arc {
                        center: placed(x, y),
                        radius: r,
                        angle_start: SpecScalar::Literal("0.0"@),
                        angle_end: SpecScalar::Literal(full_turn()),
                        ccw: false,
                    },
                ),
            ];
            let fill = match fill_color {
                Some(f) => seq![render(SpecRenderCommand::FillColor(f)), render(SpecRenderCommand::Fill)],
                None => Seq::empty(),
            };
            outline + fill + seq![
                render(SpecRenderCommand::StrokeUnlessZero(width)),
                render(SpecRenderCommand::Restore),
            ]
        },
        SpecASTNode::Error(msg) => seq![
            SpecCommand::Effect(SpecEffectCommand::ConsoleError(error_report(msg))),
        ],
        _ => Seq::empty(),
    }
}

/// The commands of a list of nodes: those of each node, in order.
pub open spec fn spec_generate(nodes: Seq<SpecASTNode>) -> Seq<SpecCommand>
    decreases nodes.len(),
{
    if nodes.len() == 0 {
        Seq::empty()
    } else {
        spec_generate(nodes.drop_last()) + spec_node_commands(nodes.last())
    }
}

fn push_render(commands: &mut Vec<Command>, r: RenderCommand)
    ensures
        commands_view(final(commands)@) == commands_view(old(commands)@).push(SpecCommand::Render(r@)),
{
    let ghost before = commands@;
    commands.push(Command::from(r));
    assert(commands_view(commands@) =~= commands_view(before).push(SpecCommand::Render(r@)));
}

fn color_or_default(c: Option<String>) -> (r: String)
    ensures
        r@ == match opt_text(c) {
            Some(t) => t,
            None => default_stroke_color(),
        },
{
    match c {
        Some(value) => value,
        None => "black".to_string(),
    }
}

pub open spec fn opt_text(c: Option<String>) -> Option<Seq<char>> {
    match c {
        Some(t) => Some(t@),
        None => None,
    }
}

pub open spec fn opt_scalar(c: Option<Scalar>) -> Option<SpecScalar> {
    match c {
        Some(t) => Some(t@),
        None => None,
    }
}

fn width_or_default(w: Option<Scalar>) -> (r: Scalar)
    ensures
        r@ == match opt_scalar(w) {
            Some(t) => t,
            None => SpecScalar::Literal(default_stroke_width()),
        },
{
    match w {
        Some(value) => value,
        None => Scalar::Literal("0.10".to_string()),
    }
}

fn at(frame: &Frame, x: Scalar, y: Scalar) -> (r: WorldPoint)
    ensures
        r@ == (SpecWorldPoint { frame: frame@, local: SpecPoint2D { x: x@, y: y@ } }),
{
    WorldPoint { frame: frame.duplicate(), local: Point2D { x, y } }
}

/// Emits the commands of one node.
fn node_commands(node: ASTNode, frame: &Frame, commands: &mut Vec<Command>)
    requires
        is_generated(node@),
        frame@ == spec_main_frame(),
    ensures
        commands_view(final(commands)@) == commands_view(old(commands)@) + spec_node_commands(node@),
{
    let ghost before = commands_view(commands@);
    let ghost expected = spec_node_commands(node@);
    match node {
        ASTNode::Draw(DrawNode::Primitive(primitive)) => match primitive {
            Primitive::Line { x1, y1, x2, y2, stroke_color, stroke_width } => {
                let line_start_world = at(frame, x1, y1);
                let line_end_world = at(frame, x2, y2);
                let color = color_or_default(stroke_color);
                let thickness = width_or_default(stroke_width);
                push_render(commands, RenderCommand::Save);
                push_render(commands, RenderCommand::BeginPath);
                push_render(commands, RenderCommand::StrokeStyle(color));
                push_render(commands, RenderCommand::LineWidth(thickness));
                push_render(commands, RenderCommand::MoveTo(line_start_world));
                push_render(commands, RenderCommand::LineTo(line_end_world));
                push_render(commands, RenderCommand::Stroke);
                push_render(commands, RenderCommand::Restore);
                assert(commands_view(commands@) =~= before + expected);
            },
            Primitive::Circle { x, y, r, stroke_color, stroke_width, fill_color } => {
                let circle_center = at(frame, x, y);
                let stroke_color = color_or_default(stroke_color);
                let stroke_width = width_or_default(stroke_width);
                let ghost width = stroke_width@;
                push_render(commands, RenderCommand::Save);
                push_render(commands, RenderCommand::BeginPath);
                push_render(commands, RenderCommand::StrokeStyle(stroke_color));
                push_render(commands, RenderCommand::LineWidth(stroke_width.duplicate()));
                push_render(
                    commands,
                    RenderCommand::Arc {
                        center: circle_center,
                        radius: r,
                        angle_start: Scalar::Literal("0.0".to_string()),
                        angle_end: Scalar::Literal("6.283185307179586".to_string()),
                        ccw: false,
                    },
                );
                let ghost after_outline = commands_view(commands@);
                if let Some(fill_color) = fill_color {
                    push_render(commands, RenderCommand::FillColor(fill_color));
                    push_render(commands, RenderCommand::Fill);
                }
                push_render(commands, RenderCommand::StrokeUnlessZero(stroke_width));
                push_render(commands, RenderCommand::Restore);
                assert(commands_view(commands@) =~= before + expected);
            },
            _ => {
                proof {
                    assert(false);
                }
            },
        },
        ASTNode::Error(ErrorNode::ParseError(msg)) => {
            let report = concat3("ParseError(", debug_text(msg.as_str()).as_str(), ")");
            commands.push(EffectCommand::ConsoleError(report).into());
            assert(commands_view(commands@) =~= before + expected);
        },
        _ => {
            proof {
                assert(false);
            }
        },
    }
}

/// Turns a list of nodes into canvas commands.
///
/// Line and circle primitives and error nodes are handled; the other nodes are
/// left out by the precondition.
pub fn generate_commands(ast: Vec<ASTNode>) -> (commands: Vec<Command>)
    requires
        forall|i: int| 0 <= i < ast@.len() ==> is_generated(#[trigger] ast@[i]@),
    ensures
        commands_view(commands@) == spec_generate(nodes_view(ast@)),
{
    let mut commands: Vec<Command> = vec![];
    let current_frame = main_frame();
    let ghost nodes = ast@;
    for node in it: ast.into_iter()
        invariant
            it.seq() == nodes,
            current_frame@ == spec_main_frame(),
            forall|i: int| 0 <= i < nodes.len() ==> is_generated(#[trigger] nodes[i]@),
            commands_view(commands@) == spec_generate(nodes_view(nodes.take(it.index() as int))),
    {
        let ghost k = it.index() as int;
        proof {
            assert(nodes_view(nodes.take(k + 1)).drop_last() =~= nodes_view(nodes.take(k)));
            assert(nodes_view(nodes.take(k + 1)).last() == node@);
        }
        node_commands(node, &current_frame, &mut commands);
    }
    assert(nodes.take(nodes.len() as int) =~= nodes);
    commands
}

/// Generation works node by node: the commands of two lists of nodes, one
/// after the other, are the commands of the first followed by those of the
/// second.
pub proof fn law_generate_concat(a: Seq<SpecASTNode>, b: Seq<SpecASTNode>)
    ensures
        spec_generate(a + b) == spec_generate(a) + spec_generate(b),
    decreases b.len(),
{
    if b.len() == 0 {
        assert(a + b =~= a);
        assert(spec_generate(a) + spec_generate(b) =~= spec_generate(a));
    } else {
        assert((a + b).drop_last() =~= a + b.drop_last());
        assert((a + b).last() == b.last());
        law_generate_concat(a, b.drop_last());
        assert(spec_generate(a) + spec_generate(b.drop_last()) + spec_node_commands(b.last())
            =~= spec_generate(a) + (spec_generate(b.drop_last()) + spec_node_commands(b.last())));
    }
}

/// How a command changes the depth of saved canvas states: `Save` opens one,
/// `Restore` closes one, the others leave it.
pub open spec fn save_delta(c: SpecCommand) -> int {
    match c {
        SpecCommand::Render(SpecRenderCommand::Save) => 1,
        SpecCommand::Render(SpecRenderCommand::Restore) => -1,
        _ => 0,
    }
}

/// The number of saved canvas states still open after a list of commands.
pub open spec fn save_depth(cmds: Seq<SpecCommand>) -> int
    decreases cmds.len(),
{
    if cmds.len() == 0 {
        0
    } else {
        save_depth(cmds.drop_last()) + save_delta(cmds.last())
    }
}

/// Every `Restore` closes an earlier `Save`, and every `Save` is closed.
pub open spec fn saves_balanced(cmds: Seq<SpecCommand>) -> bool {
    &&& save_depth(cmds) == 0
    &&& forall|i: int| 0 <= i <= cmds.len() ==> save_depth(#[trigger] cmds.take(i)) >= 0
}

pub open spec fn no_save_or_restore(cmds: Seq<SpecCommand>) -> bool {
    forall|i: int| 0 <= i < cmds.len() ==> save_delta(#[trigger] cmds[i]) == 0
}

proof fn lemma_depth_concat(a: Seq<SpecCommand>, b: Seq<SpecCommand>)
    ensures
        save_depth(a + b) == save_depth(a) + save_depth(b),
    decreases b.len(),
{
    if b.len() == 0 {
        assert(a + b =~= a);
    } else {
        assert((a + b).drop_last() =~= a + b.drop_last());
        lemma_depth_concat(a, b.drop_last());
    }
}

proof fn lemma_depth_neutral(m: Seq<SpecCommand>)
    requires
        no_save_or_restore(m),
    ensures
        save_depth(m) == 0,
    decreases m.len(),
{
    if m.len() > 0 {
        assert(save_delta(m[m.len() - 1]) == 0);
        lemma_depth_neutral(m.drop_last());
    }
}

proof fn lemma_neutral_balanced(m: Seq<SpecCommand>)
    requires
        no_save_or_restore(m),
    ensures
        saves_balanced(m),
{
    lemma_depth_neutral(m);
    assert forall|i: int| 0 <= i <= m.len() implies save_depth(#[trigger] m.take(i)) >= 0 by {
        lemma_depth_neutral(m.take(i));
    }
}

proof fn lemma_bracket_balanced(m: Seq<SpecCommand>)
    requires
        no_save_or_restore(m),
    ensures
        saves_balanced(seq![render(SpecRenderCommand::Save)] + m + seq![render(SpecRenderCommand::Restore)]),
{
    let open = seq![render(SpecRenderCommand::Save)];
    let close = seq![render(SpecRenderCommand::Restore)];
    let s = open + m + close;
    assert(save_depth(open) == 1) by {
        assert(open.drop_last() =~= Seq::<SpecCommand>::empty());
        assert(save_depth(open.drop_last()) == 0);
    }
    assert(save_depth(close) == -1) by {
        assert(close.drop_last() =~= Seq::<SpecCommand>::empty());
        assert(save_depth(close.drop_last()) == 0);
    }
    lemma_depth_neutral(m);
    lemma_depth_concat(open, m);
    lemma_depth_concat(open + m, close);
    assert forall|i: int| 0 <= i <= s.len() implies save_depth(#[trigger] s.take(i)) >= 0 by {
        if i == 0 {
            assert(s.take(i) =~= Seq::<SpecCommand>::empty());
        } else if i <= m.len() + 1 {
            assert(s.take(i) =~= open + m.take(i - 1));
            lemma_depth_neutral(m.take(i - 1));
            lemma_depth_concat(open, m.take(i - 1));
        } else {
            assert(s.take(i) =~= s);
        }
    }
}

proof fn lemma_balanced_concat(a: Seq<SpecCommand>, b: Seq<SpecCommand>)
    requires
        saves_balanced(a),
        saves_balanced(b),
    ensures
        saves_balanced(a + b),
{
    lemma_depth_concat(a, b);
    assert forall|i: int| 0 <= i <= (a + b).len() implies save_depth(#[trigger] (a + b).take(i)) >= 0 by {
        if i <= a.len() {
            assert((a + b).take(i) =~= a.take(i));
        } else {
            assert((a + b).take(i) =~= a + b.take(i - a.len()));
            assert(a.take(a.len() as int) =~= a);
            lemma_depth_concat(a, b.take(i - a.len()));
        }
    }
}

proof fn lemma_node_balanced(node: SpecASTNode)
    requires
        is_generated(node),
    ensures
        saves_balanced(spec_node_commands(node)),
{
    let s = spec_node_commands(node);
    match node {
        SpecASTNode::Error(_) => {
            lemma_neutral_balanced(s);
        },
        _ => {
            let m = s.subrange(1, s.len() - 1);
            assert(s =~= seq![render(SpecRenderCommand::Save)] + m + seq![
                render(SpecRenderCommand::Restore),
            ]);
            lemma_bracket_balanced(m);
        },
    }
}

/// Saved canvas states pair up: in the commands generated for lines, circles
/// and error nodes, every `Restore` closes an earlier `Save` and every `Save`
/// is closed by a later `Restore`.
pub proof fn law_saves_and_restores_pair_up(nodes: Seq<SpecASTNode>)
    requires
        forall|i: int| 0 <= i < nodes.len() ==> is_generated(#[trigger] nodes[i]),
    ensures
        saves_balanced(spec_generate(nodes)),
    decreases nodes.len(),
{
    if nodes.len() == 0 {
        lemma_neutral_balanced(spec_generate(nodes));
    } else {
        law_saves_and_restores_pair_up(nodes.drop_last());
        lemma_node_balanced(nodes.last());
        lemma_balanced_concat(spec_generate(nodes.drop_last()), spec_node_commands(nodes.last()));
    }
}

/// The point `(x, y)` of the main frame.
pub open spec fn main_point(x: SpecScalar, y: SpecScalar) -> SpecWorldPoint {
    SpecWorldPoint { frame: spec_main_frame(), local: SpecPoint2D { x, y } }
}

proof fn lemma_generate_one(node: SpecASTNode)
    ensures
        spec_generate(seq![node]) == spec_node_commands(node),
{
    assert(seq![node].drop_last() =~= Seq::<SpecASTNode>::empty());
    assert(spec_generate(Seq::<SpecASTNode>::empty()) == Seq::<SpecCommand>::empty());
    assert(Seq::<SpecCommand>::empty() + spec_node_commands(node) =~= spec_node_commands(node));
}

/// A line is drawn as given: within one saved canvas state, its path runs
/// from `(x1, y1)` to `(x2, y2)` in the main frame and is stroked in the
/// line's own color and width; black and `0.10` stand in only for a color or
/// width that the line does not have.
pub proof fn law_line_drawn_as_given(
    x1: SpecScalar,
    y1: SpecScalar,
    x2: SpecScalar,
    y2: SpecScalar,
    stroke_color: Option<Seq<char>>,
    stroke_width: Option<SpecScalar>,
)
    ensures
        ({
            let node = SpecASTNode::Draw(
                SpecDrawNode::Primitive(SpecPrimitive::Line { x1, y1, x2, y2, stroke_color, stroke_width }),
            );
            let cmds = spec_generate(seq![node]);
            &&& cmds.len() == 8
            &&& cmds[0] == SpecCommand::Render(SpecRenderCommand::Save)
            &&& cmds[1] == SpecCommand::Render(SpecRenderCommand::BeginPath)
            &&& (stroke_color matches Some(c) ==> cmds[2] == SpecCommand::Render(
                SpecRenderCommand::StrokeStyle(c),
            ))
            &&& (stroke_color is None ==> cmds[2] == SpecCommand::Render(
                SpecRenderCommand::StrokeStyle("black"@),
            ))
            &&& (stroke_width matches Some(w) ==> cmds[3] == SpecCommand::Render(
                SpecRenderCommand::LineWidth(w),
            ))
            &&& (stroke_width is None ==> cmds[3] == SpecCommand::Render(
                SpecRenderCommand::LineWidth(SpecScalar::Literal("0.10"@)),
            ))
            &&& cmds[4] == SpecCommand::Render(SpecRenderCommand::MoveTo(main_point(x1, y1)))
            &&& cmds[5] == SpecCommand::Render(SpecRenderCommand::LineTo(main_point(x2, y2)))
            &&& cmds[6] == SpecCommand::Render(SpecRenderCommand::Stroke)
            &&& cmds[7] == SpecCommand::Render(SpecRenderCommand::Restore)
        }),
{
    let node = SpecASTNode::Draw(
        SpecDrawNode::Primitive(SpecPrimitive::Line { x1, y1, x2, y2, stroke_color, stroke_width }),
    );
    lemma_generate_one(node);
}

/// A circle is drawn as given: within one saved canvas state, a full turn
/// around `(x, y)` in the main frame with radius `r`, outlined in the circle's
/// own color and width (black and `0.10` stand in only for missing ones),
/// filled with its fill color when it has one, and stroked unless the width is
/// zero.
pub proof fn law_circle_drawn_as_given(
    x: SpecScalar,
    y: SpecScalar,
    r: SpecScalar,
    stroke_color: Option<Seq<char>>,
    stroke_width: Option<SpecScalar>,
    fill_color: Option<Seq<char>>,
)
    ensures
        ({
            let node = SpecASTNode::Draw(
                SpecDrawNode::Primitive(
                    SpecPrimitive::Circle { x, y, r, stroke_color, stroke_width, fill_color },
                ),
            );
            let cmds = spec_generate(seq![node]);
            let width = match stroke_width {
                Some(w) => w,
                None => SpecScalar::Literal("0.10"@),
            };
            &&& cmds[0] == SpecCommand::Render(SpecRenderCommand::Save)
            &&& cmds[1] == SpecCommand::Render(SpecRenderCommand::BeginPath)
            &&& (stroke_color matches Some(c) ==> cmds[2] == SpecCommand::Render(
                SpecRenderCommand::StrokeStyle(c),
            ))
            &&& (stroke_color is None ==> cmds[2] == SpecCommand::Render(
                SpecRenderCommand::StrokeStyle("black"@),
            ))
            &&& cmds[3] == SpecCommand::Render(SpecRenderCommand::LineWidth(width))
            &&& cmds[4] == SpecCommand::Render(
                SpecRenderCommand::Arc {
                    center: main_point(x, y),
                    radius: r,
                    angle_start: SpecScalar::Literal("0.0"@),
                    angle_end: SpecScalar::Literal("6.283185307179586"@),
                    ccw: false,
                },
            )
            &&& (fill_color matches Some(f) ==> {
                &&& cmds.len() == 9
                &&& cmds[5] == SpecCommand::Render(SpecRenderCommand::FillColor(f))
                &&& cmds[6] == SpecCommand::Render(SpecRenderCommand::Fill)
            })
            &&& (fill_color is None ==> cmds.len() == 7)
            &&& cmds[cmds.len() - 2] == SpecCommand::Render(SpecRenderCommand::StrokeUnlessZero(width))
            &&& cmds[cmds.len() - 1] == SpecCommand::Render(SpecRenderCommand::Restore)
        }),
{
    let node = SpecASTNode::Draw(
        SpecDrawNode::Primitive(SpecPrimitive::Circle { x, y, r, stroke_color, stroke_width, fill_color }),
    );
    lemma_generate_one(node);
}

/// An error node is reported, not drawn: it gives exactly one console error
/// that carries the node's message.
pub proof fn law_error_reported(msg: Seq<char>)
    ensures
        spec_generate(seq![SpecASTNode::Error(msg)]) == seq![
            SpecCommand::Effect(SpecEffectCommand::ConsoleError("ParseError("@ + debug_form(msg) + ")"@)),
        ],
{
    lemma_generate_one(SpecASTNode::Error(msg));
}

} // verus!
