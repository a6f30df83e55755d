//! Parser from lines of text to [`ASTNode`]s.
use vstd::prelude::*;
use vstd::slice::slice_subrange;

use crate::ast::{
    nodes_view, push_err, Angle, ASTNode, CanvasNode, DrawNode, FrameNode, GridNode,
    LayerNode, Primitive, SpecASTNode, SpecDrawNode, SpecFrameNode, SpecGridNode, SpecPrimitive,
};
use crate::numbers::{Scalar, SpecScalar};
use crate::params::{
    parse_optional, parse_params, parse_required, spec_optional, spec_params, spec_required, FromParam,
    TextMap,
};
use crate::text::{
    chars_of, concat, concat3, first_index, lemma_first_index, lowercase, string_of, text_is,
    to_lowercase,
};
use crate::tokens::{spec_tokenize, tokenizer, tokens_view, SpecToken, Token};

verus! {

// ---------------------------------------------------------------------------
// Context
// ---------------------------------------------------------------------------

/// A grid that `grid` defined; `draw cell` places cells on it.
pub struct Grid {
    name: String,
    origin_x: String,
    origin_y: String,
    cell_size: String,
}

pub struct SpecGrid {
    pub name: Seq<char>,
    pub origin_x: Seq<char>,
    pub origin_y: Seq<char>,
    pub cell_size: Seq<char>,
}

impl View for Grid {
    type V = SpecGrid;

    closed spec fn view(&self) -> SpecGrid {
        SpecGrid {
            name: self.name@,
            origin_x: self.origin_x@,
            origin_y: self.origin_y@,
            cell_size: self.cell_size@,
        }
    }
}

/// The grids known to the parser, by name.
pub type GridMap = Map<Seq<char>, SpecGrid>;

/// What the parser remembers from one line to the next.
pub struct ParserContext {
    grids: TextMap<Grid>,
}

impl View for ParserContext {
    type V = GridMap;

    closed spec fn view(&self) -> GridMap {
        self.grids@
    }
}

impl ParserContext {
    pub closed spec fn wf(&self) -> bool {
        self.grids.wf()
    }

    pub fn new() -> (r: Self)
        ensures
            r.wf(),
            r@ == GridMap::empty(),
    {
        ParserContext { grids: TextMap::new() }
    }
}

// ---------------------------------------------------------------------------
// Parameter rules
// ---------------------------------------------------------------------------

/// How a parameter's text is read.
pub enum ParamKind {
    /// A float literal.
    Number,
    /// An unsigned integer.
    Count,
    /// An angle.
    Turn,
    /// Any text.
    Text,
}

/// A parameter that a command reads.
pub struct ParamRule {
    pub key: Seq<char>,
    pub kind: ParamKind,
    pub required: bool,
}

pub open spec fn need(key: Seq<char>, kind: ParamKind) -> ParamRule {
    ParamRule { key, kind, required: true }
}

pub open spec fn may(key: Seq<char>, kind: ParamKind) -> ParamRule {
    ParamRule { key, kind, required: false }
}

pub open spec fn error_of<T>(r: Result<T, Seq<char>>) -> Option<Seq<char>> {
    match r {
        Ok(_) => None,
        Err(e) => Some(e),
    }
}

/// The message of the error that reading `rule` from `p` gives, if any.
pub open spec fn rule_error(p: Map<Seq<char>, Seq<char>>, rule: ParamRule) -> Option<Seq<char>> {
    match rule.kind {
        ParamKind::Number => if rule.required {
            error_of(spec_required::<Scalar>(p, rule.key))
        } else {
            error_of(spec_optional::<Scalar>(p, rule.key))
        },
        ParamKind::Count => if rule.required {
            error_of(spec_required::<u32>(p, rule.key))
        } else {
            error_of(spec_optional::<u32>(p, rule.key))
        },
        ParamKind::Turn => if rule.required {
            error_of(spec_required::<Angle>(p, rule.key))
        } else {
            error_of(spec_optional::<Angle>(p, rule.key))
        },
        ParamKind::Text => if rule.required {
            error_of(spec_required::<String>(p, rule.key))
        } else {
            error_of(spec_optional::<String>(p, rule.key))
        },
    }
}

/// The error of the first rule, in order, that fails.
pub open spec fn first_error(p: Map<Seq<char>, Seq<char>>, rules: Seq<ParamRule>) -> Option<
    Seq<char>,
>
    decreases rules.len(),
{
    if rules.len() == 0 {
        None
    } else {
        match rule_error(p, rules[0]) {
            Some(e) => Some(e),
            None => first_error(p, rules.drop_first()),
        }
    }
}

/// Reading the rules in order: the first error of the rules from `k` on is the
/// error of rule `k` if it fails, else the first error of the rules after it;
/// past the last rule there is none.
proof fn lemma_rules_in_order(p: Map<Seq<char>, Seq<char>>, rules: Seq<ParamRule>)
    ensures
        first_error(p, rules) == first_error(p, rules.skip(0)),
        first_error(p, rules.skip(rules.len() as int)) is None,
        forall|k: int|
            0 <= k < rules.len() ==> #[trigger] first_error(p, rules.skip(k)) == match rule_error(
                p,
                rules[k],
            ) {
                Some(e) => Some(e),
                None => first_error(p, rules.skip(k + 1)),
            },
{
    assert(rules.skip(rules.len() as int) =~= Seq::<ParamRule>::empty());
    assert(rules.skip(0) =~= rules);
    assert forall|k: int| 0 <= k < rules.len() implies #[trigger] first_error(p, rules.skip(k))
        == match rule_error(p, rules[k]) {
        Some(e) => Some(e),
        None => first_error(p, rules.skip(k + 1)),
    } by {
        assert(rules.skip(k)[0] == rules[k]);
        assert(rules.skip(k).drop_first() =~= rules.skip(k + 1));
    }
}

pub open spec fn frame_set_rules() -> Seq<ParamRule> {
    seq![need("x"@, ParamKind::Number), need("y"@, ParamKind::Number), need("yaw"@, ParamKind::Turn)]
}

pub open spec fn grid_rules() -> Seq<ParamRule> {
    seq![
        need("x"@, ParamKind::Number),
        need("y"@, ParamKind::Number),
        need("w"@, ParamKind::Count),
        need("h"@, ParamKind::Count),
        need("cell"@, ParamKind::Number),
    ]
}

pub open spec fn line_rules() -> Seq<ParamRule> {
    seq![
        need("x1"@, ParamKind::Number),
        need("y1"@, ParamKind::Number),
        need("x2"@, ParamKind::Number),
        need("y2"@, ParamKind::Number),
        may("stroke_color"@, ParamKind::Text),
        may("color"@, ParamKind::Text),
        may("stroke_width"@, ParamKind::Number),
        may("thickness"@, ParamKind::Number),
    ]
}

pub open spec fn circle_rules() -> Seq<ParamRule> {
    seq![
        need("x"@, ParamKind::Number),
        need("y"@, ParamKind::Number),
        need("r"@, ParamKind::Number),
        may("stroke_color"@, ParamKind::Text),
        may("color"@, ParamKind::Text),
        may("stroke_width"@, ParamKind::Number),
        may("thickness"@, ParamKind::Number),
        may("fill_color"@, ParamKind::Text),
    ]
}

pub open spec fn rect_rules() -> Seq<ParamRule> {
    seq![
        need("x"@, ParamKind::Number),
        need("y"@, ParamKind::Number),
        need("w"@, ParamKind::Number),
        need("h"@, ParamKind::Number),
        may("stroke_color"@, ParamKind::Text),
        may("color"@, ParamKind::Text),
        may("stroke_width"@, ParamKind::Number),
        may("thickness"@, ParamKind::Number),
        may("fill_color"@, ParamKind::Text),
    ]
}

pub open spec fn cell_rules() -> Seq<ParamRule> {
    seq![
        need("x"@, ParamKind::Number),
        need("y"@, ParamKind::Number),
        need("grid"@, ParamKind::Text),
        may("stroke_color"@, ParamKind::Text),
        may("stroke_width"@, ParamKind::Number),
        may("fill_color"@, ParamKind::Text),
    ]
}

// ---------------------------------------------------------------------------
// What each command yields
// ---------------------------------------------------------------------------

/// The first of two optional values that is present.
pub open spec fn either<T>(preferred: Option<T>, other: Option<T>) -> Option<T> {
    match preferred {
        Some(v) => Some(v),
        None => other,
    }
}

pub open spec fn error_node(msg: Seq<char>) -> Seq<SpecASTNode> {
    seq![SpecASTNode::Error(msg)]
}

pub open spec fn draw_node(p: SpecPrimitive) -> Seq<SpecASTNode> {
    seq![SpecASTNode::Draw(SpecDrawNode::Primitive(p))]
}

/// `frame set <name> x= y= yaw= [parent=]` and `frame select <name>`.
pub open spec fn spec_frame(ts: Seq<SpecToken>) -> Seq<SpecASTNode> {
    if ts.len() >= 2 && ts[0] is Word && ts[1] is Word {
        let sub = lowercase(ts[0]->Word_0);
        let name = ts[1]->Word_0;
        let p = spec_params(ts.skip(2), Map::empty());
        if sub == "set"@ {
            match first_error(p, frame_set_rules()) {
                Some(e) => error_node("frame set "@ + name + ": "@ + e),
                None => seq![
                    SpecASTNode::Frame(
                        SpecFrameNode::Assign {
                            name,
                            x: spec_required::<Scalar>(p, "x"@)->Ok_0,
                            y: spec_required::<Scalar>(p, "y"@)->Ok_0,
                            yaw: spec_required::<Angle>(p, "yaw"@)->Ok_0,
                            parent: spec_optional::<String>(p, "parent"@)->Ok_0,
                        },
                    ),
                ],
            }
        } else if sub == "select"@ {
            seq![SpecASTNode::Frame(SpecFrameNode::Select { name })]
        } else {
            error_node("unknown frame subcommand '"@ + sub + "'"@)
        }
    } else {
        error_node("frame: expected subcommand and name"@)
    }
}

/// `canvas <name>`.
pub open spec fn spec_canvas(ts: Seq<SpecToken>) -> Seq<SpecASTNode> {
    if ts.len() > 0 && ts[0] is Word {
        seq![SpecASTNode::Canvas(ts[0]->Word_0)]
    } else {
        error_node("canvas: no name"@)
    }
}

/// `layer <name>`.
pub open spec fn spec_layer(ts: Seq<SpecToken>) -> Seq<SpecASTNode> {
    if ts.len() > 0 && ts[0] is Word {
        seq![SpecASTNode::Layer(ts[0]->Word_0)]
    } else {
        error_node("layer: no name"@)
    }
}

/// `grid <name> x= y= w= h= cell=`; a grid that parses is remembered.
pub open spec fn spec_grid(ts: Seq<SpecToken>, g: GridMap) -> (Seq<SpecASTNode>, GridMap) {
    if ts.len() > 0 && ts[0] is Word {
        let name = ts[0]->Word_0;
        let p = spec_params(ts.drop_first(), Map::empty());
        match first_error(p, grid_rules()) {
            Some(e) => (error_node("grid "@ + e), g),
            None => (
                seq![
                    SpecASTNode::Grid(
                        SpecGridNode {
                            name,
                            x: spec_required::<Scalar>(p, "x"@)->Ok_0,
                            y: spec_required::<Scalar>(p, "y"@)->Ok_0,
                            w: spec_required::<u32>(p, "w"@)->Ok_0,
                            h: spec_required::<u32>(p, "h"@)->Ok_0,
                            cell: spec_required::<Scalar>(p, "cell"@)->Ok_0,
                        },
                    ),
                ],
                g.insert(
                    name,
                    SpecGrid { name, origin_x: p["x"@], origin_y: p["y"@], cell_size: p["cell"@] },
                ),
            ),
        }
    } else {
        (error_node("grid: no name"@), g)
    }
}

/// `draw line x1= y1= x2= y2= [color=] [thickness=]`; `stroke_color` and
/// `stroke_width` are read too, and give way to `color` and `thickness`.
pub open spec fn spec_line(ts: Seq<SpecToken>) -> Seq<SpecASTNode> {
    let p = spec_params(ts, Map::empty());
    match first_error(p, line_rules()) {
        Some(e) => error_node("line: "@ + e),
        None => draw_node(
            SpecPrimitive::Line {
                x1: spec_required::<Scalar>(p, "x1"@)->Ok_0,
                y1: spec_required::<Scalar>(p, "y1"@)->Ok_0,
                x2: spec_required::<Scalar>(p, "x2"@)->Ok_0,
                y2: spec_required::<Scalar>(p, "y2"@)->Ok_0,
                stroke_color: either(
                    spec_optional::<String>(p, "color"@)->Ok_0,
                    spec_optional::<String>(p, "stroke_color"@)->Ok_0,
                ),
                stroke_width: either(
                    spec_optional::<Scalar>(p, "thickness"@)->Ok_0,
                    spec_optional::<Scalar>(p, "stroke_width"@)->Ok_0,
                ),
            },
        ),
    }
}

/// `draw circle x= y= r= [color=] [thickness=] [fill_color=]`; `stroke_color`
/// and `stroke_width` are read too, and give way to `color` and `thickness`.
pub open spec fn spec_circle(ts: Seq<SpecToken>) -> Seq<SpecASTNode> {
    let p = spec_params(ts, Map::empty());
    match first_error(p, circle_rules()) {
        Some(e) => error_node("circle: "@ + e),
        None => draw_node(
            SpecPrimitive::Circle {
                x: spec_required::<Scalar>(p, "x"@)->Ok_0,
                y: spec_required::<Scalar>(p, "y"@)->Ok_0,
                r: spec_required::<Scalar>(p, "r"@)->Ok_0,
                stroke_color: either(
                    spec_optional::<String>(p, "color"@)->Ok_0,
                    spec_optional::<String>(p, "stroke_color"@)->Ok_0,
                ),
                stroke_width: either(
                    spec_optional::<Scalar>(p, "thickness"@)->Ok_0,
                    spec_optional::<Scalar>(p, "stroke_width"@)->Ok_0,
                ),
                fill_color: spec_optional::<String>(p, "fill_color"@)->Ok_0,
            },
        ),
    }
}

/// `draw rectangle x= y= w= h= [color=] [thickness=] [fill_color=]` (also
/// `draw rect`); `stroke_color` and `stroke_width` are read too, and give way
/// to `color` and `thickness`.
pub open spec fn spec_rect(ts: Seq<SpecToken>) -> Seq<SpecASTNode> {
    let p = spec_params(ts, Map::empty());
    match first_error(p, rect_rules()) {
        Some(e) => error_node("rect: "@ + e),
        None => draw_node(
            SpecPrimitive::Rectangle {
                x: spec_required::<Scalar>(p, "x"@)->Ok_0,
                y: spec_required::<Scalar>(p, "y"@)->Ok_0,
                w: spec_required::<Scalar>(p, "w"@)->Ok_0,
                h: spec_required::<Scalar>(p, "h"@)->Ok_0,
                stroke_color: either(
                    spec_optional::<String>(p, "color"@)->Ok_0,
                    spec_optional::<String>(p, "stroke_color"@)->Ok_0,
                ),
                stroke_width: either(
                    spec_optional::<Scalar>(p, "thickness"@)->Ok_0,
                    spec_optional::<Scalar>(p, "stroke_width"@)->Ok_0,
                ),
                fill_color: spec_optional::<String>(p, "fill_color"@)->Ok_0,
            },
        ),
    }
}

/// `draw cell x= y= grid= [stroke_color=] [stroke_width=] [fill_color=]`: the
/// square of cell `(x, y)` of a known grid, filled (black unless given) and
/// without a stroke unless a width is given.
pub open spec fn spec_cell(ts: Seq<SpecToken>, g: GridMap) -> Seq<SpecASTNode> {
    let p = spec_params(ts, Map::empty());
    match first_error(p, cell_rules()) {
        Some(e) => error_node("cell: "@ + e),
        None => {
            let grid_name = p["grid"@];
            if g.dom().contains(grid_name) {
                let grid = g[grid_name];
                draw_node(
                    SpecPrimitive::Rectangle {
                        x: SpecScalar::GridOffset {
                            origin: grid.origin_x,
                            index: p["x"@],
                            cell: grid.cell_size,
                        },
                        y: SpecScalar::GridOffset {
                            origin: grid.origin_y,
                            index: p["y"@],
                            cell: grid.cell_size,
                        },
                        w: SpecScalar::Literal(grid.cell_size),
                        h: SpecScalar::Literal(grid.cell_size),
                        stroke_color: spec_optional::<String>(p, "stroke_color"@)->Ok_0,
                        stroke_width: Some(
                            match spec_optional::<Scalar>(p, "stroke_width"@)->Ok_0 {
                                Some(w) => w,
                                None => SpecScalar::Literal("0.0"@),
                            },
                        ),
                        fill_color: Some(
                            match spec_optional::<String>(p, "fill_color"@)->Ok_0 {
                                Some(c) => c,
                                None => "black"@,
                            },
                        ),
                    },
                )
            } else {
                error_node("cell: no grid with name: "@ + grid_name)
            }
        },
    }
}

/// `draw <primitive> ...`; a name that is not a primitive yields nothing.
pub open spec fn spec_draw(ts: Seq<SpecToken>, g: GridMap) -> Seq<SpecASTNode> {
    if ts.len() > 0 && ts[0] is Word {
        let id = ts[0]->Word_0;
        let rest = ts.drop_first();
        if id == "line"@ {
            spec_line(rest)
        } else if id == "circle"@ {
            spec_circle(rest)
        } else if id == "rect"@ || id == "rectangle"@ {
            spec_rect(rest)
        } else if id == "cell"@ {
            spec_cell(rest, g)
        } else {
            Seq::empty()
        }
    } else {
        error_node("draw: missing name of shape or primitive"@)
    }
}

/// The nodes of a tokenized line by its command word, and the grids after it.
pub open spec fn spec_command(ts: Seq<SpecToken>, g: GridMap) -> (Seq<SpecASTNode>, GridMap) {
    if ts.len() > 0 && ts[0] is Word {
        let cmd = ts[0]->Word_0;
        let rest = ts.drop_first();
        if cmd == "frame"@ {
            (spec_frame(rest), g)
        } else if cmd == "canvas"@ {
            (spec_canvas(rest), g)
        } else if cmd == "layer"@ {
            (spec_layer(rest), g)
        } else if cmd == "shape"@ || cmd == "entity"@ {
            (Seq::empty(), g)
        } else if cmd == "grid"@ {
            spec_grid(rest, g)
        } else if cmd == "draw"@ {
            (spec_draw(rest, g), g)
        } else {
            (Seq::empty(), g)
        }
    } else {
        (Seq::empty(), g)
    }
}

/// The message for a line that yields no node.
pub open spec fn empty_line_message(line: Seq<char>) -> Seq<char> {
    "Could not parse: "@ + line + " (empty)"@
}

/// A line yields the nodes of its command; a line that would yield none
/// yields one error node instead.
pub open spec fn spec_parse_line(line: Seq<char>, g: GridMap) -> (Seq<SpecASTNode>, GridMap) {
    let (nodes, g2) = spec_command(spec_tokenize(line), g);
    if nodes.len() == 0 {
        (error_node(empty_line_message(line)), g2)
    } else {
        (nodes, g2)
    }
}

// ---------------------------------------------------------------------------
// Lines (`str::lines`)
// ---------------------------------------------------------------------------

/// `t` without one trailing carriage return.
pub open spec fn strip_cr(t: Seq<char>) -> Seq<char> {
    if t.len() > 0 && t.last() == '\r' {
        t.drop_last()
    } else {
        t
    }
}

/// `str::lines`: the text split at each `\n`, a `\r` right before a `\n`
/// dropped, and no empty last line after a final `\n`.
pub open spec fn spec_lines(s: Seq<char>) -> Seq<Seq<char>>
    decreases s.len(),
{
    if s.len() == 0 {
        Seq::empty()
    } else {
        let i = first_index(s, '\n') as int;
        if i >= s.len() {
            seq![s]
        } else {
            seq![strip_cr(s.take(i))] + spec_lines(s.skip(i + 1))
        }
    }
}

/// The lines of a text.
pub fn split_lines(text: &str) -> (r: Vec<String>)
    ensures
        r@.map_values(|l: String| l@) == spec_lines(text@),
{
    let cs = chars_of(text);
    let n = cs.len();
    let mut out: Vec<String> = Vec::new();
    let mut start: usize = 0;
    assert(cs@.skip(0) =~= cs@);
    while start < n
        invariant
            start <= n == cs@.len(),
            cs@ == text@,
            out@.map_values(|l: String| l@) + spec_lines(cs@.skip(start as int)) == spec_lines(
                text@,
            ),
        decreases n - start,
    {
        let ghost rest = cs@.skip(start as int);
        let ghost before = out@.map_values(|l: String| l@);
        let mut end = start;
        while end < n && cs[end] != '\n'
            invariant
                start <= end <= n == cs@.len(),
                forall|j: int| start <= j < end ==> cs@[j] != '\n',
            decreases n - end,
        {
            end += 1;
        }
        proof {
            lemma_first_index(rest, '\n');
            let fi = first_index(rest, '\n') as int;
            if fi < end - start {
                assert(rest[fi] == cs@[start + fi]);
            }
            if end < n {
                assert(rest[end - start] == cs@[end as int]);
            }
            assert(fi == end - start);
        }
        if end == n {
            let line = string_of(&cs, start, n);
            assert(line@ =~= rest);
            out.push(line);
            assert(out@.map_values(|l: String| l@) =~= before.push(rest));
            assert(cs@.skip(n as int) =~= Seq::<char>::empty());
            assert(before + seq![rest] =~= before.push(rest));
            start = n;
        } else {
            let stop = if end > start && cs[end - 1] == '\r' {
                end - 1
            } else {
                end
            };
            let line = string_of(&cs, start, stop);
            let ghost piece = rest.take(end - start);
            proof {
                if end > start {
                    assert(piece.last() == cs@[end - 1]);
                }
                assert(line@ =~= strip_cr(piece));
            }
            out.push(line);
            assert(rest.skip(end - start + 1) =~= cs@.skip(end + 1));
            assert(out@.map_values(|l: String| l@) =~= before.push(strip_cr(piece)));
            assert(before.push(strip_cr(piece)) + spec_lines(cs@.skip(end + 1)) =~= before + (
            seq![strip_cr(piece)] + spec_lines(cs@.skip(end + 1))));
            start = end + 1;
        }
    }
    assert(out@.map_values(|l: String| l@) + spec_lines(cs@.skip(start as int)) =~= out@.map_values(
        |l: String| l@,
    ));
    out
}

// ---------------------------------------------------------------------------
// The parsers
// ---------------------------------------------------------------------------

/// One error node with the message `prefix + e`.
fn fail(prefix: &str, e: String) -> (nodes: Vec<ASTNode>)
    ensures
        nodes_view(nodes@) == error_node(prefix@ + e@),
{
    let mut nodes: Vec<ASTNode> = Vec::new();
    let msg = concat(prefix, e.as_str());
    push_err(&mut nodes, msg);
    assert(nodes_view(nodes@) =~= error_node(prefix@ + e@));
    nodes
}

/// One node.
fn single(node: ASTNode) -> (nodes: Vec<ASTNode>)
    ensures
        nodes_view(nodes@) == seq![node@],
{
    let mut nodes: Vec<ASTNode> = Vec::new();
    nodes.push(node);
    assert(nodes_view(nodes@) =~= seq![node@]);
    nodes
}

/// The text of a scalar read as a float literal.
fn literal_text(s: Scalar) -> (t: String)
    requires
        s@ is Literal,
    ensures
        SpecScalar::Literal(t@) == s@,
{
    match s {
        Scalar::Literal(t) => t,
        Scalar::GridOffset { .. } => {
            proof {
                assert(false);
            }
            String::new()
        },
    }
}

fn parse_primitive_line(tokens: &[Token]) -> (nodes: Vec<ASTNode>)
    ensures
        nodes_view(nodes@) == spec_line(tokens_view(tokens@)),
{
    let params = parse_params(tokens);
    let ghost p = params@;
    let ghost rules = line_rules();
    proof {
        lemma_rules_in_order(p, rules);
    }
    let x1 = match parse_required::<Scalar>(&params, "x1") {
        Ok(v) => v,
        Err(e) => return fail("line: ", e),
    };
    let y1 = match parse_required::<Scalar>(&params, "y1") {
        Ok(v) => v,
        Err(e) => return fail("line: ", e),
    };
    let x2 = match parse_required::<Scalar>(&params, "x2") {
        Ok(v) => v,
        Err(e) => return fail("line: ", e),
    };
    let y2 = match parse_required::<Scalar>(&params, "y2") {
        Ok(v) => v,
        Err(e) => return fail("line: ", e),
    };
    let stroke_color = match parse_optional::<String>(&params, "stroke_color") {
        Ok(v) => v,
        Err(e) => return fail("line: ", e),
    };
    let color = match parse_optional::<String>(&params, "color") {
        Ok(v) => v,
        Err(e) => return fail("line: ", e),
    };
    let stroke_width = match parse_optional::<Scalar>(&params, "stroke_width") {
        Ok(v) => v,
        Err(e) => return fail("line: ", e),
    };
    let thickness = match parse_optional::<Scalar>(&params, "thickness") {
        Ok(v) => v,
        Err(e) => return fail("line: ", e),
    };
    let stroke_color = match color {
        Some(c) => Some(c),
        None => stroke_color,
    };
    let stroke_width = match thickness {
        Some(t) => Some(t),
        None => stroke_width,
    };
    single(ASTNode::Draw(DrawNode::Primitive(Primitive::Line { x1, y1, x2, y2, stroke_color, stroke_width })))
}

fn parse_primitive_circle(tokens: &[Token]) -> (nodes: Vec<ASTNode>)
    ensures
        nodes_view(nodes@) == spec_circle(tokens_view(tokens@)),
{
    let params = parse_params(tokens);
    let ghost p = params@;
    let ghost rules = circle_rules();
    proof {
        lemma_rules_in_order(p, rules);
    }
    let x = match parse_required::<Scalar>(&params, "x") {
        Ok(v) => v,
        Err(e) => return fail("circle: ", e),
    };
    let y = match parse_required::<Scalar>(&params, "y") {
        Ok(v) => v,
        Err(e) => return fail("circle: ", e),
    };
    let r = match parse_required::<Scalar>(&params, "r") {
        Ok(v) => v,
        Err(e) => return fail("circle: ", e),
    };
    let stroke_color = match parse_optional::<String>(&params, "stroke_color") {
        Ok(v) => v,
        Err(e) => return fail("circle: ", e),
    };
    let color = match parse_optional::<String>(&params, "color") {
        Ok(v) => v,
        Err(e) => return fail("circle: ", e),
    };
    let stroke_width = match parse_optional::<Scalar>(&params, "stroke_width") {
        Ok(v) => v,
        Err(e) => return fail("circle: ", e),
    };
    let thickness = match parse_optional::<Scalar>(&params, "thickness") {
        Ok(v) => v,
        Err(e) => return fail("circle: ", e),
    };
    let fill_color = match parse_optional::<String>(&params, "fill_color") {
        Ok(v) => v,
        Err(e) => return fail("circle: ", e),
    };
    let stroke_color = match color {
        Some(c) => Some(c),
        None => stroke_color,
    };
    let stroke_width = match thickness {
        Some(t) => Some(t),
        None => stroke_width,
    };
    single(ASTNode::Draw(DrawNode::Primitive(Primitive::Circle { x, y, r, stroke_color, stroke_width, fill_color })))
}

fn parse_primitive_rectangle(tokens: &[Token]) -> (nodes: Vec<ASTNode>)
    ensures
        nodes_view(nodes@) == spec_rect(tokens_view(tokens@)),
{
    let params = parse_params(tokens);
    let ghost p = params@;
    let ghost rules = rect_rules();
    proof {
        lemma_rules_in_order(p, rules);
    }
    let x = match parse_required::<Scalar>(&params, "x") {
        Ok(v) => v,
        Err(e) => return fail("rect: ", e),
    };
    let y = match parse_required::<Scalar>(&params, "y") {
        Ok(v) => v,
        Err(e) => return fail("rect: ", e),
    };
    let w = match parse_required::<Scalar>(&params, "w") {
        Ok(v) => v,
        Err(e) => return fail("rect: ", e),
    };
    let h = match parse_required::<Scalar>(&params, "h") {
        Ok(v) => v,
        Err(e) => return fail("rect: ", e),
    };
    let stroke_color = match parse_optional::<String>(&params, "stroke_color") {
        Ok(v) => v,
        Err(e) => return fail("rect: ", e),
    };
    let color = match parse_optional::<String>(&params, "color") {
        Ok(v) => v,
        Err(e) => return fail("rect: ", e),
    };
    let stroke_width = match parse_optional::<Scalar>(&params, "stroke_width") {
        Ok(v) => v,
        Err(e) => return fail("rect: ", e),
    };
    let thickness = match parse_optional::<Scalar>(&params, "thickness") {
        Ok(v) => v,
        Err(e) => return fail("rect: ", e),
    };
    let fill_color = match parse_optional::<String>(&params, "fill_color") {
        Ok(v) => v,
        Err(e) => return fail("rect: ", e),
    };
    let stroke_color = match color {
        Some(c) => Some(c),
        None => stroke_color,
    };
    let stroke_width = match thickness {
        Some(t) => Some(t),
        None => stroke_width,
    };
    single(ASTNode::Draw(DrawNode::Primitive(Primitive::Rectangle { x, y, w, h, stroke_color, stroke_width, fill_color })))
}

fn parse_primitive_cell(tokens: &[Token], ctx: &ParserContext) -> (nodes: Vec<ASTNode>)
    requires
        ctx.wf(),
    ensures
        nodes_view(nodes@) == spec_cell(tokens_view(tokens@), ctx@),
{
    let params = parse_params(tokens);
    let ghost p = params@;
    let ghost rules = cell_rules();
    proof {
        lemma_rules_in_order(p, rules);
    }
    let x = match parse_required::<Scalar>(&params, "x") {
        Ok(v) => v,
        Err(e) => return fail("cell: ", e),
    };
    let y = match parse_required::<Scalar>(&params, "y") {
        Ok(v) => v,
        Err(e) => return fail("cell: ", e),
    };
    let grid_name = match parse_required::<String>(&params, "grid") {
        Ok(v) => v,
        Err(e) => return fail("cell: ", e),
    };
    let stroke_color = match parse_optional::<String>(&params, "stroke_color") {
        Ok(v) => v,
        Err(e) => return fail("cell: ", e),
    };
    let stroke_width = match parse_optional::<Scalar>(&params, "stroke_width") {
        Ok(v) => v,
        Err(e) => return fail("cell: ", e),
    };
    let fill_color = match parse_optional::<String>(&params, "fill_color") {
        Ok(v) => v,
        Err(e) => return fail("cell: ", e),
    };
    let grid = match ctx.grids.get(grid_name.as_str()) {
        Some(v) => v,
        None => {
            return fail("cell: no grid with name: ", grid_name);
        },
    };
    // Overwrite default as we'd usually like fill, but no strokes (unless specified)
    let fill_color = match fill_color {
        Some(color) => color,
        None => "black".to_string(),
    };
    let stroke_width = match stroke_width {
        Some(width) => width,
        None => Scalar::Literal("0.0".to_string()),
    };
    let x = literal_text(x);
    let y = literal_text(y);
    let rect = Primitive::Rectangle {
        x: Scalar::GridOffset {
            origin: grid.origin_x.clone(),
            index: x,
            cell: grid.cell_size.clone(),
        },
        y: Scalar::GridOffset {
            origin: grid.origin_y.clone(),
            index: y,
            cell: grid.cell_size.clone(),
        },
        w: Scalar::Literal(grid.cell_size.clone()),
        h: Scalar::Literal(grid.cell_size.clone()),
        stroke_color,
        stroke_width: Some(stroke_width),
        fill_color: Some(fill_color),
    };
    single(ASTNode::Draw(DrawNode::Primitive(rect)))
}

/// Drawing a defined shape by name yields no node.
fn parse_draw_shape(name: &String, tokens: &[Token]) -> (nodes: Vec<ASTNode>)
    ensures
        nodes@.len() == 0,
{
    Vec::new()
}

fn parse_draw(tokens: &[Token], ctx: &ParserContext) -> (nodes: Vec<ASTNode>)
    requires
        ctx.wf(),
    ensures
        nodes_view(nodes@) == spec_draw(tokens_view(tokens@), ctx@),
{
    if tokens.len() > 0 {
        if let Token::Word(id) = &tokens[0] {
            // Send off the remaining tokens.
            let rest = slice_subrange(tokens, 1, tokens.len());
            assert(tokens_view(rest@) =~= tokens_view(tokens@).drop_first());
            if text_is(id, "line") {
                return parse_primitive_line(rest);
            } else if text_is(id, "circle") {
                return parse_primitive_circle(rest);
            } else if text_is(id, "rect") || text_is(id, "rectangle") {
                return parse_primitive_rectangle(rest);
            } else if text_is(id, "cell") {
                return parse_primitive_cell(rest, ctx);
            } else {
                let nodes = parse_draw_shape(id, rest);
                assert(nodes_view(nodes@) =~= Seq::<SpecASTNode>::empty());
                return nodes;
            }
        }
    }
    fail("draw: missing name of shape or primitive", String::new())
}

/// Parse frame commands.
///
/// # Example
///
/// Frame Set
/// ```bash
/// frame set my_frame x=1 y=2 yaw=90deg
/// ```
///
/// Frame Select
/// ```bash
/// frame select my_frame
/// ```
fn parse_frame(tokens: &[Token]) -> (nodes: Vec<ASTNode>)
    ensures
        nodes_view(nodes@) == spec_frame(tokens_view(tokens@)),
{
    let ghost ts = tokens_view(tokens@);
    if tokens.len() < 2 {
        return fail("frame: expected subcommand and name", String::new());
    }
    assert(ts[0] == tokens@[0]@ && ts[1] == tokens@[1]@);
    let (subcommand, name) = match (&tokens[0], &tokens[1]) {
        (Token::Word(s), Token::Word(n)) => (to_lowercase(s.as_str()), n),
        _ => {
            return fail("frame: expected subcommand and name", String::new());
        },
    };
    let rest = slice_subrange(tokens, 2, tokens.len());
    assert(tokens_view(rest@) =~= ts.skip(2));
    let params = parse_params(rest);
    let ghost p = params@;
    if text_is(&subcommand, "set") {
        let ghost rules = frame_set_rules();
        proof {
            lemma_rules_in_order(p, rules);
        }
        let prefix = concat3("frame set ", name.as_str(), ": ");
        let x = match parse_required::<Scalar>(&params, "x") {
            Ok(v) => v,
            Err(e) => return fail(prefix.as_str(), e),
        };
        let y = match parse_required::<Scalar>(&params, "y") {
            Ok(v) => v,
            Err(e) => return fail(prefix.as_str(), e),
        };
        let yaw = match parse_required::<Angle>(&params, "yaw") {
            Ok(v) => v,
            Err(e) => return fail(prefix.as_str(), e),
        };
        let parent = match parse_optional::<String>(&params, "parent") {
            Ok(v) => v,
            Err(e) => return fail(prefix.as_str(), e),
        };
        single(ASTNode::Frame(FrameNode::Assign { name: name.clone(), x, y, yaw, parent }))
    } else if text_is(&subcommand, "select") {
        single(ASTNode::Frame(FrameNode::Select { name: name.clone() }))
    } else {
        let msg = concat3("unknown frame subcommand '", subcommand.as_str(), "'");
        fail(msg.as_str(), String::new())
    }
}

fn parse_canvas(tokens: &[Token]) -> (nodes: Vec<ASTNode>)
    ensures
        nodes_view(nodes@) == spec_canvas(tokens_view(tokens@)),
{
    if tokens.len() > 0 {
        if let Token::Word(name) = &tokens[0] {
            return single(ASTNode::Canvas(CanvasNode { name: name.clone() }));
        }
    }
    fail("canvas: no name", String::new())
}

fn parse_layer(tokens: &[Token]) -> (nodes: Vec<ASTNode>)
    ensures
        nodes_view(nodes@) == spec_layer(tokens_view(tokens@)),
{
    if tokens.len() > 0 {
        if let Token::Word(name) = &tokens[0] {
            return single(ASTNode::Layer(LayerNode { name: name.clone() }));
        }
    }
    fail("layer: no name", String::new())
}

/// Shape definitions yield no node.
fn parse_shape(tokens: &[Token]) -> (nodes: Vec<ASTNode>)
    ensures
        nodes@.len() == 0,
{
    Vec::new()
}

/// Entity commands yield no node.
fn parse_entity(tokens: &[Token]) -> (nodes: Vec<ASTNode>)
    ensures
        nodes@.len() == 0,
{
    Vec::new()
}

fn parse_grid(tokens: &[Token], ctx: &mut ParserContext) -> (nodes: Vec<ASTNode>)
    requires
        old(ctx).wf(),
    ensures
        final(ctx).wf(),
        (nodes_view(nodes@), final(ctx)@) == spec_grid(tokens_view(tokens@), old(ctx)@),
{
    let ghost ts = tokens_view(tokens@);
    if tokens.len() == 0 {
        return fail("grid: no name", String::new());
    }
    assert(ts[0] == tokens@[0]@);
    let name = match &tokens[0] {
        Token::Word(name) => name,
        _ => {
            return fail("grid: no name", String::new());
        },
    };
    let rest = slice_subrange(tokens, 1, tokens.len());
    assert(tokens_view(rest@) =~= ts.drop_first());
    let params = parse_params(rest);
    let ghost p = params@;
    let ghost rules = grid_rules();
    proof {
        lemma_rules_in_order(p, rules);
    }
    let x = match parse_required::<Scalar>(&params, "x") {
        Ok(v) => v,
        Err(e) => return fail("grid ", e),
    };
    let y = match parse_required::<Scalar>(&params, "y") {
        Ok(v) => v,
        Err(e) => return fail("grid ", e),
    };
    let w = match parse_required::<u32>(&params, "w") {
        Ok(v) => v,
        Err(e) => return fail("grid ", e),
    };
    let h = match parse_required::<u32>(&params, "h") {
        Ok(v) => v,
        Err(e) => return fail("grid ", e),
    };
    let cell = match parse_required::<Scalar>(&params, "cell") {
        Ok(v) => v,
        Err(e) => return fail("grid ", e),
    };
    let origin_x = literal_text(x.duplicate());
    let origin_y = literal_text(y.duplicate());
    let cell_size = literal_text(cell.duplicate());
    let node = ASTNode::Grid(GridNode { name: name.clone(), x, y, w, h, cell });
    // Push grid to context
    ctx.grids.insert(name.clone(), Grid { name: name.clone(), origin_x, origin_y, cell_size });
    single(node)
}

/// The nodes of all lines, in order, with the grids threaded from line to line.
pub open spec fn spec_parse_all(lines: Seq<Seq<char>>, g: GridMap) -> (Seq<SpecASTNode>, GridMap)
    decreases lines.len(),
{
    if lines.len() == 0 {
        (Seq::empty(), g)
    } else {
        let (first, g1) = spec_parse_line(lines[0], g);
        let (others, g2) = spec_parse_all(lines.drop_first(), g1);
        (first + others, g2)
    }
}

/// The nodes of a text of several lines.
pub open spec fn spec_parse_lines(raw: Seq<char>, g: GridMap) -> (Seq<SpecASTNode>, GridMap) {
    spec_parse_all(spec_lines(raw), g)
}

fn parse_command(tokens: &[Token], ctx: &mut ParserContext) -> (nodes: Vec<ASTNode>)
    requires
        old(ctx).wf(),
    ensures
        final(ctx).wf(),
        (nodes_view(nodes@), final(ctx)@) == spec_command(tokens_view(tokens@), old(ctx)@),
{
    if tokens.len() > 0 {
        if let Token::Word(s) = &tokens[0] {
            let rest = slice_subrange(tokens, 1, tokens.len());
            assert(tokens_view(rest@) =~= tokens_view(tokens@).drop_first());
            if text_is(s, "frame") {
                return parse_frame(rest);
            } else if text_is(s, "canvas") {
                return parse_canvas(rest);
            } else if text_is(s, "layer") {
                return parse_layer(rest);
            } else if text_is(s, "shape") {
                let nodes = parse_shape(rest);
                assert(nodes_view(nodes@) =~= Seq::<SpecASTNode>::empty());
                return nodes;
            } else if text_is(s, "entity") {
                let nodes = parse_entity(rest);
                assert(nodes_view(nodes@) =~= Seq::<SpecASTNode>::empty());
                return nodes;
            } else if text_is(s, "grid") {
                return parse_grid(rest, ctx);
            } else if text_is(s, "draw") {
                return parse_draw(rest, ctx);
            }
        }
    }
    let nodes: Vec<ASTNode> = Vec::new();
    assert(nodes_view(nodes@) =~= Seq::<SpecASTNode>::empty());
    nodes
}

/// Parses one line of the language.
///
/// A line that yields no node (an unknown command, for instance) yields one
/// error node instead, so the result is never empty.
pub fn parse_line(line: &str, ctx: &mut ParserContext) -> (nodes: Vec<ASTNode>)
    requires
        old(ctx).wf(),
    ensures
        final(ctx).wf(),
        (nodes_view(nodes@), final(ctx)@) == spec_parse_line(line@, old(ctx)@),
        nodes@.len() > 0,
{
    let tokens = tokenizer(line);
    let mut parsed_line = parse_command(tokens.as_slice(), ctx);
    if parsed_line.len() == 0 {
        let msg = concat3("Could not parse: ", line, " (empty)");
        push_err(&mut parsed_line, msg);
        assert(nodes_view(parsed_line@) =~= error_node(empty_line_message(line@)));
    }
    parsed_line
}

/// Parses each line of a text, in order, with one context.
pub fn parse_lines(raw: &str, ctx: &mut ParserContext) -> (nodes: Vec<ASTNode>)
    requires
        old(ctx).wf(),
    ensures
        final(ctx).wf(),
        (nodes_view(nodes@), final(ctx)@) == spec_parse_lines(raw@, old(ctx)@),
{
    let lines = split_lines(raw);
    let ghost ls = lines@.map_values(|l: String| l@);
    let mut tokens: Vec<ASTNode> = vec![];
    let mut k: usize = 0;
    assert(ls.skip(0) =~= ls);
    while k < lines.len()
        invariant
            k <= lines@.len() == ls.len(),
            ls == lines@.map_values(|l: String| l@),
            ls == spec_lines(raw@),
            ctx.wf(),
            spec_parse_lines(raw@, old(ctx)@) == (
                nodes_view(tokens@) + spec_parse_all(ls.skip(k as int), ctx@).0,
                spec_parse_all(ls.skip(k as int), ctx@).1,
            ),
        decreases lines.len() - k,
    {
        let ghost before = nodes_view(tokens@);
        let ghost g = ctx@;
        let mut line_tokens = parse_line(lines[k].as_str(), ctx);
        proof {
            let rest = ls.skip(k as int);
            assert(rest[0] == lines@[k as int]@);
            assert(rest.drop_first() =~= ls.skip(k + 1));
        }
        let ghost added = nodes_view(line_tokens@);
        tokens.append(&mut line_tokens);
        assert(nodes_view(tokens@) =~= before + added);
        assert(before + added + spec_parse_all(ls.skip(k + 1), ctx@).0 =~= before + (added
            + spec_parse_all(ls.skip(k + 1), ctx@).0));
        k += 1;
    }
    assert(ls.skip(k as int) =~= Seq::<Seq<char>>::empty());
    assert(nodes_view(tokens@) + Seq::<SpecASTNode>::empty() =~= nodes_view(tokens@));
    tokens
}

/// Parsing a text whose first line is `a` is parsing `a` and then the rest
/// with the grids that `a` left: lines are parsed one after the other, each
/// with the context of those before it. (A `\r` at the end of `a` belongs to
/// the line ending.)
pub proof fn law_first_line_then_rest(a: Seq<char>, b: Seq<char>, g: GridMap)
    requires
        forall|i: int| 0 <= i < a.len() ==> a[i] != '\n',
    ensures
        ({
            let (first, g1) = spec_parse_line(strip_cr(a), g);
            let (rest, g2) = spec_parse_lines(b, g1);
            spec_parse_lines(a + seq!['\n'] + b, g) == (first + rest, g2)
        }),
{
    let s = a + seq!['\n'] + b;
    lemma_first_index(s, '\n');
    let fi = first_index(s, '\n') as int;
    if fi < a.len() {
        assert(s[fi] == a[fi]);
    }
    assert(s[a.len() as int] == '\n');
    assert(fi == a.len());
    assert(s.take(fi) =~= a);
    assert(s.skip(fi + 1) =~= b);
    let ls = spec_lines(s);
    assert(ls[0] == strip_cr(a));
    assert(ls.drop_first() =~= spec_lines(b));
}

/// The rectangle of cell `(x, y)` on a grid with origin `(ox, oy)` and cell
/// size `cell`: corner at `origin + index * cell` on each axis, side `cell`.
pub open spec fn cell_square(
    ox: Seq<char>,
    oy: Seq<char>,
    cell: Seq<char>,
    x: Seq<char>,
    y: Seq<char>,
    cp: Map<Seq<char>, Seq<char>>,
) -> SpecPrimitive {
    SpecPrimitive::Rectangle {
        x: SpecScalar::GridOffset { origin: ox, index: x, cell },
        y: SpecScalar::GridOffset { origin: oy, index: y, cell },
        w: SpecScalar::Literal(cell),
        h: SpecScalar::Literal(cell),
        stroke_color: spec_optional::<String>(cp, "stroke_color"@)->Ok_0,
        stroke_width: Some(
            match spec_optional::<Scalar>(cp, "stroke_width"@)->Ok_0 {
                Some(w) => w,
                None => SpecScalar::Literal("0.0"@),
            },
        ),
        fill_color: Some(
            match spec_optional::<String>(cp, "fill_color"@)->Ok_0 {
                Some(c) => c,
                None => "black"@,
            },
        ),
    }
}

/// A cell is drawn on the grid that a `grid` command defined: after
/// `grid <name> ...` succeeds, `draw cell ... grid=<name>` whose parameters
/// parse gives the square of that cell, placed by the grid's origin and cell
/// size, and leaves the known grids as they were.
pub proof fn law_cell_on_defined_grid(grid_args: Seq<SpecToken>, cell_args: Seq<SpecToken>, g: GridMap)
    requires
        grid_args.len() > 0,
        grid_args[0] is Word,
        first_error(spec_params(grid_args.drop_first(), Map::empty()), grid_rules()) is None,
        first_error(spec_params(cell_args, Map::empty()), cell_rules()) is None,
        spec_params(cell_args, Map::empty())["grid"@] == grid_args[0]->Word_0,
    ensures
        ({
            let gp = spec_params(grid_args.drop_first(), Map::empty());
            let cp = spec_params(cell_args, Map::empty());
            let grid_line = seq![SpecToken::Word("grid"@)] + grid_args;
            let cell_line = seq![SpecToken::Word("draw"@), SpecToken::Word("cell"@)] + cell_args;
            let g1 = spec_command(grid_line, g).1;
            spec_command(cell_line, g1) == (
                draw_node(cell_square(gp["x"@], gp["y"@], gp["cell"@], cp["x"@], cp["y"@], cp)),
                g1,
            )
        }),
{
    reveal_strlit("grid");
    reveal_strlit("draw");
    reveal_strlit("cell");
    reveal_strlit("frame");
    reveal_strlit("canvas");
    reveal_strlit("layer");
    reveal_strlit("shape");
    reveal_strlit("entity");
    reveal_strlit("line");
    reveal_strlit("circle");
    reveal_strlit("rect");
    reveal_strlit("rectangle");
    let grid_line = seq![SpecToken::Word("grid"@)] + grid_args;
    let cell_line = seq![SpecToken::Word("draw"@), SpecToken::Word("cell"@)] + cell_args;
    assert(grid_line[0] == SpecToken::Word("grid"@));
    assert(grid_line.drop_first() =~= grid_args);
    assert(cell_line[0] == SpecToken::Word("draw"@));
    assert(cell_line.drop_first() =~= seq![SpecToken::Word("cell"@)] + cell_args);
    let draw_args = seq![SpecToken::Word("cell"@)] + cell_args;
    assert(draw_args[0] == SpecToken::Word("cell"@));
    assert(draw_args.drop_first() =~= cell_args);
    let name = grid_args[0]->Word_0;
    let gp = spec_params(grid_args.drop_first(), Map::empty());
    let cp = spec_params(cell_args, Map::empty());
    let grid = SpecGrid { name, origin_x: gp["x"@], origin_y: gp["y"@], cell_size: gp["cell"@] };
    let g1 = g.insert(name, grid);
    assert("grid"@.len() != "frame"@.len());
    assert("grid"@.len() != "canvas"@.len());
    assert("grid"@.len() != "layer"@.len());
    assert("grid"@.len() != "shape"@.len());
    assert("grid"@.len() != "entity"@.len());
    assert(spec_command(grid_line, g) == spec_grid(grid_args, g));
    assert(spec_grid(grid_args, g).1 == g1);
    assert(g1.dom().contains(name) && g1[name] == grid);
    assert(spec_cell(cell_args, g1) == draw_node(
        cell_square(gp["x"@], gp["y"@], gp["cell"@], cp["x"@], cp["y"@], cp),
    ));
    assert("cell"@[0] != "line"@[0] && "cell"@[0] != "rect"@[0]);
    assert("cell"@.len() != "circle"@.len() && "cell"@.len() != "rectangle"@.len());
    assert(spec_draw(draw_args, g1) == spec_cell(cell_args, g1));
    assert("draw"@[0] != "grid"@[0]);
    assert("draw"@.len() != "frame"@.len() && "draw"@.len() != "canvas"@.len());
    assert("draw"@.len() != "layer"@.len() && "draw"@.len() != "shape"@.len());
    assert("draw"@.len() != "entity"@.len());
    assert(spec_command(cell_line, g1) == (spec_draw(draw_args, g1), g1));
}

// ---------------------------------------------------------------------------
// What the drawing and frame commands take from their parameters
// ---------------------------------------------------------------------------

/// The number that the text of parameter `key` reads as.
pub open spec fn number_param(p: Map<Seq<char>, Seq<char>>, key: Seq<char>) -> SpecScalar {
    Scalar::spec_from_param(p[key])->Ok_0
}

/// `color` is the stroke color given by the `color` parameter, else by the
/// `stroke_color` parameter, as written; none when neither is given.
pub open spec fn stroke_color_given(p: Map<Seq<char>, Seq<char>>, color: Option<Seq<char>>) -> bool {
    &&& p.dom().contains("color"@) ==> color == Some(p["color"@])
    &&& !p.dom().contains("color"@) && p.dom().contains("stroke_color"@) ==> color == Some(
        p["stroke_color"@],
    )
    &&& !p.dom().contains("color"@) && !p.dom().contains("stroke_color"@) ==> color is None
}

/// `width` is the stroke width given by the `thickness` parameter, else by the
/// `stroke_width` parameter; none when neither is given.
pub open spec fn stroke_width_given(p: Map<Seq<char>, Seq<char>>, width: Option<SpecScalar>) -> bool {
    &&& p.dom().contains("thickness"@) ==> width == Some(number_param(p, "thickness"@))
    &&& !p.dom().contains("thickness"@) && p.dom().contains("stroke_width"@) ==> width == Some(
        number_param(p, "stroke_width"@),
    )
    &&& !p.dom().contains("thickness"@) && !p.dom().contains("stroke_width"@) ==> width is None
}

/// `fill` is the `fill_color` parameter as written, or none without it.
pub open spec fn fill_given(p: Map<Seq<char>, Seq<char>>, fill: Option<Seq<char>>) -> bool {
    &&& p.dom().contains("fill_color"@) ==> fill == Some(p["fill_color"@])
    &&& !p.dom().contains("fill_color"@) ==> fill is None
}

proof fn lemma_no_rule_fails(p: Map<Seq<char>, Seq<char>>, rules: Seq<ParamRule>)
    requires
        first_error(p, rules) is None,
    ensures
        forall|k: int| 0 <= k < rules.len() ==> #[trigger] rule_error(p, rules[k]) is None,
    decreases rules.len(),
{
    if rules.len() > 0 {
        lemma_no_rule_fails(p, rules.drop_first());
        assert forall|k: int| 0 <= k < rules.len() implies #[trigger] rule_error(p, rules[k]) is None by {
            if k > 0 {
                assert(rules[k] == rules.drop_first()[k - 1]);
            }
        }
    }
}

/// `draw <id> args` is handed to the drawing commands with the grids as they
/// were.
proof fn lemma_draw_command(id: Seq<char>, args: Seq<SpecToken>, g: GridMap)
    ensures
        ({
            let line = seq![SpecToken::Word("draw"@), SpecToken::Word(id)] + args;
            spec_command(line, g) == (spec_draw(seq![SpecToken::Word(id)] + args, g), g)
        }),
        spec_draw(seq![SpecToken::Word(id)] + args, g) == spec_draw(
            seq![SpecToken::Word(id)] + args,
            g,
        ),
        (seq![SpecToken::Word(id)] + args)[0] == SpecToken::Word(id),
        (seq![SpecToken::Word(id)] + args).drop_first() == args,
{
    reveal_strlit("draw");
    reveal_strlit("frame");
    reveal_strlit("canvas");
    reveal_strlit("layer");
    reveal_strlit("shape");
    reveal_strlit("entity");
    reveal_strlit("grid");
    let line = seq![SpecToken::Word("draw"@), SpecToken::Word(id)] + args;
    assert(line[0] == SpecToken::Word("draw"@));
    assert(line.drop_first() =~= seq![SpecToken::Word(id)] + args);
    assert((seq![SpecToken::Word(id)] + args).drop_first() =~= args);
    assert("draw"@[0] != "grid"@[0]);
    assert("draw"@.len() != "frame"@.len() && "draw"@.len() != "canvas"@.len());
    assert("draw"@.len() != "layer"@.len() && "draw"@.len() != "shape"@.len());
    assert("draw"@.len() != "entity"@.len());
}

/// `draw line` takes its end points and its style from the parameters as
/// written: a line whose parameters read gives one line from `(x1, y1)` to
/// `(x2, y2)`, stroked in the color and width that were given (`color` and
/// `thickness` before `stroke_color` and `stroke_width`), and leaves the
/// grids as they were.
pub proof fn law_draw_line_takes_its_parameters(args: Seq<SpecToken>, g: GridMap)
    requires
        first_error(spec_params(args, Map::empty()), line_rules()) is None,
    ensures
        ({
            let p = spec_params(args, Map::empty());
            let out = spec_command(
                seq![SpecToken::Word("draw"@), SpecToken::Word("line"@)] + args,
                g,
            );
            &&& out.1 == g
            &&& out.0.len() == 1
            &&& out.0[0] matches SpecASTNode::Draw(
                SpecDrawNode::Primitive(SpecPrimitive::Line { x1, y1, x2, y2, stroke_color, stroke_width }),
            ) && x1 == number_param(p, "x1"@) && y1 == number_param(p, "y1"@) && x2 == number_param(
                p,
                "x2"@,
            ) && y2 == number_param(p, "y2"@) && stroke_color_given(p, stroke_color)
                && stroke_width_given(p, stroke_width)
        }),
{
    let p = spec_params(args, Map::empty());
    let rules = line_rules();
    lemma_draw_command("line"@, args, g);
    lemma_no_rule_fails(p, rules);
    assert(rule_error(p, rules[0]) is None);
    assert(rule_error(p, rules[1]) is None);
    assert(rule_error(p, rules[2]) is None);
    assert(rule_error(p, rules[3]) is None);
    assert(rule_error(p, rules[4]) is None);
    assert(rule_error(p, rules[5]) is None);
    assert(rule_error(p, rules[6]) is None);
    assert(rule_error(p, rules[7]) is None);
}

/// `draw circle` takes its center, radius and style from the parameters as
/// written: a circle whose parameters read gives one circle at `(x, y)` with
/// radius `r`, in the stroke color and width that were given (`color` and
/// `thickness` before `stroke_color` and `stroke_width`) and the fill color
/// that was given, and leaves the grids as they were.
pub proof fn law_draw_circle_takes_its_parameters(args: Seq<SpecToken>, g: GridMap)
    requires
        first_error(spec_params(args, Map::empty()), circle_rules()) is None,
    ensures
        ({
            let p = spec_params(args, Map::empty());
            let out = spec_command(
                seq![SpecToken::Word("draw"@), SpecToken::Word("circle"@)] + args,
                g,
            );
            &&& out.1 == g
            &&& out.0.len() == 1
            &&& out.0[0] matches SpecASTNode::Draw(
                SpecDrawNode::Primitive(
                    SpecPrimitive::Circle { x, y, r, stroke_color, stroke_width, fill_color },
                ),
            ) && x == number_param(p, "x"@) && y == number_param(p, "y"@) && r == number_param(
                p,
                "r"@,
            ) && stroke_color_given(p, stroke_color) && stroke_width_given(p, stroke_width)
                && fill_given(p, fill_color)
        }),
{
    reveal_strlit("line");
    reveal_strlit("circle");
    let p = spec_params(args, Map::empty());
    let rules = circle_rules();
    lemma_draw_command("circle"@, args, g);
    assert("circle"@.len() != "line"@.len());
    lemma_no_rule_fails(p, rules);
    assert(rule_error(p, rules[0]) is None);
    assert(rule_error(p, rules[1]) is None);
    assert(rule_error(p, rules[2]) is None);
    assert(rule_error(p, rules[3]) is None);
    assert(rule_error(p, rules[4]) is None);
    assert(rule_error(p, rules[5]) is None);
    assert(rule_error(p, rules[6]) is None);
    assert(rule_error(p, rules[7]) is None);
}

/// `draw rect` and `draw rectangle` take the corner, size and style from the
/// parameters as written: a rectangle whose parameters read gives one
/// rectangle at `(x, y)` of size `w` by `h`, in the stroke color and width
/// that were given (`color` and `thickness` before `stroke_color` and
/// `stroke_width`) and the fill color that was given, and leaves the grids as
/// they were.
pub proof fn law_draw_rect_takes_its_parameters(long_name: bool, args: Seq<SpecToken>, g: GridMap)
    requires
        first_error(spec_params(args, Map::empty()), rect_rules()) is None,
    ensures
        ({
            let p = spec_params(args, Map::empty());
            let id = if long_name {
                "rectangle"@
            } else {
                "rect"@
            };
            let out = spec_command(seq![SpecToken::Word("draw"@), SpecToken::Word(id)] + args, g);
            &&& out.1 == g
            &&& out.0.len() == 1
            &&& out.0[0] matches SpecASTNode::Draw(
                SpecDrawNode::Primitive(
                    SpecPrimitive::Rectangle { x, y, w, h, stroke_color, stroke_width, fill_color },
                ),
            ) && x == number_param(p, "x"@) && y == number_param(p, "y"@) && w == number_param(
                p,
                "w"@,
            ) && h == number_param(p, "h"@) && stroke_color_given(p, stroke_color)
                && stroke_width_given(p, stroke_width) && fill_given(p, fill_color)
        }),
{
    reveal_strlit("line");
    reveal_strlit("circle");
    reveal_strlit("rect");
    reveal_strlit("rectangle");
    let p = spec_params(args, Map::empty());
    let rules = rect_rules();
    let id = if long_name {
        "rectangle"@
    } else {
        "rect"@
    };
    lemma_draw_command(id, args, g);
    assert("rect"@[0] != "line"@[0] && "rect"@.len() != "circle"@.len());
    assert("rectangle"@.len() != "line"@.len() && "rectangle"@.len() != "circle"@.len());
    lemma_no_rule_fails(p, rules);
    assert(rule_error(p, rules[0]) is None);
    assert(rule_error(p, rules[1]) is None);
    assert(rule_error(p, rules[2]) is None);
    assert(rule_error(p, rules[3]) is None);
    assert(rule_error(p, rules[4]) is None);
    assert(rule_error(p, rules[5]) is None);
    assert(rule_error(p, rules[6]) is None);
    assert(rule_error(p, rules[7]) is None);
    assert(rule_error(p, rules[8]) is None);
}

/// `frame select <name>` and `frame set <name> ...` keep the name exactly as
/// written (only the subcommand's case is ignored): `select` gives a select
/// node for that name, and `set` whose parameters read gives an assignment
/// to that name at the position, yaw and parent that were given. The grids
/// stay as they were.
pub proof fn law_frame_keeps_its_name(
    sub: Seq<char>,
    name: Seq<char>,
    args: Seq<SpecToken>,
    g: GridMap,
)
    ensures
        ({
            let p = spec_params(args, Map::empty());
            let out = spec_command(
                seq![SpecToken::Word("frame"@), SpecToken::Word(sub), SpecToken::Word(name)] + args,
                g,
            );
            &&& out.1 == g
            &&& lowercase(sub) == "select"@ ==> out.0 == seq![
                SpecASTNode::Frame(SpecFrameNode::Select { name }),
            ]
            &&& (lowercase(sub) == "set"@ && first_error(p, frame_set_rules()) is None) ==> {
                &&& out.0.len() == 1
                &&& out.0[0] matches SpecASTNode::Frame(
                    SpecFrameNode::Assign { name: n, x, y, yaw, parent },
                ) && n == name && x == number_param(p, "x"@) && y == number_param(p, "y"@) && yaw
                    == Angle::spec_from_param(p["yaw"@])->Ok_0 && (p.dom().contains("parent"@)
                    ==> parent == Some(p["parent"@])) && (!p.dom().contains("parent"@)
                    ==> parent is None)
            }
        }),
{
    reveal_strlit("frame");
    reveal_strlit("set");
    reveal_strlit("select");
    let p = spec_params(args, Map::empty());
    let line = seq![SpecToken::Word("frame"@), SpecToken::Word(sub), SpecToken::Word(name)] + args;
    let rest = seq![SpecToken::Word(sub), SpecToken::Word(name)] + args;
    assert(line[0] == SpecToken::Word("frame"@));
    assert(line.drop_first() =~= rest);
    assert(rest[0] == SpecToken::Word(sub) && rest[1] == SpecToken::Word(name));
    assert(rest.skip(2) =~= args);
    assert("set"@.len() != "select"@.len());
    if lowercase(sub) == "set"@ && first_error(p, frame_set_rules()) is None {
        let rules = frame_set_rules();
        lemma_no_rule_fails(p, rules);
        assert(rule_error(p, rules[0]) is None);
        assert(rule_error(p, rules[1]) is None);
        assert(rule_error(p, rules[2]) is None);
    }
}

/// `grid <name> ...` whose parameters read gives one grid node with that name
/// and the origin, size and cell size that were given, and remembers the grid
/// under its name (replacing one of the same name) with the other grids as
/// they were.
pub proof fn law_grid_takes_its_parameters(name: Seq<char>, args: Seq<SpecToken>, g: GridMap)
    requires
        first_error(spec_params(args, Map::empty()), grid_rules()) is None,
    ensures
        ({
            let p = spec_params(args, Map::empty());
            let out = spec_command(seq![SpecToken::Word("grid"@), SpecToken::Word(name)] + args, g);
            &&& out.0 == seq![
                SpecASTNode::Grid(
                    SpecGridNode {
                        name,
                        x: number_param(p, "x"@),
                        y: number_param(p, "y"@),
                        w: u32::spec_from_param(p["w"@])->Ok_0,
                        h: u32::spec_from_param(p["h"@])->Ok_0,
                        cell: number_param(p, "cell"@),
                    },
                ),
            ]
            &&& out.1.dom() == g.dom().insert(name)
            &&& out.1[name] == SpecGrid {
                name,
                origin_x: p["x"@],
                origin_y: p["y"@],
                cell_size: p["cell"@],
            }
            &&& forall|k: Seq<char>| k != name && #[trigger] g.dom().contains(k) ==> out.1[k] == g[k]
        }),
{
    reveal_strlit("grid");
    reveal_strlit("frame");
    reveal_strlit("canvas");
    reveal_strlit("layer");
    reveal_strlit("shape");
    reveal_strlit("entity");
    let p = spec_params(args, Map::empty());
    let line = seq![SpecToken::Word("grid"@), SpecToken::Word(name)] + args;
    let rest = seq![SpecToken::Word(name)] + args;
    assert(line[0] == SpecToken::Word("grid"@));
    assert(line.drop_first() =~= rest);
    assert(rest[0] == SpecToken::Word(name));
    assert(rest.drop_first() =~= args);
    assert("grid"@.len() != "frame"@.len() && "grid"@.len() != "canvas"@.len());
    assert("grid"@.len() != "layer"@.len() && "grid"@.len() != "shape"@.len());
    assert("grid"@.len() != "entity"@.len());
    let rules = grid_rules();
    lemma_no_rule_fails(p, rules);
    assert(rule_error(p, rules[0]) is None);
    assert(rule_error(p, rules[1]) is None);
    assert(rule_error(p, rules[2]) is None);
    assert(rule_error(p, rules[3]) is None);
    assert(rule_error(p, rules[4]) is None);
    let g1 = spec_command(line, g).1;
    assert(g1.dom() =~= g.dom().insert(name));
}

/// `canvas <name>` and `layer <name>` give one node with the name exactly as
/// written, whatever follows it, and leave the grids as they were.
pub proof fn law_canvas_and_layer_keep_their_name(name: Seq<char>, args: Seq<SpecToken>, g: GridMap)
    ensures
        spec_command(seq![SpecToken::Word("canvas"@), SpecToken::Word(name)] + args, g) == (
            seq![SpecASTNode::Canvas(name)],
            g,
        ),
        spec_command(seq![SpecToken::Word("layer"@), SpecToken::Word(name)] + args, g) == (
            seq![SpecASTNode::Layer(name)],
            g,
        ),
{
    reveal_strlit("frame");
    reveal_strlit("canvas");
    reveal_strlit("layer");
    let c = seq![SpecToken::Word("canvas"@), SpecToken::Word(name)] + args;
    let l = seq![SpecToken::Word("layer"@), SpecToken::Word(name)] + args;
    assert(c[0] == SpecToken::Word("canvas"@));
    assert(l[0] == SpecToken::Word("layer"@));
    assert(c.drop_first()[0] == SpecToken::Word(name));
    assert(l.drop_first()[0] == SpecToken::Word(name));
    assert("canvas"@.len() != "frame"@.len());
    assert("layer"@[0] != "frame"@[0] && "layer"@.len() != "canvas"@.len());
}

} // verus!
