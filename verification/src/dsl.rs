//! A simpler, space-separated command format (`color <name> <hex>`,
//! `line <x1> <y1> <x2> <y2>`).
use vstd::prelude::*;
use vstd::utf8::encode_utf8;

use crate::color::{hex_cuttable, spec_from_hex, Color};
use crate::numbers::{float_literal_chars, is_float_literal, Scalar, SpecScalar};
use crate::params::TextMap;
use crate::text::{chars_of, first_index, lemma_first_index, string_of, text_is};

verus! {

#[derive(Clone, Debug)]
pub enum Op {
    Grid { width: u32, height: u32 },
    Cell { x: u32, y: u32 },
    Rect { x: Scalar, y: Scalar, w: Scalar, h: Scalar },
    Line { x1: Scalar, y1: Scalar, x2: Scalar, y2: Scalar },
    Color { color: Color },
    Clear,
}

pub enum SpecOp {
    Grid { width: u32, height: u32 },
    Cell { x: u32, y: u32 },
    Rect { x: SpecScalar, y: SpecScalar, w: SpecScalar, h: SpecScalar },
    Line { x1: SpecScalar, y1: SpecScalar, x2: SpecScalar, y2: SpecScalar },
    Color { color: Color },
    Clear,
}

impl View for Op {
    type V = SpecOp;

    open spec fn view(&self) -> SpecOp {
        match self {
            Op::Grid { width, height } => SpecOp::Grid { width: *width, height: *height },
            Op::Cell { x, y } => SpecOp::Cell { x: *x, y: *y },
            Op::Rect { x, y, w, h } => SpecOp::Rect { x: x@, y: y@, w: w@, h: h@ },
            Op::Line { x1, y1, x2, y2 } => SpecOp::Line { x1: x1@, y1: y1@, x2: x2@, y2: y2@ },
            Op::Color { color } => SpecOp::Color { color: *color },
            Op::Clear => SpecOp::Clear,
        }
    }
}

/// The views of a sequence of operations.
pub open spec fn ops_view(ops: Seq<Op>) -> Seq<SpecOp> {
    ops.map_values(|o: Op| o@)
}

/// The named colors defined so far.
#[derive(Clone)]
pub struct ParserContext {
    colors: TextMap<Color>,
}

impl View for ParserContext {
    type V = Map<Seq<char>, Color>;

    closed spec fn view(&self) -> Map<Seq<char>, Color> {
        self.colors@
    }
}

impl ParserContext {
    pub closed spec fn wf(&self) -> bool {
        self.colors.wf()
    }
}

impl Default for ParserContext {
    /// No colors.
    fn default() -> (r: ParserContext)
        ensures
            r.wf(),
            r@ == Map::<Seq<char>, Color>::empty(),
    {
        ParserContext { colors: TextMap::new() }
    }
}

/// `str::split(" ")`: the pieces between single spaces (empty pieces too).
pub open spec fn split_at_spaces(s: Seq<char>) -> Seq<Seq<char>>
    decreases s.len(),
{
    let i = first_index(s, ' ') as int;
    if i >= s.len() {
        seq![s]
    } else {
        seq![s.take(i)] + split_at_spaces(s.skip(i + 1))
    }
}

/// The pieces of a text between single spaces.
pub fn split_spaces(text: &str) -> (r: Vec<String>)
    ensures
        r@.map_values(|l: String| l@) == split_at_spaces(text@),
{
    let cs = chars_of(text);
    let n = cs.len();
    let mut out: Vec<String> = Vec::new();
    let mut start: usize = 0;
    assert(cs@.skip(0) =~= cs@);
    loop
        invariant
            start <= n == cs@.len(),
            cs@ == text@,
            out@.map_values(|l: String| l@) + split_at_spaces(cs@.skip(start as int))
                == split_at_spaces(text@),
        decreases n - start,
    {
        let ghost rest = cs@.skip(start as int);
        let ghost before = out@.map_values(|l: String| l@);
        let mut end = start;
        while end < n && cs[end] != ' '
            invariant
                start <= end <= n == cs@.len(),
                forall|j: int| start <= j < end ==> cs@[j] != ' ',
            decreases n - end,
        {
            end += 1;
        }
        proof {
            lemma_first_index(rest, ' ');
            let fi = first_index(rest, ' ') as int;
            if fi < end - start {
                assert(rest[fi] == cs@[start + fi]);
            }
            if end < n {
                assert(rest[end - start] == cs@[end as int]);
            }
            assert(fi == end - start);
        }
        let piece = string_of(&cs, start, end);
        out.push(piece);
        if end == n {
            assert(piece@ =~= rest);
            assert(out@.map_values(|l: String| l@) =~= before + seq![rest]);
            return out;
        }
        assert(piece@ =~= rest.take(end - start));
        assert(rest.skip(end - start + 1) =~= cs@.skip(end + 1));
        assert(out@.map_values(|l: String| l@) =~= before.push(rest.take(end - start)));
        assert(before.push(rest.take(end - start)) + split_at_spaces(cs@.skip(end + 1)) =~= before
            + (seq![rest.take(end - start)] + split_at_spaces(cs@.skip(end + 1))));
        start = end + 1;
    }
}

/// The inputs on which a line can be read: a `color` command's code can be
/// cut into byte pairs.
pub open spec fn dsl_line_ok(line: Seq<char>) -> bool {
    let ps = split_at_spaces(line);
    (ps[0] == "color"@ && ps.len() >= 3) ==> hex_cuttable(encode_utf8(ps[2]))
}

/// What a line yields and the colors after it: `color <name> <hex>` names a
/// color (and yields nothing), `line <x1> <y1> <x2> <y2>` yields a line when
/// all four are float literals; anything else yields nothing.
pub open spec fn spec_dsl_line(line: Seq<char>, colors: Map<Seq<char>, Color>) -> (
    Seq<SpecOp>,
    Map<Seq<char>, Color>,
) {
    let ps = split_at_spaces(line);
    if ps[0] == "color"@ {
        if ps.len() >= 3 {
            match spec_from_hex(encode_utf8(ps[2])) {
                Some(c) => (Seq::empty(), colors.insert(ps[1], c)),
                None => (Seq::empty(), colors),
            }
        } else {
            (Seq::empty(), colors)
        }
    } else if ps[0] == "line"@ {
        if ps.len() >= 5 && is_float_literal(ps[1]) && is_float_literal(ps[2]) && is_float_literal(
            ps[3],
        ) && is_float_literal(ps[4]) {
            (
                seq![
                    SpecOp::Line {
                        x1: SpecScalar::Literal(ps[1]),
                        y1: SpecScalar::Literal(ps[2]),
                        x2: SpecScalar::Literal(ps[3]),
                        y2: SpecScalar::Literal(ps[4]),
                    },
                ],
                colors,
            )
        } else {
            (Seq::empty(), colors)
        }
    } else {
        (Seq::empty(), colors)
    }
}

/// Reads a float argument (as `f32::from_str` would accept it).
fn float_arg(s: &String) -> (r: Option<Scalar>)
    ensures
        match r {
            Some(v) => is_float_literal(s@) && v@ == SpecScalar::Literal(s@),
            None => !is_float_literal(s@),
        },
{
    let cs = chars_of(s.as_str());
    match float_literal_chars(&cs) {
        Ok(t) => Some(Scalar::Literal(t)),
        Err(_) => None,
    }
}

/// Parses one line of the space-separated format.
pub fn parse_line(line: String, context: &mut ParserContext) -> (ops: Vec<Op>)
    requires
        old(context).wf(),
        dsl_line_ok(line@),
    ensures
        final(context).wf(),
        (ops_view(ops@), final(context)@) == spec_dsl_line(line@, old(context)@),
{
    let mut ops = Vec::<Op>::new();
    let args = split_spaces(line.as_str());
    let ghost ps = args@.map_values(|l: String| l@);
    assert(ps.len() > 0) by {
        reveal_with_fuel(split_at_spaces, 1);
    }
    assert(ops_view(ops@) =~= Seq::<SpecOp>::empty());
    if text_is(&args[0], "color") {
        if args.len() >= 3 {
            assert(ps[1] == args@[1]@ && ps[2] == args@[2]@);
            if let Some(color) = Color::from_hex(args[2].clone()) {
                context.colors.insert(args[1].clone(), color);
            } else {
                return ops;  // Early Return
            }
        }
    } else if text_is(&args[0], "line") {
        if args.len() >= 5 {
            assert(ps[1] == args@[1]@ && ps[2] == args@[2]@ && ps[3] == args@[3]@ && ps[4]
                == args@[4]@);
            match (float_arg(&args[1]), float_arg(&args[2]), float_arg(&args[3]), float_arg(&args[4])) {
                (Some(x1), Some(y1), Some(x2), Some(y2)) => {
                    ops.push(Op::Line { x1, y1, x2, y2 });
                    assert(ops_view(ops@) =~= seq![ops@[0]@]);
                },
                _ => {},  // Parsing fail
            }
        }
    }
    ops
}

} // verus!
