//! The syntax tree that the parser produces.
use vstd::prelude::*;

use crate::numbers::{float_literal_chars, spec_parse_float, Scalar, SpecScalar};
use crate::params::FromParam;
use crate::text::{chars_of, is_white_space, string_of, trim, trim_chars, trim_end, trim_start};

verus! {

#[derive(Debug, Clone, PartialEq)]
pub enum ASTNode {
    Frame(FrameNode),
    Canvas(CanvasNode),
    Layer(LayerNode),
    Shape(ShapeNode),
    Entity(EntityNode),
    Draw(DrawNode),
    Grid(GridNode),
    Error(ErrorNode),
    Nop,
}

#[derive(Debug, Clone, PartialEq)]
pub enum FrameNode {
    Assign { name: String, x: Scalar, y: Scalar, yaw: Angle, parent: Option<String> },
    Select { name: String },
}

#[derive(Debug, Clone, PartialEq)]
pub struct CanvasNode {
    pub name: String,
}

#[derive(Debug, Clone, PartialEq)]
pub struct LayerNode {
    pub name: String,
}

#[derive(Debug, Clone, PartialEq)]
pub struct ShapeNode {
    name: String,
    primitive: Primitive,
}

#[derive(Debug, Clone, PartialEq)]
pub enum EntityNode {
    Create { name: String, shape: String, x: Scalar, y: Scalar, angle: Option<Scalar> },
    Move { name: String, x: Scalar, y: Scalar, angle: Option<Scalar> },
}

#[derive(Debug, Clone, PartialEq)]
pub enum DrawNode {
    Primitive(Primitive),
    Shape(String),
}

#[derive(Debug, Clone, PartialEq)]
pub struct GridNode {
    pub name: String,
    pub x: Scalar,
    pub y: Scalar,
    pub w: u32,
    pub h: u32,
    pub cell: Scalar,
}

#[derive(Debug, Clone, PartialEq)]
pub enum Primitive {
    Line {
        x1: Scalar,
        y1: Scalar,
        x2: Scalar,
        y2: Scalar,
        stroke_color: Option<String>,
        stroke_width: Option<Scalar>,
    },
    Circle {
        x: Scalar,
        y: Scalar,
        r: Scalar,
        stroke_color: Option<String>,
        stroke_width: Option<Scalar>,
        fill_color: Option<String>,
    },
    Rectangle {
        x: Scalar,
        y: Scalar,
        w: Scalar,
        h: Scalar,
        stroke_color: Option<String>,
        stroke_width: Option<Scalar>,
        fill_color: Option<String>,
    },
    Polygon {
        points: Vec<(Scalar, Scalar)>,
        stroke_color: Option<String>,
        stroke_width: Option<Scalar>,
    },
}

/// The unit an angle was written in.
#[derive(Debug, Clone, Copy, PartialEq)]
pub enum AngleUnit {
    Degrees,
    Radians,
}

/// An angle: a float literal and its unit (`90deg`, `1.57rad`).
///
/// Equality (`==`) is textual: it compares the literal and the unit as
/// written, so `90deg` and the same turn written in radians are different
/// angles. Compare the evaluated radians where numeric equality is meant.
#[derive(Debug, Clone, PartialEq)]
pub struct Angle {
    amount: String,
    unit: AngleUnit,
}

// Errors
#[derive(Debug, Clone, PartialEq)]
pub enum ErrorNode {
    ParseError(String),
}

// ---------------------------------------------------------------------------
// Views
// ---------------------------------------------------------------------------

pub struct SpecAngle {
    pub amount: Seq<char>,
    pub unit: AngleUnit,
}

pub enum SpecFrameNode {
    Assign { name: Seq<char>, x: SpecScalar, y: SpecScalar, yaw: SpecAngle, parent: Option<Seq<char>> },
    Select { name: Seq<char> },
}

pub enum SpecEntityNode {
    Create {
        name: Seq<char>,
        shape: Seq<char>,
        x: SpecScalar,
        y: SpecScalar,
        angle: Option<SpecScalar>,
    },
    Move { name: Seq<char>, x: SpecScalar, y: SpecScalar, angle: Option<SpecScalar> },
}

pub enum SpecPrimitive {
    Line {
        x1: SpecScalar,
        y1: SpecScalar,
        x2: SpecScalar,
        y2: SpecScalar,
        stroke_color: Option<Seq<char>>,
        stroke_width: Option<SpecScalar>,
    },
    Circle {
        x: SpecScalar,
        y: SpecScalar,
        r: SpecScalar,
        stroke_color: Option<Seq<char>>,
        stroke_width: Option<SpecScalar>,
        fill_color: Option<Seq<char>>,
    },
    Rectangle {
        x: SpecScalar,
        y: SpecScalar,
        w: SpecScalar,
        h: SpecScalar,
        stroke_color: Option<Seq<char>>,
        stroke_width: Option<SpecScalar>,
        fill_color: Option<Seq<char>>,
    },
    Polygon {
        points: Seq<(SpecScalar, SpecScalar)>,
        stroke_color: Option<Seq<char>>,
        stroke_width: Option<SpecScalar>,
    },
}

pub enum SpecDrawNode {
    Primitive(SpecPrimitive),
    Shape(Seq<char>),
}

pub struct SpecGridNode {
    pub name: Seq<char>,
    pub x: SpecScalar,
    pub y: SpecScalar,
    pub w: u32,
    pub h: u32,
    pub cell: SpecScalar,
}

pub struct SpecShapeNode {
    pub name: Seq<char>,
    pub primitive: SpecPrimitive,
}

pub enum SpecASTNode {
    Frame(SpecFrameNode),
    Canvas(Seq<char>),
    Layer(Seq<char>),
    Shape(SpecShapeNode),
    Entity(SpecEntityNode),
    Draw(SpecDrawNode),
    Grid(SpecGridNode),
    Error(Seq<char>),
    Nop,
}

/// The view of an optional value.
pub open spec fn opt_view<T: View>(o: Option<T>) -> Option<T::V> {
    match o {
        Some(t) => Some(t@),
        None => None,
    }
}

impl View for Angle {
    type V = SpecAngle;

    closed spec fn view(&self) -> SpecAngle {
        SpecAngle { amount: self.amount@, unit: self.unit }
    }
}

impl View for FrameNode {
    type V = SpecFrameNode;

    open spec fn view(&self) -> SpecFrameNode {
        match self {
            FrameNode::Assign { name, x, y, yaw, parent } => SpecFrameNode::Assign {
                name: name@,
                x: x@,
                y: y@,
                yaw: yaw@,
                parent: opt_view(*parent),
            },
            FrameNode::Select { name } => SpecFrameNode::Select { name: name@ },
        }
    }
}

impl View for EntityNode {
    type V = SpecEntityNode;

    open spec fn view(&self) -> SpecEntityNode {
        match self {
            EntityNode::Create { name, shape, x, y, angle } => SpecEntityNode::Create {
                name: name@,
                shape: shape@,
                x: x@,
                y: y@,
                angle: opt_view(*angle),
            },
            EntityNode::Move { name, x, y, angle } => SpecEntityNode::Move {
                name: name@,
                x: x@,
                y: y@,
                angle: opt_view(*angle),
            },
        }
    }
}

impl View for Primitive {
    type V = SpecPrimitive;

    open spec fn view(&self) -> SpecPrimitive {
        match self {
            Primitive::Line { x1, y1, x2, y2, stroke_color, stroke_width } => SpecPrimitive::Line {
                x1: x1@,
                y1: y1@,
                x2: x2@,
                y2: y2@,
                stroke_color: opt_view(*stroke_color),
                stroke_width: opt_view(*stroke_width),
            },
            Primitive::Circle { x, y, r, stroke_color, stroke_width, fill_color } =>
                SpecPrimitive::Circle {
                x: x@,
                y: y@,
                r: r@,
                stroke_color: opt_view(*stroke_color),
                stroke_width: opt_view(*stroke_width),
                fill_color: opt_view(*fill_color),
            },
            Primitive::Rectangle { x, y, w, h, stroke_color, stroke_width, fill_color } =>
                SpecPrimitive::Rectangle {
                x: x@,
                y: y@,
                w: w@,
                h: h@,
                stroke_color: opt_view(*stroke_color),
                stroke_width: opt_view(*stroke_width),
                fill_color: opt_view(*fill_color),
            },
            Primitive::Polygon { points, stroke_color, stroke_width } => SpecPrimitive::Polygon {
                points: points@.map_values(|p: (Scalar, Scalar)| (p.0@, p.1@)),
                stroke_color: opt_view(*stroke_color),
                stroke_width: opt_view(*stroke_width),
            },
        }
    }
}

impl View for ShapeNode {
    type V = SpecShapeNode;

    closed spec fn view(&self) -> SpecShapeNode {
        SpecShapeNode { name: self.name@, primitive: self.primitive@ }
    }
}

impl View for DrawNode {
    type V = SpecDrawNode;

    open spec fn view(&self) -> SpecDrawNode {
        match self {
            DrawNode::Primitive(p) => SpecDrawNode::Primitive(p@),
            DrawNode::Shape(s) => SpecDrawNode::Shape(s@),
        }
    }
}

impl View for GridNode {
    type V = SpecGridNode;

    open spec fn view(&self) -> SpecGridNode {
        SpecGridNode {
            name: self.name@,
            x: self.x@,
            y: self.y@,
            w: self.w,
            h: self.h,
            cell: self.cell@,
        }
    }
}

impl View for ASTNode {
    type V = SpecASTNode;

    open spec fn view(&self) -> SpecASTNode {
        match self {
            ASTNode::Frame(f) => SpecASTNode::Frame(f@),
            ASTNode::Canvas(c) => SpecASTNode::Canvas(c.name@),
            ASTNode::Layer(l) => SpecASTNode::Layer(l.name@),
            ASTNode::Shape(s) => SpecASTNode::Shape(s@),
            ASTNode::Entity(e) => SpecASTNode::Entity(e@),
            ASTNode::Draw(d) => SpecASTNode::Draw(d@),
            ASTNode::Grid(g) => SpecASTNode::Grid(g@),
            ASTNode::Error(ErrorNode::ParseError(m)) => SpecASTNode::Error(m@),
            ASTNode::Nop => SpecASTNode::Nop,
        }
    }
}

/// The views of a sequence of nodes.
pub open spec fn nodes_view(nodes: Seq<ASTNode>) -> Seq<SpecASTNode> {
    nodes.map_values(|n: ASTNode| n@)
}

// ---------------------------------------------------------------------------
// Angles
// ---------------------------------------------------------------------------

/// `s` ends with `w`.
pub open spec fn ends_with(s: Seq<char>, w: Seq<char>) -> bool {
    s.len() >= w.len() && s.skip(s.len() - w.len()) == w
}

/// The message for an angle without a unit.
pub open spec fn angle_unit_message() -> Seq<char> {
    "angle must end with 'deg' or 'rad'"@
}

/// An angle is read from its text with surrounding white space removed: a
/// float literal (white space around it removed too) followed by `deg` or
/// `rad`.
pub open spec fn spec_parse_angle(s: Seq<char>) -> Result<SpecAngle, Seq<char>> {
    let t = trim(s);
    let deg = seq!['d', 'e', 'g'];
    let rad = seq!['r', 'a', 'd'];
    if ends_with(t, deg) || ends_with(t, rad) {
        let unit = if ends_with(t, deg) {
            AngleUnit::Degrees
        } else {
            AngleUnit::Radians
        };
        match spec_parse_float(trim(t.take(t.len() - 3))) {
            Ok(l) => Ok(SpecAngle { amount: l, unit }),
            Err(e) => Err(e),
        }
    } else {
        Err(angle_unit_message())
    }
}

fn ends_with_word(t: &Vec<char>, a: char, b: char, c: char) -> (r: bool)
    ensures
        r == ends_with(t@, seq![a, b, c]),
{
    let n = t.len();
    if n < 3 {
        return false;
    }
    let r = t[n - 3] == a && t[n - 2] == b && t[n - 1] == c;
    proof {
        let s = t@.skip(n - 3);
        if r {
            assert(s =~= seq![a, b, c]);
        } else {
            assert(s[0] == t@[n - 3] && s[1] == t@[n - 2] && s[2] == t@[n - 1]);
        }
    }
    r
}

impl Angle {
    /// The literal that gives the size of the angle.
    pub fn amount(&self) -> (r: &String)
        ensures
            r@ == self@.amount,
    {
        &self.amount
    }

    /// The unit the angle was written in.
    pub fn unit(&self) -> (r: AngleUnit)
        ensures
            r == self@.unit,
    {
        self.unit
    }

    /// A copy of the angle.
    pub fn duplicate(&self) -> (r: Angle)
        ensures
            r@ == self@,
    {
        Angle { amount: self.amount.clone(), unit: self.unit }
    }

    /// Reads an angle such as `90deg`, `1.57rad` or ` 45 deg `.
    pub fn parse(s: &str) -> (r: Result<Angle, String>)
        ensures
            match r {
                Ok(a) => spec_parse_angle(s@) == Ok::<SpecAngle, Seq<char>>(a@),
                Err(e) => spec_parse_angle(s@) == Err::<SpecAngle, Seq<char>>(e@),
            },
    {
        let cs = chars_of(s);
        let t = trim_chars(&cs);
        let is_deg = ends_with_word(&t, 'd', 'e', 'g');
        let is_rad = ends_with_word(&t, 'r', 'a', 'd');
        if !is_deg && !is_rad {
            return Err("angle must end with 'deg' or 'rad'".to_string());
        }
        let unit = if is_deg {
            AngleUnit::Degrees
        } else {
            AngleUnit::Radians
        };
        let mut head: Vec<char> = Vec::new();
        let n = t.len() - 3;
        let mut i: usize = 0;
        while i < n
            invariant
                i <= n == t@.len() - 3,
                head@ == t@.take(i as int),
            decreases n - i,
        {
            head.push(t[i]);
            i += 1;
        }
        let num = trim_chars(&head);
        match float_literal_chars(&num) {
            Ok(amount) => Ok(Angle { amount, unit }),
            Err(e) => Err(e),
        }
    }
}

impl Default for Angle {
    /// The zero angle.
    fn default() -> (r: Angle)
        ensures
            r@ == (SpecAngle { amount: seq!['0'], unit: AngleUnit::Radians }),
    {
        let cs = vec!['0'];
        let amount = string_of(&cs, 0, 1);
        assert(cs@.subrange(0, 1) =~= seq!['0']);
        Angle { amount, unit: AngleUnit::Radians }
    }
}

impl std::str::FromStr for Angle {
    type Err = String;

    /// As `Angle::parse`.
    fn from_str(s: &str) -> (r: Result<Self, Self::Err>)
        ensures
            match r {
                Ok(a) => spec_parse_angle(s@) == Ok::<SpecAngle, Seq<char>>(a@),
                Err(e) => spec_parse_angle(s@) == Err::<SpecAngle, Seq<char>>(e@),
            },
    {
        Angle::parse(s)
    }
}

impl<'a> TryFrom<&'a str> for Angle {
    type Error = String;

    /// As `Angle::parse`.
    fn try_from(s: &'a str) -> (r: Result<Self, Self::Error>)
        ensures
            match r {
                Ok(a) => spec_parse_angle(s@) == Ok::<SpecAngle, Seq<char>>(a@),
                Err(e) => spec_parse_angle(s@) == Err::<SpecAngle, Seq<char>>(e@),
            },
    {
        Angle::parse(s)
    }
}

impl<'a> vstd::std_specs::convert::TryFromSpecImpl<&'a str> for Angle {
    /// What `try_from` gives is stated over views, in its own `ensures`; no
    /// value-level statement is made here.
    open spec fn obeys_try_from_spec() -> bool {
        false
    }

    open spec fn try_from_spec(v: &'a str) -> Result<Angle, String> {
        arbitrary()
    }
}

impl FromParam for Angle {
    /// As `Angle::parse`.
    open spec fn spec_from_param(text: Seq<char>) -> Result<SpecAngle, Seq<char>> {
        spec_parse_angle(text)
    }

    fn from_param(text: &str) -> (r: Result<Angle, String>) {
        Angle::parse(text)
    }
}

/// White space around an angle's text changes nothing: reading ` s ` (a space
/// on either side) gives what reading `s` gives.
pub proof fn law_angle_ignores_outer_space(s: Seq<char>)
    ensures
        spec_parse_angle(seq![' '] + s + seq![' ']) == spec_parse_angle(s),
{
    let padded = seq![' '] + s + seq![' '];
    assert(padded[0] == ' ');
    assert(padded.drop_first() =~= s + seq![' ']);
    assert(trim_start(padded) == trim_start(s + seq![' ']));
    lemma_trim_start_append_space(s);
    let t = trim_start(s) + seq![' '];
    assert(t.last() == ' ');
    assert(t.drop_last() =~= trim_start(s));
    assert(trim_end(t) == trim_end(trim_start(s)));
}

/// Appending a space to a text does not change where its leading white space
/// ends, unless the text is all white space.
proof fn lemma_trim_start_append_space(s: Seq<char>)
    ensures
        trim_start(s + seq![' ']) == if trim_start(s).len() == 0 {
            Seq::<char>::empty()
        } else {
            trim_start(s) + seq![' ']
        },
    decreases s.len(),
{
    let x = s + seq![' '];
    if s.len() == 0 {
        assert(x[0] == ' ');
        assert(is_white_space(' '));
        assert(x.drop_first() =~= Seq::<char>::empty());
        assert(trim_start(x.drop_first()) =~= Seq::<char>::empty());
        assert(trim_start(s) =~= Seq::<char>::empty());
    } else {
        assert(x[0] == s[0]);
        if is_white_space(s[0]) {
            assert(x.drop_first() =~= s.drop_first() + seq![' ']);
            lemma_trim_start_append_space(s.drop_first());
        } else {
            assert(trim_start(s) == s);
            assert(trim_start(x) == x);
        }
    }
}

// ---------------------------------------------------------------------------
// Errors
// ---------------------------------------------------------------------------

// Error Helper Functions
pub fn err_node(msg: String) -> (r: ASTNode)
    ensures
        r@ == SpecASTNode::Error(msg@),
{
    ASTNode::Error(ErrorNode::ParseError(msg))
}

pub fn push_err(nodes: &mut Vec<ASTNode>, msg: String)
    ensures
        nodes_view(final(nodes)@) == nodes_view(old(nodes)@).push(SpecASTNode::Error(msg@)),
{
    let ghost before = nodes@;
    nodes.push(err_node(msg));
    assert(nodes_view(nodes@) =~= nodes_view(before).push(SpecASTNode::Error(msg@)));
}

} // verus!
