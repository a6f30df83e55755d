//! Numbers in the language.
//!
//! A floating-point parameter is kept as the decimal literal that was written,
//! after checking it against the grammar that `f64::from_str` documents:
//!
//! ```text
//! Float  ::= Sign? ( 'inf' | 'infinity' | 'nan' | Number )
//! Number ::= ( Digit+ | Digit+ '.' Digit* | Digit* '.' Digit+ ) Exp?
//! Exp    ::= 'e' Sign? Digit+
//! Sign   ::= [+-]
//! Digit  ::= [0-9]
//! ```
//!
//! (letters compared without regard to ASCII case). Turning the literal into a
//! machine float is left to the renderer. Unsigned parameters are parsed here,
//! as `u32::from_str` does.
use vstd::prelude::*;

use crate::text::{chars_of, is_ascii_digit, string_of};

verus! {

// ---------------------------------------------------------------------------
// The float grammar
// ---------------------------------------------------------------------------

pub open spec fn all_digits(s: Seq<char>) -> bool {
    forall|i: int| 0 <= i < s.len() ==> is_ascii_digit(#[trigger] s[i])
}

pub open spec fn is_sign(c: char) -> bool {
    c == '+' || c == '-'
}

/// The code of `c` after ASCII lowercasing.
pub open spec fn lower_code(c: char) -> u32 {
    if 'A' <= c && c <= 'Z' {
        (c as u32 + 32) as u32
    } else {
        c as u32
    }
}

/// `s` equals the lowercase word `w` up to ASCII case.
pub open spec fn equals_ignoring_case(s: Seq<char>, w: Seq<char>) -> bool {
    s.len() == w.len() && forall|i: int| 0 <= i < s.len() ==> lower_code(#[trigger] s[i]) == w[i] as u32
}

/// `Digit+ | Digit+ '.' Digit* | Digit* '.' Digit+`
pub open spec fn is_mantissa(m: Seq<char>) -> bool {
    ||| (m.len() > 0 && all_digits(m))
    ||| exists|k: int|
        0 <= k < m.len() && m[k] == '.' && m.len() >= 2 && all_digits(m.take(k)) && all_digits(
            #[trigger] m.skip(k + 1),
        )
}

/// `Sign? Digit+` (what follows the `e`).
pub open spec fn is_exponent(x: Seq<char>) -> bool {
    x.len() > 0 && if is_sign(x[0]) {
        x.len() > 1 && all_digits(x.drop_first())
    } else {
        all_digits(x)
    }
}

pub open spec fn is_exp_marker(c: char) -> bool {
    c == 'e' || c == 'E'
}

/// `Number`: a mantissa, then optionally an exponent.
pub open spec fn is_number(b: Seq<char>) -> bool {
    exists|e: int|
        0 <= e <= b.len() && is_mantissa(#[trigger] b.take(e)) && (e == b.len() || (
        is_exp_marker(b[e]) && is_exponent(b.skip(e + 1))))
}

/// The text without one leading sign.
pub open spec fn unsigned_part(s: Seq<char>) -> Seq<char> {
    if s.len() > 0 && is_sign(s[0]) {
        s.drop_first()
    } else {
        s
    }
}

/// `Float`: the texts that `f64::from_str` (and `f32::from_str`) accept.
pub open spec fn is_float_literal(s: Seq<char>) -> bool {
    let b = unsigned_part(s);
    ||| equals_ignoring_case(b, seq!['i', 'n', 'f'])
    ||| equals_ignoring_case(b, seq!['i', 'n', 'f', 'i', 'n', 'i', 't', 'y'])
    ||| equals_ignoring_case(b, seq!['n', 'a', 'n'])
    ||| is_number(b)
}

/// The message of the error that `f64::from_str` gives for a text it refuses.
pub open spec fn float_error(s: Seq<char>) -> Seq<char> {
    if s.len() == 0 {
        "cannot parse float from empty string"@
    } else {
        "invalid float literal"@
    }
}

/// The outcome of reading `s` as a float: the literal itself, or the message.
pub open spec fn spec_parse_float(s: Seq<char>) -> Result<Seq<char>, Seq<char>> {
    if is_float_literal(s) {
        Ok(s)
    } else {
        Err(float_error(s))
    }
}

fn is_digit(c: char) -> (r: bool)
    ensures
        r == is_ascii_digit(c),
{
    '0' <= c && c <= '9'
}

/// Whether all of `s[from..to]` are ASCII digits.
fn digits_between(s: &Vec<char>, from: usize, to: usize) -> (r: bool)
    requires
        from <= to <= s@.len(),
    ensures
        r == all_digits(s@.subrange(from as int, to as int)),
{
    let mut i = from;
    while i < to
        invariant
            from <= i <= to <= s@.len(),
            forall|j: int| from <= j < i ==> is_ascii_digit(#[trigger] s@[j]),
        decreases to - i,
    {
        if !is_digit(s[i]) {
            assert(!is_ascii_digit(s@.subrange(from as int, to as int)[i - from]));
            return false;
        }
        i += 1;
    }
    assert forall|j: int| 0 <= j < to - from implies is_ascii_digit(
        #[trigger] s@.subrange(from as int, to as int)[j],
    ) by {
        assert(s@.subrange(from as int, to as int)[j] == s@[from + j]);
    }
    true
}

/// `s[from..to]` equals the lowercase ASCII word `w` up to case.
fn word_ignoring_case(s: &Vec<char>, from: usize, to: usize, w: &Vec<char>) -> (r: bool)
    requires
        from <= to <= s@.len(),
        forall|i: int| 0 <= i < w@.len() ==> 'a' <= #[trigger] w@[i] <= 'z',
    ensures
        r == equals_ignoring_case(s@.subrange(from as int, to as int), w@),
{
    let ghost sub = s@.subrange(from as int, to as int);
    if to - from != w.len() {
        return false;
    }
    let mut i: usize = 0;
    while i < w.len()
        invariant
            from <= to <= s@.len(),
            to - from == w@.len(),
            sub == s@.subrange(from as int, to as int),
            i <= w@.len(),
            forall|k: int| 0 <= k < w@.len() ==> 'a' <= #[trigger] w@[k] <= 'z',
            forall|j: int| 0 <= j < i ==> lower_code(#[trigger] sub[j]) == w@[j] as u32,
        decreases w.len() - i,
    {
        let c = s[from + i];
        let l = w[i];
        assert(c == sub[i as int]);
        let same = (c as u32) == (l as u32) || ('A' <= c && c <= 'Z' && (c as u32) + 32 == (l as u32));
        if !same {
            assert(lower_code(sub[i as int]) != w@[i as int] as u32);
            return false;
        }
        i += 1;
    }
    true
}

/// Checks `is_mantissa` on `s[from..to]`.
fn mantissa_between(s: &Vec<char>, from: usize, to: usize) -> (r: bool)
    requires
        from <= to <= s@.len(),
    ensures
        r == is_mantissa(s@.subrange(from as int, to as int)),
{
    let ghost m = s@.subrange(from as int, to as int);
    // find the first '.'
    let mut k = from;
    while k < to && s[k] != '.'
        invariant
            from <= k <= to <= s@.len(),
            forall|j: int| from <= j < k ==> s@[j] != '.',
        decreases to - k,
    {
        k += 1;
    }
    if k == to {
        // no dot at all
        let r = to > from && digits_between(s, from, to);
        proof {
            if !r && to > from {
                assert(!all_digits(m));
            }
            assert forall|k2: int| 0 <= k2 < m.len() implies m[k2] != '.' by {
                assert(m[k2] == s@[from + k2]);
            }
        }
        return r;
    }
    let left = digits_between(s, from, k);
    let right = digits_between(s, k + 1, to);
    let r = left && right && to - from >= 2;
    proof {
        let kk = k - from;
        assert(m[kk] == '.');
        assert(m.take(kk) =~= s@.subrange(from as int, k as int));
        assert(m.skip(kk + 1) =~= s@.subrange(k + 1, to as int));
        assert(!all_digits(m)) by {
            assert(!is_ascii_digit(m[kk]));
        }
        if !r {
            assert forall|k2: int|
                0 <= k2 < m.len() && m[k2] == '.' && m.len() >= 2 && all_digits(m.take(k2))
                    implies !all_digits(#[trigger] m.skip(k2 + 1)) by {
                if k2 < kk {
                    assert(m[k2] == s@[from + k2]);
                } else if k2 > kk {
                    assert(m.take(k2)[kk] == '.');
                } else {
                }
            }
        }
    }
    r
}

/// Checks `is_exponent` on `s[from..to]`.
fn exponent_between(s: &Vec<char>, from: usize, to: usize) -> (r: bool)
    requires
        from <= to <= s@.len(),
    ensures
        r == is_exponent(s@.subrange(from as int, to as int)),
{
    let ghost x = s@.subrange(from as int, to as int);
    if from == to {
        return false;
    }
    if s[from] == '+' || s[from] == '-' {
        let r = to - from > 1 && digits_between(s, from + 1, to);
        assert(x.drop_first() =~= s@.subrange(from + 1, to as int));
        r
    } else {
        digits_between(s, from, to)
    }
}

/// Checks `is_number` on `s[from..to]`.
fn number_between(s: &Vec<char>, from: usize, to: usize) -> (r: bool)
    requires
        from <= to <= s@.len(),
    ensures
        r == is_number(s@.subrange(from as int, to as int)),
{
    let ghost b = s@.subrange(from as int, to as int);
    let mut e = from;
    while e < to && s[e] != 'e' && s[e] != 'E'
        invariant
            from <= e <= to <= s@.len(),
            forall|j: int| from <= j < e ==> !is_exp_marker(#[trigger] s@[j]),
        decreases to - e,
    {
        e += 1;
    }
    let mant = mantissa_between(s, from, e);
    let r = if e == to {
        mant
    } else {
        mant && exponent_between(s, e + 1, to)
    };
    proof {
        let ee = e - from;
        assert(b.take(ee) =~= s@.subrange(from as int, e as int));
        if e < to {
            assert(b[ee] == s@[e as int]);
            assert(b.skip(ee + 1) =~= s@.subrange(e + 1, to as int));
        }
        if r {
            assert(is_mantissa(b.take(ee)));
        } else {
            assert forall|e2: int|
                0 <= e2 <= b.len() && is_mantissa(#[trigger] b.take(e2)) implies !(e2 == b.len()
                || (is_exp_marker(b[e2]) && is_exponent(b.skip(e2 + 1)))) by {
                if e2 < ee {
                    assert(b[e2] == s@[from + e2]);
                } else if e2 > ee {
                    // the taken part contains the exponent marker
                    let t = b.take(e2);
                    assert(t[ee] == s@[e as int]);
                    assert(!is_ascii_digit(t[ee]) && t[ee] != '.');
                    assert(!all_digits(t));
                    assert forall|k: int|
                        0 <= k < t.len() && t[k] == '.' && t.len() >= 2 && all_digits(t.take(k))
                            implies !all_digits(#[trigger] t.skip(k + 1)) by {
                        if k < ee {
                            assert(t.skip(k + 1)[ee - k - 1] == t[ee]);
                        } else {
                            assert(t.take(k)[ee] == t[ee]);
                        }
                    }
                } else {
                }
            }
        }
    }
    r
}

/// Whether `s[from..to]` is a float literal.
pub fn float_literal_between(s: &Vec<char>, from: usize, to: usize) -> (r: bool)
    requires
        from <= to <= s@.len(),
    ensures
        r == is_float_literal(s@.subrange(from as int, to as int)),
{
    let ghost whole = s@.subrange(from as int, to as int);
    let start = if from < to && (s[from] == '+' || s[from] == '-') {
        from + 1
    } else {
        from
    };
    assert(unsigned_part(whole) =~= s@.subrange(start as int, to as int));
    let inf = vec!['i', 'n', 'f'];
    let infinity = vec!['i', 'n', 'f', 'i', 'n', 'i', 't', 'y'];
    let nan = vec!['n', 'a', 'n'];
    assert(inf@ =~= seq!['i', 'n', 'f']);
    assert(infinity@ =~= seq!['i', 'n', 'f', 'i', 'n', 'i', 't', 'y']);
    assert(nan@ =~= seq!['n', 'a', 'n']);
    word_ignoring_case(s, start, to, &inf) || word_ignoring_case(s, start, to, &infinity)
        || word_ignoring_case(s, start, to, &nan) || number_between(s, start, to)
}

// ---------------------------------------------------------------------------
// Unsigned integers (`u32::from_str`)
// ---------------------------------------------------------------------------

pub open spec fn digit_value(c: char) -> nat {
    (c as u32 - '0' as u32) as nat
}

/// Why `u32::from_str` refused a text.
pub enum IntError {
    Empty,
    InvalidDigit,
    PosOverflow,
}

/// The Display text of each `ParseIntError` kind.
pub open spec fn int_error_text(e: IntError) -> Seq<char> {
    match e {
        IntError::Empty => "cannot parse integer from empty string"@,
        IntError::InvalidDigit => "invalid digit found in string"@,
        IntError::PosOverflow => "number too large to fit in target type"@,
    }
}

/// Reads the digits left to right onto `acc`; the first character that is not
/// a digit, or the first step past `u32::MAX`, stops the reading.
pub open spec fn scan_digits(d: Seq<char>, acc: nat) -> Result<nat, IntError>
    decreases d.len(),
{
    if d.len() == 0 {
        Ok(acc)
    } else if !is_ascii_digit(d[0]) {
        Err(IntError::InvalidDigit)
    } else if acc * 10 + digit_value(d[0]) > u32::MAX {
        Err(IntError::PosOverflow)
    } else {
        scan_digits(d.drop_first(), acc * 10 + digit_value(d[0]))
    }
}

/// `u32::from_str`: an optional `+` followed by decimal digits, at most `u32::MAX`.
pub open spec fn spec_parse_u32(s: Seq<char>) -> Result<u32, Seq<char>> {
    let r = if s.len() == 0 {
        Err(IntError::Empty)
    } else if s == seq!['+'] || s == seq!['-'] {
        Err(IntError::InvalidDigit)
    } else if s[0] == '+' {
        scan_digits(s.drop_first(), 0)
    } else {
        scan_digits(s, 0)
    };
    match r {
        Ok(v) => Ok(v as u32),
        Err(e) => Err(int_error_text(e)),
    }
}

proof fn lemma_scan_bounded(d: Seq<char>, acc: nat)
    requires
        acc <= u32::MAX,
    ensures
        scan_digits(d, acc) matches Ok(v) ==> v <= u32::MAX,
    decreases d.len(),
{
    if d.len() > 0 && is_ascii_digit(d[0]) && acc * 10 + digit_value(d[0]) <= u32::MAX {
        lemma_scan_bounded(d.drop_first(), acc * 10 + digit_value(d[0]));
    }
}

fn error_text(e: IntError) -> (r: String)
    ensures
        r@ == int_error_text(e),
{
    match e {
        IntError::Empty => "cannot parse integer from empty string".to_string(),
        IntError::InvalidDigit => "invalid digit found in string".to_string(),
        IntError::PosOverflow => "number too large to fit in target type".to_string(),
    }
}

/// Parses `s[from..]` as decimal digits, as `scan_digits` from zero.
fn scan_u32(s: &Vec<char>, from: usize) -> (r: Result<u32, IntError>)
    requires
        from <= s@.len(),
    ensures
        match r {
            Ok(v) => scan_digits(s@.skip(from as int), 0) == Ok::<nat, IntError>(v as nat),
            Err(e) => scan_digits(s@.skip(from as int), 0) == Err::<nat, IntError>(e),
        },
{
    let mut acc: u32 = 0;
    let mut i = from;
    while i < s.len()
        invariant
            from <= i <= s@.len(),
            scan_digits(s@.skip(from as int), 0) == scan_digits(s@.skip(i as int), acc as nat),
        decreases s.len() - i,
    {
        let c = s[i];
        let ghost rest = s@.skip(i as int);
        assert(rest[0] == c);
        assert(rest.drop_first() =~= s@.skip(i + 1));
        if !is_digit(c) {
            return Err(IntError::InvalidDigit);
        }
        let d = (c as u32) - ('0' as u32);
        if acc > 429496729 || (acc == 429496729 && d > 5) {
            assert(acc * 10 + d > u32::MAX);
            return Err(IntError::PosOverflow);
        }
        acc = acc * 10 + d;
        i += 1;
    }
    assert(s@.skip(i as int).len() == 0);
    Ok(acc)
}

/// `u32::from_str` on `s[from..to]`, with the error's Display text.
pub fn parse_u32_chars(s: &Vec<char>) -> (r: Result<u32, String>)
    ensures
        match r {
            Ok(v) => spec_parse_u32(s@) == Ok::<u32, Seq<char>>(v),
            Err(e) => spec_parse_u32(s@) == Err::<u32, Seq<char>>(e@),
        },
{
    let n = s.len();
    if n == 0 {
        return Err(error_text(IntError::Empty));
    }
    if n == 1 && (s[0] == '+' || s[0] == '-') {
        proof {
            if s[0] == '+' {
                assert(s@ =~= seq!['+']);
            } else {
                assert(s@ =~= seq!['-']);
            }
        }
        return Err(error_text(IntError::InvalidDigit));
    }
    proof {
        if n > 1 {
            assert(s@ != seq!['+']);
            assert(s@ != seq!['-']);
        } else {
            assert(s@ =~= seq![s@[0]]);
        }
    }
    let from: usize = if s[0] == '+' {
        1
    } else {
        0
    };
    assert(s@.skip(0) =~= s@);
    assert(s@.skip(1) =~= s@.drop_first());
    match scan_u32(s, from) {
        Ok(v) => Ok(v),
        Err(e) => Err(error_text(e)),
    }
}

// ---------------------------------------------------------------------------
// Scalars
// ---------------------------------------------------------------------------

/// A real-valued quantity of the language.
///
/// The library keeps the decimal literals that were written; the renderer
/// turns them into machine floats (and evaluates `GridOffset`).
///
/// Equality (`==`) is textual: it compares the literals as written, so `1` and
/// `1.0` are different scalars although they stand for the same number.
/// Compare the evaluated floats where numeric equality is meant.
#[derive(Debug, Clone, PartialEq)]
pub enum Scalar {
    /// A float literal as written, e.g. `-0.5`.
    Literal(String),
    /// The world coordinate `origin + index * cell` of a grid cell corner.
    GridOffset { origin: String, index: String, cell: String },
}

pub enum SpecScalar {
    Literal(Seq<char>),
    GridOffset { origin: Seq<char>, index: Seq<char>, cell: Seq<char> },
}

impl View for Scalar {
    type V = SpecScalar;

    open spec fn view(&self) -> SpecScalar {
        match self {
            Scalar::Literal(t) => SpecScalar::Literal(t@),
            Scalar::GridOffset { origin, index, cell } => SpecScalar::GridOffset {
                origin: origin@,
                index: index@,
                cell: cell@,
            },
        }
    }
}

impl SpecScalar {
    /// Every literal in it is a float literal.
    pub open spec fn wf(self) -> bool {
        match self {
            SpecScalar::Literal(t) => is_float_literal(t),
            SpecScalar::GridOffset { origin, index, cell } => is_float_literal(origin)
                && is_float_literal(index) && is_float_literal(cell),
        }
    }
}

impl Scalar {
    /// A copy of the scalar.
    pub fn duplicate(&self) -> (r: Scalar)
        ensures
            r@ == self@,
    {
        match self {
            Scalar::Literal(t) => Scalar::Literal(t.clone()),
            Scalar::GridOffset { origin, index, cell } => Scalar::GridOffset {
                origin: origin.clone(),
                index: index.clone(),
                cell: cell.clone(),
            },
        }
    }
}

/// Reads a float from characters: the literal as a `String`, or the message
/// of the error that `f64::from_str` gives.
pub fn float_literal_chars(cs: &Vec<char>) -> (r: Result<String, String>)
    ensures
        match r {
            Ok(t) => spec_parse_float(cs@) == Ok::<Seq<char>, Seq<char>>(t@),
            Err(e) => spec_parse_float(cs@) == Err::<Seq<char>, Seq<char>>(e@),
        },
{
    assert(cs@.subrange(0, cs@.len() as int) =~= cs@);
    if float_literal_between(cs, 0, cs.len()) {
        Ok(string_of(cs, 0, cs.len()))
    } else if cs.len() == 0 {
        Err("cannot parse float from empty string".to_string())
    } else {
        Err("invalid float literal".to_string())
    }
}

/// Reads a float parameter: the literal, or the message of the error that
/// `f64::from_str` gives.
pub fn parse_float(text: &str) -> (r: Result<Scalar, String>)
    ensures
        match r {
            Ok(v) => spec_parse_float(text@) == Ok::<Seq<char>, Seq<char>>(
                text@,
            ) && v@ == SpecScalar::Literal(text@),
            Err(e) => spec_parse_float(text@) == Err::<Seq<char>, Seq<char>>(e@),
        },
{
    let cs = chars_of(text);
    match float_literal_chars(&cs) {
        Ok(t) => Ok(Scalar::Literal(t)),
        Err(e) => Err(e),
    }
}

} // verus!
