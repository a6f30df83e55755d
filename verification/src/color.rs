//! Colors written as hex codes (`#44ba39`, `44ba395a`).
use vstd::prelude::*;
use vstd::utf8::{encode_utf8, is_continuation_byte};

verus! {

#[derive(Clone, PartialEq, Default, Debug)]
pub struct Color {
    pub r: u8,
    pub g: u8,
    pub b: u8,
    pub a: Option<u8>,
}

impl View for Color {
    type V = Color;

    open spec fn view(&self) -> Color {
        *self
    }
}

/// The value of an ASCII hex digit (either case).
pub open spec fn hex_digit(c: u8) -> Option<u8> {
    if 48 <= c <= 57 {
        Some((c - 48) as u8)
    } else if 97 <= c <= 102 {
        Some((c - 87) as u8)
    } else if 65 <= c <= 70 {
        Some((c - 55) as u8)
    } else {
        None
    }
}

/// `u8::from_str_radix` with radix 16 on a two-byte text: an optional `+`
/// followed by hex digits.
pub open spec fn radix16_pair(b0: u8, b1: u8) -> Option<u8> {
    if b0 == 43 {
        hex_digit(b1)
    } else {
        match (hex_digit(b0), hex_digit(b1)) {
            (Some(h), Some(l)) => Some((h * 16 + l) as u8),
            _ => None,
        }
    }
}

/// The component read from bytes `i` and `i + 1`; zero when they are not hex.
pub open spec fn component(h: Seq<u8>, i: int) -> u8 {
    match radix16_pair(h[i], h[i + 1]) {
        Some(v) => v,
        None => 0,
    }
}

/// The bytes without one leading `#`.
pub open spec fn strip_hash(bytes: Seq<u8>) -> Seq<u8> {
    if bytes.len() > 0 && bytes[0] == 35 {
        bytes.drop_first()
    } else {
        bytes
    }
}

/// The color that a hex code stands for: six or eight bytes after an optional
/// `#`, read two by two as red, green, blue and alpha.
pub open spec fn spec_from_hex(bytes: Seq<u8>) -> Option<Color> {
    let h = strip_hash(bytes);
    if h.len() != 6 && h.len() != 8 {
        None
    } else {
        Some(
            Color {
                r: component(h, 0),
                g: component(h, 2),
                b: component(h, 4),
                a: if h.len() == 8 {
                    Some(component(h, 6))
                } else {
                    None
                },
            },
        )
    }
}

/// The byte pairs fall on character boundaries, so that the text can be cut
/// into them (cutting a character in two panics).
pub open spec fn hex_cuttable(bytes: Seq<u8>) -> bool {
    let h = strip_hash(bytes);
    &&& (h.len() == 6 || h.len() == 8) ==> !is_continuation_byte(h[2]) && !is_continuation_byte(
        h[4],
    )
    &&& h.len() == 8 ==> !is_continuation_byte(h[6])
}

fn hex_value(c: u8) -> (r: Option<u8>)
    ensures
        r == hex_digit(c),
{
    if 48 <= c && c <= 57 {
        Some(c - 48)
    } else if 97 <= c && c <= 102 {
        Some(c - 87)
    } else if 65 <= c && c <= 70 {
        Some(c - 55)
    } else {
        None
    }
}

fn read_component(h: &[u8], i: usize) -> (r: u8)
    requires
        i + 1 < h@.len(),
    ensures
        r == component(h@, i as int),
{
    let b0 = h[i];
    let b1 = h[i + 1];
    if b0 == 43 {
        match hex_value(b1) {
            Some(v) => v,
            None => 0,
        }
    } else {
        match (hex_value(b0), hex_value(b1)) {
            (Some(hi), Some(lo)) => hi * 16 + lo,
            _ => 0,
        }
    }
}

impl Color {
    /// Reads a color from a hex code such as `#44ba39` or `44ba395a`.
    ///
    /// `None` unless six or eight bytes follow the optional `#`. A pair that is
    /// not hex gives the component zero.
    pub fn from_hex(hex: String) -> (r: Option<Self>)
        requires
            hex_cuttable(encode_utf8(hex@)),
        ensures
            r == spec_from_hex(encode_utf8(hex@)),
    {
        let bytes = hex.as_str().as_bytes();
        // Remove #
        let start: usize = if bytes.len() > 0 && bytes[0] == 35 {
            1
        } else {
            0
        };
        let h = vstd::slice::slice_subrange(bytes, start, bytes.len());
        assert(h@ =~= strip_hash(encode_utf8(hex@)));
        if h.len() != 6 && h.len() != 8 {
            return None;
        }
        let r = read_component(h, 0);
        let g = read_component(h, 2);
        let b = read_component(h, 4);
        let mut a = None;
        if h.len() == 8 {
            a = Some(read_component(h, 6));
        }
        Some(Color { r, g, b, a })
    }
}

/// The ASCII hex digit for `d < 16`, in upper or lower case.
pub open spec fn hex_char(d: u8, upper: bool) -> u8 {
    if d < 10 {
        (48 + d) as u8
    } else if upper {
        (55 + d) as u8
    } else {
        (87 + d) as u8
    }
}

/// The two hex digits of a byte (`{:02X}` when `upper`, else `{:02x}`).
pub open spec fn hex_pair(v: u8, upper: bool) -> Seq<u8> {
    seq![hex_char(v / 16, upper), hex_char(v % 16, upper)]
}

proof fn lemma_hex_pair(v: u8, upper: bool)
    ensures
        radix16_pair(hex_pair(v, upper)[0], hex_pair(v, upper)[1]) == Some(v),
        !is_continuation_byte(hex_pair(v, upper)[0]),
{
    let hi = v / 16;
    let lo = v % 16;
    assert(hex_digit(hex_char(hi, upper)) == Some(hi));
    assert(hex_digit(hex_char(lo, upper)) == Some(lo));
    assert(hi * 16 + lo == v);
}

/// Writing a color as hex digits and reading it back gives the color: six
/// digits for an opaque color, eight with alpha, in upper or lower case, with
/// or without a leading `#`.
pub proof fn law_hex_round_trip(r: u8, g: u8, b: u8, a: Option<u8>, upper: bool)
    ensures
        ({
            let digits = hex_pair(r, upper) + hex_pair(g, upper) + hex_pair(b, upper) + match a {
                Some(v) => hex_pair(v, upper),
                None => Seq::empty(),
            };
            &&& hex_cuttable(digits)
            &&& spec_from_hex(digits) == Some(Color { r, g, b, a })
            &&& hex_cuttable(seq![35u8] + digits)
            &&& spec_from_hex(seq![35u8] + digits) == Some(Color { r, g, b, a })
        }),
{
    let digits = hex_pair(r, upper) + hex_pair(g, upper) + hex_pair(b, upper) + match a {
        Some(v) => hex_pair(v, upper),
        None => Seq::empty(),
    };
    lemma_hex_pair(r, upper);
    lemma_hex_pair(g, upper);
    lemma_hex_pair(b, upper);
    assert(digits[0] == hex_pair(r, upper)[0] && digits[1] == hex_pair(r, upper)[1]);
    assert(digits[2] == hex_pair(g, upper)[0] && digits[3] == hex_pair(g, upper)[1]);
    assert(digits[4] == hex_pair(b, upper)[0] && digits[5] == hex_pair(b, upper)[1]);
    if let Some(v) = a {
        lemma_hex_pair(v, upper);
        assert(digits[6] == hex_pair(v, upper)[0] && digits[7] == hex_pair(v, upper)[1]);
    }
    assert(digits[0] != 35u8);
    assert(strip_hash(digits) == digits);
    assert(component(digits, 0) == r);
    assert(component(digits, 2) == g);
    assert(component(digits, 4) == b);
    assert(digits.len() == 6 || digits.len() == 8);
    assert(spec_from_hex(digits) == Some(Color { r, g, b, a }));
    assert(hex_cuttable(digits));
    assert((seq![35u8] + digits).drop_first() =~= digits);
    assert(strip_hash(seq![35u8] + digits) == digits);
}

/// A leading `#` is optional: reading a code with it gives what reading the
/// code without it gives (for a code that does not itself begin with `#`).
pub proof fn law_hash_is_optional(code: Seq<u8>)
    requires
        code.len() == 0 || code[0] != 35,
    ensures
        spec_from_hex(seq![35u8] + code) == spec_from_hex(code),
        hex_cuttable(seq![35u8] + code) == hex_cuttable(code),
{
    assert((seq![35u8] + code).drop_first() =~= code);
}

} // verus!
