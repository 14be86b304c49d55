//! RGB colours and their `#RRGGBB` text form.
use crate::text::{chars_of, push_char};
use vstd::prelude::*;

verus! {

/// A colour with one byte per channel.
#[derive(Clone, Copy, Debug, PartialEq, Eq, Structural)]
pub struct Color {
    pub r: u8,
    pub g: u8,
    pub b: u8,
}

/// Why a text could not be read as a colour.
#[derive(Clone, Copy, Debug, PartialEq, Eq, Structural)]
pub enum HexColorError {
    /// The text does not hold exactly seven characters.
    Length { found: usize },
    /// The text does not start with `#`.
    MissingHash,
    /// The red pair is not two hex digits.
    Red,
    /// The green pair is not two hex digits.
    Green,
    /// The blue pair is not two hex digits.
    Blue,
}

/// The value of a hex digit, either case.
pub open spec fn hex_digit_value(c: char) -> Option<u8> {
    if '0' <= c && c <= '9' {
        Some((c as u32 - '0' as u32) as u8)
    } else if 'A' <= c && c <= 'F' {
        Some((c as u32 - 'A' as u32 + 10) as u8)
    } else if 'a' <= c && c <= 'f' {
        Some((c as u32 - 'a' as u32 + 10) as u8)
    } else {
        None
    }
}

/// The byte written by two hex digits, the high one first.
pub open spec fn hex_pair_value(hi: char, lo: char) -> Option<u8> {
    match (hex_digit_value(hi), hex_digit_value(lo)) {
        (Some(h), Some(l)) => Some((h * 16 + l) as u8),
        _ => None,
    }
}

/// The upper-case hex digit for a value below 16.
pub open spec fn hex_digit_char(d: int) -> char {
    if d < 10 {
        (d + '0' as int) as char
    } else {
        (d - 10 + 'A' as int) as char
    }
}

/// A byte as two upper-case hex digits.
pub open spec fn byte_hex(b: u8) -> Seq<char> {
    seq![hex_digit_char(b as int / 16), hex_digit_char(b as int % 16)]
}

/// The text form `#RRGGBB` of a colour, in upper case.
pub open spec fn color_hex(c: Color) -> Seq<char> {
    seq!['#'] + byte_hex(c.r) + byte_hex(c.g) + byte_hex(c.b)
}

/// What reading a colour from text gives: the text must be exactly `#RRGGBB`,
/// seven characters, a `#` and three pairs of hex digits in either case.
pub open spec fn parse_hex_color(s: Seq<char>) -> Result<Color, HexColorError> {
    if s.len() != 7 {
        Err(HexColorError::Length { found: s.len() as usize })
    } else if s[0] != '#' {
        Err(HexColorError::MissingHash)
    } else {
        match (hex_pair_value(s[1], s[2]), hex_pair_value(s[3], s[4]), hex_pair_value(s[5], s[6])) {
            (None, _, _) => Err(HexColorError::Red),
            (Some(_), None, _) => Err(HexColorError::Green),
            (Some(_), Some(_), None) => Err(HexColorError::Blue),
            (Some(r), Some(g), Some(b)) => Ok(Color { r, g, b }),
        }
    }
}

fn hex_digit(c: char) -> (r: Option<u8>)
    ensures
        r == hex_digit_value(c),
{
    if '0' <= c && c <= '9' {
        Some((c as u32 - '0' as u32) as u8)
    } else if 'A' <= c && c <= 'F' {
        Some((c as u32 - 'A' as u32 + 10) as u8)
    } else if 'a' <= c && c <= 'f' {
        Some((c as u32 - 'a' as u32 + 10) as u8)
    } else {
        None
    }
}

fn hex_pair(hi: char, lo: char) -> (r: Option<u8>)
    ensures
        r == hex_pair_value(hi, lo),
{
    match (hex_digit(hi), hex_digit(lo)) {
        (Some(h), Some(l)) => Some(h * 16 + l),
        _ => None,
    }
}

fn push_hex_digit(s: &mut String, d: u8)
    requires
        d < 16,
    ensures
        final(s)@ == old(s)@.push(hex_digit_char(d as int)),
{
    let c = if d < 10 {
        ((d as u32) + ('0' as u32)) as u8 as char
    } else {
        ((d as u32) - 10 + ('A' as u32)) as u8 as char
    };
    push_char(s, c);
}

fn push_byte_hex(s: &mut String, b: u8)
    ensures
        final(s)@ == old(s)@ + byte_hex(b),
{
    push_hex_digit(s, b / 16);
    push_hex_digit(s, b % 16);
    assert(s@ =~= old(s)@ + byte_hex(b));
}

proof fn lemma_byte_hex_value(b: u8)
    ensures
        hex_pair_value(byte_hex(b)[0], byte_hex(b)[1]) == Some(b),
{
    assert(b / 16 < 16);
    assert(b % 16 < 16);
    assert((b / 16) * 16 + b % 16 == b);
}

/// Writing a colour as text and reading it back gives the same colour.
pub proof fn lemma_hex_round_trip(c: Color)
    ensures
        parse_hex_color(color_hex(c)) == Ok::<Color, HexColorError>(c),
{
    let s = color_hex(c);
    lemma_byte_hex_value(c.r);
    lemma_byte_hex_value(c.g);
    lemma_byte_hex_value(c.b);
    assert(s[0] == '#');
    assert(s[1] == byte_hex(c.r)[0] && s[2] == byte_hex(c.r)[1]);
    assert(s[3] == byte_hex(c.g)[0] && s[4] == byte_hex(c.g)[1]);
    assert(s[5] == byte_hex(c.b)[0] && s[6] == byte_hex(c.b)[1]);
}

impl Color {
    pub fn new(r: u8, g: u8, b: u8) -> (c: Color)
        ensures
            c == (Color { r, g, b }),
    {
        Color { r, g, b }
    }

    pub open spec fn spec_black() -> Color {
        Color { r: 0, g: 0, b: 0 }
    }

    pub open spec fn spec_white() -> Color {
        Color { r: 255, g: 255, b: 255 }
    }

    pub fn black() -> (c: Color)
        ensures
            c == Color::spec_black(),
    {
        Color { r: 0, g: 0, b: 0 }
    }

    /// The colour of a fresh canvas.
    pub fn white() -> (c: Color)
        ensures
            c == Color::spec_white(),
    {
        Color { r: 255, g: 255, b: 255 }
    }

    /// Reads a colour written as `#RRGGBB`, hex digits in either case.
    pub fn from_hex(hex: &str) -> (r: Result<Color, HexColorError>)
        ensures
            r == parse_hex_color(hex@),
    {
        let cs = chars_of(hex);
        if cs.len() != 7 {
            return Err(HexColorError::Length { found: cs.len() });
        }
        if cs[0] != '#' {
            return Err(HexColorError::MissingHash);
        }
        let r = match hex_pair(cs[1], cs[2]) {
            Some(v) => v,
            None => {
                return Err(HexColorError::Red);
            },
        };
        let g = match hex_pair(cs[3], cs[4]) {
            Some(v) => v,
            None => {
                return Err(HexColorError::Green);
            },
        };
        let b = match hex_pair(cs[5], cs[6]) {
            Some(v) => v,
            None => {
                return Err(HexColorError::Blue);
            },
        };
        Ok(Color { r, g, b })
    }

    /// The colour as `#RRGGBB`, in upper case.
    pub fn to_hex(&self) -> (s: String)
        ensures
            s@ == color_hex(*self),
    {
        let mut s = String::new();
        push_char(&mut s, '#');
        push_byte_hex(&mut s, self.r);
        push_byte_hex(&mut s, self.g);
        push_byte_hex(&mut s, self.b);
        assert(s@ =~= color_hex(*self));
        s
    }
}

} // verus!
