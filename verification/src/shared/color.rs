use crate::shared::text::chars_of;
use vstd::prelude::*;

verus! {

/// A color with 8 bits for each of red, green, blue and opacity.
#[derive(Clone, Copy, Debug, PartialEq, Eq, Structural)]
pub struct Color {
    pub r: u8,
    pub g: u8,
    pub b: u8,
    pub a: u8,
}

/// The value of a hexadecimal digit, in either case.
pub open spec fn spec_hex_digit(c: char) -> Option<u8> {
    if '0' <= c <= '9' {
        Some((c as u32 - '0' as u32) as u8)
    } else if 'a' <= c <= 'f' {
        Some((c as u32 - 'a' as u32 + 10) as u8)
    } else if 'A' <= c <= 'F' {
        Some((c as u32 - 'A' as u32 + 10) as u8)
    } else {
        None
    }
}

/// The value of the two-digit hexadecimal number `hi lo`. A plus sign may
/// stand in place of the first digit.
pub open spec fn spec_hex_pair(hi: char, lo: char) -> Option<u8> {
    match spec_hex_digit(lo) {
        Some(l) => if hi == '+' {
            Some(l)
        } else {
            match spec_hex_digit(hi) {
                Some(h) => Some((16 * h + l) as u8),
                None => None,
            }
        },
        None => None,
    }
}

/// What went wrong when a color was read.
pub enum HexError {
    /// The text is not 3 or 6 characters long.
    Length,
    /// A character is not a hexadecimal digit.
    Digit,
}

/// The color that `text` writes, one number sign at its start left out:
/// three digits, each standing for itself doubled, or three pairs of
/// digits; the color is opaque.
pub open spec fn spec_parse_hex_color(text: Seq<char>) -> Result<Color, HexError> {
    let hex = if text.len() > 0 && text[0] == '#' {
        text.subrange(1, text.len() as int)
    } else {
        text
    };
    if hex.len() == 3 {
        match (spec_hex_digit(hex[0]), spec_hex_digit(hex[1]), spec_hex_digit(hex[2])) {
            (Some(r), Some(g), Some(b)) => Ok(
                Color { r: (17 * r) as u8, g: (17 * g) as u8, b: (17 * b) as u8, a: 255 },
            ),
            _ => Err(HexError::Digit),
        }
    } else if hex.len() == 6 {
        match (
            spec_hex_pair(hex[0], hex[1]),
            spec_hex_pair(hex[2], hex[3]),
            spec_hex_pair(hex[4], hex[5]),
        ) {
            (Some(r), Some(g), Some(b)) => Ok(Color { r, g, b, a: 255 }),
            _ => Err(HexError::Digit),
        }
    } else {
        Err(HexError::Length)
    }
}

fn hex_digit(c: char) -> (d: Option<u8>)
    ensures
        d == spec_hex_digit(c),
        d matches Some(v) ==> v < 16,
{
    if '0' <= c && c <= '9' {
        Some((c as u32 - '0' as u32) as u8)
    } else if 'a' <= c && c <= 'f' {
        Some((c as u32 - 'a' as u32 + 10) as u8)
    } else if 'A' <= c && c <= 'F' {
        Some((c as u32 - 'A' as u32 + 10) as u8)
    } else {
        None
    }
}

fn hex_pair(hi: char, lo: char) -> (d: Option<u8>)
    ensures
        d == spec_hex_pair(hi, lo),
{
    match hex_digit(lo) {
        Some(l) => if hi == '+' {
            Some(l)
        } else {
            match hex_digit(hi) {
                Some(h) => Some(16 * h + l),
                None => None,
            }
        },
        None => None,
    }
}

impl Color {
    /// The opaque color with the given red, green and blue.
    pub fn rgb(r: u8, g: u8, b: u8) -> (c: Color)
        ensures
            c == (Color { r, g, b, a: 255 }),
    {
        Color { r, g, b, a: 255 }
    }

    /// The color that `input` writes in hexadecimal; see
    /// [`parse_hex_color`].
    pub fn hex(input: &str) -> (out: Result<Color, &'static str>)
        ensures
            hex_outcome(out, spec_parse_hex_color(input@)),
    {
        parse_hex_color(input)
    }
}

/// True when `out` reports `wanted`: the same color, or the message of the
/// same error.
pub open spec fn hex_outcome(
    out: Result<Color, &'static str>,
    wanted: Result<Color, HexError>,
) -> bool {
    match wanted {
        Ok(c) => out == Ok::<Color, &'static str>(c),
        Err(HexError::Digit) => out is Err && out->Err_0@ == "invalid hex"@,
        Err(HexError::Length) => out is Err && out->Err_0@ == "expected #rgb or #rrggbb"@,
    }
}

/// Reads a color written as `#rgb` or `#rrggbb`, with or without the number
/// sign.
pub fn parse_hex_color(input: &str) -> (out: Result<Color, &'static str>)
    ensures
        hex_outcome(out, spec_parse_hex_color(input@)),
{
    let chars = chars_of(input);
    let from: usize = if chars.len() > 0 && chars[0] == '#' {
        1
    } else {
        0
    };
    let ghost hex = if from == 1 {
        chars@.subrange(1, chars@.len() as int)
    } else {
        chars@
    };
    let n = chars.len() - from;
    assert(hex.len() == n);
    assert(forall|k: int| 0 <= k < n ==> hex[k] == chars@[from + k]);
    if n == 3 {
        match (hex_digit(chars[from]), hex_digit(chars[from + 1]), hex_digit(chars[from + 2])) {
            (Some(r), Some(g), Some(b)) => Ok(Color::rgb(17 * r, 17 * g, 17 * b)),
            _ => Err("invalid hex"),
        }
    } else if n == 6 {
        match (
            hex_pair(chars[from], chars[from + 1]),
            hex_pair(chars[from + 2], chars[from + 3]),
            hex_pair(chars[from + 4], chars[from + 5]),
        ) {
            (Some(r), Some(g), Some(b)) => Ok(Color::rgb(r, g, b)),
            _ => Err("invalid hex"),
        }
    } else {
        Err("expected #rgb or #rrggbb")
    }
}

} // verus!
