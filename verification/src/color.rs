//! Colours written as text, `#rrggbb`.

use vstd::prelude::*;
use vstd::string::StrSliceExecFns;

verus! {

/// A colour by its red, green and blue parts.
#[derive(Clone, Copy, Debug, PartialEq, Eq, Structural)]
pub struct Rgb {
    pub r: u8,
    pub g: u8,
    pub b: u8,
}

/// The value of a digit of base 16, in either case.
pub open spec fn hex_digit(c: char) -> Option<int> {
    let code = c as int;
    if 48 <= code <= 57 {
        Some(code - 48)
    } else if 97 <= code <= 102 {
        Some(code - 87)
    } else if 65 <= code <= 70 {
        Some(code - 55)
    } else {
        None
    }
}

/// Two characters read as a number of base 16: two digits, or a `+` and one
/// digit.
pub open spec fn hex_pair(high: char, low: char) -> Option<int> {
    match (hex_digit(high), hex_digit(low)) {
        (Some(h), Some(l)) => Some(16 * h + l),
        (None, Some(l)) => if high == '+' {
            Some(l)
        } else {
            None
        },
        _ => None,
    }
}

/// The text without its leading `#` characters.
pub open spec fn trim_hashes(text: Seq<char>) -> Seq<char>
    decreases text.len(),
{
    if text.len() > 0 && text[0] == '#' {
        trim_hashes(text.subrange(1, text.len() as int))
    } else {
        text
    }
}

/// The colour that a text names: after any leading `#`, three pairs of
/// characters for red, green and blue. What follows them is not read. A text
/// that is too short, or has a pair that is no number, names no colour.
pub open spec fn parse_color(text: Seq<char>) -> Option<Rgb> {
    let hex = trim_hashes(text);
    if hex.len() >= 6 {
        match (hex_pair(hex[0], hex[1]), hex_pair(hex[2], hex[3]), hex_pair(hex[4], hex[5])) {
            (Some(r), Some(g), Some(b)) => Some(Rgb { r: r as u8, g: g as u8, b: b as u8 }),
            _ => None,
        }
    } else {
        None
    }
}

fn digit_value(c: char) -> (value: Option<u8>)
    ensures
        match value {
            Some(d) => hex_digit(c) == Some(d as int) && d < 16,
            None => hex_digit(c) is None,
        },
{
    let code: u32 = c as u32;
    if 48 <= code && code <= 57 {
        Some((code - 48) as u8)
    } else if 97 <= code && code <= 102 {
        Some((code - 87) as u8)
    } else if 65 <= code && code <= 70 {
        Some((code - 55) as u8)
    } else {
        None
    }
}

fn pair_value(high: char, low: char) -> (value: Option<u8>)
    ensures
        match value {
            Some(n) => hex_pair(high, low) == Some(n as int),
            None => hex_pair(high, low) is None,
        },
{
    match (digit_value(high), digit_value(low)) {
        (Some(h), Some(l)) => Some(16 * h + l),
        (None, Some(l)) => if high == '+' {
            Some(l)
        } else {
            None
        },
        _ => None,
    }
}

/// Reads a colour such as `#1e90ff`. `None` where the text names no colour.
pub fn to_color(hex: &str) -> (color: Option<Rgb>)
    ensures
        color == parse_color(hex@),
{
    let len: usize = hex.unicode_len();
    let mut from: usize = 0;
    assert(hex@.subrange(0, len as int) =~= hex@);
    while from < len && hex.get_char(from) == '#'
        invariant
            from <= len,
            len == hex@.len(),
            trim_hashes(hex@) == trim_hashes(hex@.subrange(from as int, len as int)),
        decreases len - from,
    {
        proof {
            let rest = hex@.subrange(from as int, len as int);
            assert(rest.subrange(1, rest.len() as int) =~= hex@.subrange(from + 1, len as int));
        }
        from += 1;
    }
    if len - from < 6 {
        return None;
    }
    let r: Option<u8> = pair_value(hex.get_char(from), hex.get_char(from + 1));
    let g: Option<u8> = pair_value(hex.get_char(from + 2), hex.get_char(from + 3));
    let b: Option<u8> = pair_value(hex.get_char(from + 4), hex.get_char(from + 5));
    match (r, g, b) {
        (Some(r), Some(g), Some(b)) => Some(Rgb { r, g, b }),
        _ => None,
    }
}

} // verus!
