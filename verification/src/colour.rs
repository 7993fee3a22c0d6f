//! Reads the colour that a request names: by its name, or written as
//! hexadecimal digits.

use crate::text::chars_of;
use vstd::prelude::*;

verus! {

/// A colour: red, green, blue and opacity.
#[derive(Clone, Copy, Debug, PartialEq, Eq, Structural)]
pub struct Rgba {
    pub r: u8,
    pub g: u8,
    pub b: u8,
    pub a: u8,
}

/// The colour of a background that cannot be read: fully transparent.
pub open spec fn transparent() -> Rgba {
    Rgba { r: 0, g: 0, b: 0, a: 0 }
}

/// The colour of a foreground that cannot be read: opaque black.
pub open spec fn black() -> Rgba {
    Rgba { r: 0, g: 0, b: 0, a: 255 }
}

/// The value of a hexadecimal digit, in either case.
pub open spec fn digit_of(c: char) -> Option<int> {
    if '0' <= c <= '9' {
        Some(c as int - '0' as int)
    } else if 'a' <= c <= 'f' {
        Some(c as int - 'a' as int + 10)
    } else if 'A' <= c <= 'F' {
        Some(c as int - 'A' as int + 10)
    } else {
        None
    }
}

/// The number that two characters write in base sixteen: two digits, or a
/// plus sign and one digit.
pub open spec fn hex_pair(high: char, low: char) -> Option<u8> {
    match (digit_of(high), digit_of(low)) {
        (Some(h), Some(l)) => Some((16 * h + l) as u8),
        (None, Some(l)) => if high == '+' {
            Some(l as u8)
        } else {
            None
        },
        _ => None,
    }
}

/// How many bytes a character takes in UTF-8.
pub open spec fn utf8_len(c: char) -> int {
    if (c as u32) < 0x80 {
        1
    } else if (c as u32) < 0x800 {
        2
    } else if (c as u32) < 0x10000 {
        3
    } else {
        4
    }
}

/// The text without the `#` signs at its start.
pub open spec fn unmarked(text: Seq<char>) -> Seq<char>
    decreases text.len(),
{
    if text.len() > 0 && text[0] == '#' {
        unmarked(text.drop_first())
    } else {
        text
    }
}

/// The opacity that follows six digits. The seventh and eighth byte of the
/// text are read as a number where both are there and make up whole
/// characters; where they are not, the colour is opaque.
pub open spec fn opacity_of(digits: Seq<char>) -> Option<u8>
    recommends
        digits.len() >= 6,
{
    if digits.len() == 6 {
        Some(255u8)
    } else if utf8_len(digits[6]) == 2 {
        None
    } else if utf8_len(digits[6]) > 2 {
        Some(255u8)
    } else if digits.len() == 7 {
        Some(255u8)
    } else if utf8_len(digits[7]) > 1 {
        Some(255u8)
    } else {
        hex_pair(digits[6], digits[7])
    }
}

/// The colour that a text writes: after any `#` signs, two characters each
/// for red, green and blue, and the opacity after them. What follows the
/// eighth byte is not read.
pub open spec fn hex_colour(text: Seq<char>) -> Option<Rgba> {
    let digits = unmarked(text);
    if digits.len() < 6 {
        None
    } else {
        match (
            hex_pair(digits[0], digits[1]),
            hex_pair(digits[2], digits[3]),
            hex_pair(digits[4], digits[5]),
            opacity_of(digits),
        ) {
            (Some(r), Some(g), Some(b), Some(a)) => Some(Rgba { r, g, b, a }),
            _ => None,
        }
    }
}

fn digit(c: char) -> (value: Option<u8>)
    ensures
        match value {
            Some(v) => digit_of(c) == Some(v as int) && v < 16,
            None => digit_of(c) is None,
        },
{
    if '0' <= c && c <= '9' {
        Some((c as u32 - '0' as u32) as u8)
    } else if 'a' <= c && c <= 'f' {
        Some((c as u32 - 'a' as u32 + 10) as u8)
    } else if 'A' <= c && c <= 'F' {
        Some((c as u32 - 'A' as u32 + 10) as u8)
    } else {
        None
    }
}

/// The number that two characters write in base sixteen.
pub fn parse_pair(high: char, low: char) -> (value: Option<u8>)
    ensures
        value == hex_pair(high, low),
{
    match (digit(high), digit(low)) {
        (Some(h), Some(l)) => Some(16 * h + l),
        (None, Some(l)) => if high == '+' {
            Some(l)
        } else {
            None
        },
        _ => None,
    }
}

fn byte_len(c: char) -> (n: u8)
    ensures
        n == utf8_len(c),
{
    let code: u32 = c as u32;
    if code < 0x80 {
        1
    } else if code < 0x800 {
        2
    } else if code < 0x10000 {
        3
    } else {
        4
    }
}

/// Reads a colour written as hexadecimal digits.
pub fn parse_hex_colour(text: &str) -> (colour: Option<Rgba>)
    ensures
        colour == hex_colour(text@),
{
    let chars = chars_of(text);
    let mut start: usize = 0;
    assert(chars@.subrange(0, chars@.len() as int) =~= chars@);
    while start < chars.len() && chars[start] == '#'
        invariant
            start <= chars.len(),
            unmarked(chars@) == unmarked(chars@.subrange(start as int, chars@.len() as int)),
        decreases chars.len() - start,
    {
        proof {
            let rest = chars@.subrange(start as int, chars@.len() as int);
            assert(rest.drop_first() =~= chars@.subrange(start + 1, chars@.len() as int));
        }
        start += 1;
    }
    let ghost digits = chars@.subrange(start as int, chars@.len() as int);
    assert(unmarked(chars@) == digits);
    if chars.len() - start < 6 {
        return None;
    }
    let r = parse_pair(chars[start], chars[start + 1]);
    let g = parse_pair(chars[start + 2], chars[start + 3]);
    let b = parse_pair(chars[start + 4], chars[start + 5]);
    let a = if chars.len() - start == 6 {
        Some(255u8)
    } else {
        let first = byte_len(chars[start + 6]);
        if first == 2 {
            None
        } else if first > 2 {
            Some(255u8)
        } else if chars.len() - start == 7 {
            Some(255u8)
        } else if byte_len(chars[start + 7]) > 1 {
            Some(255u8)
        } else {
            parse_pair(chars[start + 6], chars[start + 7])
        }
    };
    match (r, g, b, a) {
        (Some(r), Some(g), Some(b), Some(a)) => Some(Rgba { r, g, b, a }),
        _ => None,
    }
}

/// The colour that a request means by a text: the colour of that name where
/// the text is the name of one, else the colour that the text writes in
/// digits, else `fallback`.
pub open spec fn colour_of(named: Option<Rgba>, text: Seq<char>, fallback: Rgba) -> Rgba {
    match named {
        Some(c) => c,
        None => match hex_colour(text) {
            Some(c) => c,
            None => fallback,
        },
    }
}

/// The foreground colour of a request. `named` is the colour that `text`
/// names, where it is the name of one; a name comes before digits, and a
/// text that is neither gives opaque black.
pub fn foreground_of(named: Option<Rgba>, text: &str) -> (colour: Rgba)
    ensures
        colour == colour_of(named, text@, black()),
{
    match named {
        Some(c) => c,
        None => match parse_hex_colour(text) {
            Some(c) => c,
            None => Rgba { r: 0, g: 0, b: 0, a: 255 },
        },
    }
}

/// The background colour of a request. `named` is the colour that `text`
/// names, where it is the name of one; a name comes before digits, and a
/// text that is neither gives a fully transparent background.
pub fn background_of(named: Option<Rgba>, text: &str) -> (colour: Rgba)
    ensures
        colour == colour_of(named, text@, transparent()),
{
    match named {
        Some(c) => c,
        None => match parse_hex_colour(text) {
            Some(c) => c,
            None => Rgba { r: 0, g: 0, b: 0, a: 0 },
        },
    }
}

/// A colour given by its name is the colour given by the digits that write
/// it, for the foreground and for the background alike: where `name` names
/// the colour that `digits` writes, both texts mean that colour.
pub proof fn name_and_digits_agree(colour: Rgba, name: Seq<char>, digits: Seq<char>, fallback: Rgba)
    requires
        hex_colour(digits) == Some(colour),
    ensures
        colour_of(Some(colour), name, fallback) == colour_of(None, digits, fallback),
        colour_of(Some(colour), name, fallback) == colour,
{
}

} // verus!
