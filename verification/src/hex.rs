//! `#RRGGBB` strings and the 8-bit RGB triples they denote.

use vstd::prelude::*;
use vstd::string::*;

verus! {

/// An RGB colour with 8 bits per channel.
#[derive(Clone, Copy, Debug, PartialEq, Eq, Structural)]
pub struct ColorRGB {
    pub r: u8,
    pub g: u8,
    pub b: u8,
}

/// One of the three channels of an RGB colour.
#[derive(Clone, Copy, Debug, PartialEq, Eq, Structural)]
pub enum Channel {
    Red,
    Green,
    Blue,
}

/// Why a string is not a `#RRGGBB` colour.
#[derive(Clone, Copy, Debug, PartialEq, Eq, Structural)]
pub enum HexError {
    /// The string is not seven characters long, or does not start with `#`.
    Format,
    /// The two characters of `channel` are not both hexadecimal digits.
    Digit { channel: Channel, high: char, low: char },
}

impl HexError {
    /// The text of the error: for `Format` the shape that is asked for, for
    /// `Digit` the channel, as `R`, `G` or `B`.
    pub open spec fn message_text(self) -> Seq<char> {
        match self {
            HexError::Format => "Invalid hex format. Must be '#RRGGBB'."@,
            HexError::Digit { channel: Channel::Red, .. } => "Invalid hex R component"@,
            HexError::Digit { channel: Channel::Green, .. } => "Invalid hex G component"@,
            HexError::Digit { channel: Channel::Blue, .. } => "Invalid hex B component"@,
        }
    }

    /// A one-line description of the error.
    pub fn message(&self) -> (text: &'static str)
        ensures
            text@ == self.message_text(),
    {
        match self {
            HexError::Format => "Invalid hex format. Must be '#RRGGBB'.",
            HexError::Digit { channel: Channel::Red, .. } => "Invalid hex R component",
            HexError::Digit { channel: Channel::Green, .. } => "Invalid hex G component",
            HexError::Digit { channel: Channel::Blue, .. } => "Invalid hex B component",
        }
    }
}

/// The value of a hexadecimal digit, in either case; `None` for any other character.
pub open spec fn hex_digit_value(c: char) -> Option<int> {
    let n = c as int;
    if 0x30 <= n <= 0x39 {
        Some(n - 0x30)
    } else if 0x41 <= n <= 0x46 {
        Some(n - 0x41 + 10)
    } else if 0x61 <= n <= 0x66 {
        Some(n - 0x61 + 10)
    } else {
        None
    }
}

/// The byte written by two hexadecimal digits, most significant first.
pub open spec fn hex_pair_value(high: char, low: char) -> Option<int> {
    match (hex_digit_value(high), hex_digit_value(low)) {
        (Some(h), Some(l)) => Some(16 * h + l),
        _ => None,
    }
}

/// What channel `channel` of the seven-character string `s` holds: its byte,
/// or the error that names the channel and its two characters.
pub open spec fn channel_value(s: Seq<char>, channel: Channel) -> Result<u8, HexError>
    recommends
        s.len() == 7,
{
    let at = channel_offset(channel);
    match hex_pair_value(s[at], s[at + 1]) {
        Some(v) => Ok(v as u8),
        None => Err(HexError::Digit { channel, high: s[at], low: s[at + 1] }),
    }
}

/// Where the two digits of a channel start in a `#RRGGBB` string.
pub open spec fn channel_offset(channel: Channel) -> int {
    match channel {
        Channel::Red => 1,
        Channel::Green => 3,
        Channel::Blue => 5,
    }
}

/// The meaning of a string as a colour: the triple that `#RRGGBB` denotes,
/// `Format` for a wrong length or prefix, and otherwise the error of the
/// first channel, in the order red, green, blue, that is not two hex digits.
pub open spec fn parse_hex(s: Seq<char>) -> Result<ColorRGB, HexError> {
    if s.len() != 7 || s[0] != '#' {
        Err(HexError::Format)
    } else {
        match channel_value(s, Channel::Red) {
            Err(e) => Err(e),
            Ok(r) => match channel_value(s, Channel::Green) {
                Err(e) => Err(e),
                Ok(g) => match channel_value(s, Channel::Blue) {
                    Err(e) => Err(e),
                    Ok(b) => Ok(ColorRGB { r, g, b }),
                },
            },
        }
    }
}

/// Reads one hexadecimal digit.
fn hex_digit(c: char) -> (v: Option<u8>)
    ensures
        match v {
            Some(d) => hex_digit_value(c) == Some(d as int),
            None => hex_digit_value(c) is None,
        },
{
    let n: u32 = c as u32;
    if 0x30 <= n && n <= 0x39 {
        Some((n - 0x30) as u8)
    } else if 0x41 <= n && n <= 0x46 {
        Some((n - 0x41 + 10) as u8)
    } else if 0x61 <= n && n <= 0x66 {
        Some((n - 0x61 + 10) as u8)
    } else {
        None
    }
}

/// Reads the two digits of one channel of a seven-character string.
fn read_channel(hex: &str, channel: Channel) -> (res: Result<u8, HexError>)
    requires
        hex@.len() == 7,
    ensures
        res == channel_value(hex@, channel),
{
    let at: usize = match channel {
        Channel::Red => 1,
        Channel::Green => 3,
        Channel::Blue => 5,
    };
    let high = hex.get_char(at);
    let low = hex.get_char(at + 1);
    match (hex_digit(high), hex_digit(low)) {
        (Some(h), Some(l)) => Ok(16 * h + l),
        _ => Err(HexError::Digit { channel, high, low }),
    }
}

/// Parses a `#RRGGBB` string, digits in either case, into its RGB triple.
///
/// Nothing is trimmed: the string must be exactly seven characters.
pub fn hex_to_rgb(hex: &str) -> (res: Result<ColorRGB, HexError>)
    ensures
        res == parse_hex(hex@),
{
    if hex.unicode_len() != 7 {
        return Err(HexError::Format);
    }
    if hex.get_char(0) != '#' {
        return Err(HexError::Format);
    }
    let r = match read_channel(hex, Channel::Red) {
        Ok(v) => v,
        Err(e) => { return Err(e); },
    };
    let g = match read_channel(hex, Channel::Green) {
        Ok(v) => v,
        Err(e) => { return Err(e); },
    };
    let b = match read_channel(hex, Channel::Blue) {
        Ok(v) => v,
        Err(e) => { return Err(e); },
    };
    Ok(ColorRGB { r, g, b })
}

/// The upper-case hexadecimal digit of a value below sixteen.
pub open spec fn hex_digit_char(v: int) -> char
    recommends
        0 <= v < 16,
{
    if v < 10 {
        (0x30 + v) as char
    } else {
        (0x41 + v - 10) as char
    }
}

/// The seven characters of a colour: `#`, then two upper-case digits for
/// each of red, green and blue, each channel padded with a zero.
pub open spec fn format_hex(rgb: ColorRGB) -> Seq<char> {
    seq![
        '#',
        hex_digit_char(rgb.r as int / 16),
        hex_digit_char(rgb.r as int % 16),
        hex_digit_char(rgb.g as int / 16),
        hex_digit_char(rgb.g as int % 16),
        hex_digit_char(rgb.b as int / 16),
        hex_digit_char(rgb.b as int % 16),
    ]
}

/// A letter `a` to `z` in upper case; any other character unchanged.
pub open spec fn to_upper(c: char) -> char {
    if 0x61 <= c as int <= 0x7a {
        (c as int - 0x20) as char
    } else {
        c
    }
}

/// A string with each of its characters in upper case.
pub open spec fn uppercase(s: Seq<char>) -> Seq<char> {
    Seq::new(s.len(), |i: int| to_upper(s[i]))
}

/// The one-character string that holds the digit of `v`.
fn hex_digit_str(v: u8) -> (s: &'static str)
    requires
        v < 16,
    ensures
        s@ == seq![hex_digit_char(v as int)],
{
    match v {
        0 => {
            proof { reveal_strlit("0"); }
            "0"
        },
        1 => {
            proof { reveal_strlit("1"); }
            "1"
        },
        2 => {
            proof { reveal_strlit("2"); }
            "2"
        },
        3 => {
            proof { reveal_strlit("3"); }
            "3"
        },
        4 => {
            proof { reveal_strlit("4"); }
            "4"
        },
        5 => {
            proof { reveal_strlit("5"); }
            "5"
        },
        6 => {
            proof { reveal_strlit("6"); }
            "6"
        },
        7 => {
            proof { reveal_strlit("7"); }
            "7"
        },
        8 => {
            proof { reveal_strlit("8"); }
            "8"
        },
        9 => {
            proof { reveal_strlit("9"); }
            "9"
        },
        10 => {
            proof { reveal_strlit("A"); }
            "A"
        },
        11 => {
            proof { reveal_strlit("B"); }
            "B"
        },
        12 => {
            proof { reveal_strlit("C"); }
            "C"
        },
        13 => {
            proof { reveal_strlit("D"); }
            "D"
        },
        14 => {
            proof { reveal_strlit("E"); }
            "E"
        },
        _ => {
            proof { reveal_strlit("F"); }
            "F"
        },
    }
}

/// Appends the two digits of one channel.
fn append_channel(out: &mut String, v: u8)
    ensures
        final(out)@ == old(out)@.push(hex_digit_char(v as int / 16)).push(
            hex_digit_char(v as int % 16),
        ),
{
    out.append(hex_digit_str(v / 16));
    out.append(hex_digit_str(v % 16));
}

/// Writes a colour as `#RRGGBB`, digits in upper case.
pub fn rgb_to_hex(rgb: ColorRGB) -> (out: String)
    ensures
        out@ == format_hex(rgb),
{
    let mut out = String::new();
    proof { reveal_strlit("#"); }
    out.append("#");
    append_channel(&mut out, rgb.r);
    append_channel(&mut out, rgb.g);
    append_channel(&mut out, rgb.b);
    assert(out@ =~= format_hex(rgb));
    out
}

/// Writing the colour that a string denotes gives the string back in upper
/// case: for every `s` that parses, `format_hex` of the parsed triple is
/// `uppercase(s)`.
pub proof fn lemma_parse_then_format(s: Seq<char>)
    requires
        parse_hex(s) is Ok,
    ensures
        format_hex(parse_hex(s)->Ok_0) == uppercase(s),
{
    assert(format_hex(parse_hex(s)->Ok_0) =~= uppercase(s));
}

/// Parsing what was written gives the colour back: every triple survives
/// `format_hex` followed by `parse_hex`.
pub proof fn lemma_format_then_parse(rgb: ColorRGB)
    ensures
        parse_hex(format_hex(rgb)) == Ok::<ColorRGB, HexError>(rgb),
{
}

} // verus!
