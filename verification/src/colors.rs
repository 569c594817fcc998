//! The colour model: 8-bit RGB colours, their terminal escape sequence, and
//! the parsing of colours written as `#RRGGBB` or as `r,g,b`.

use crate::text::{
    decimal, decimal_value, digit_value, hex_digit_value, is_digit, is_hex_digit, is_numeral,
    numeral_digits, numeral_value, split, split_on, to_chars, trim, trim_bounds,
};
use vstd::prelude::*;

verus! {

/// A colour as three channel values: red, green, blue.
#[derive(Debug, Default, PartialEq)]
pub struct RGB<T>(pub T, pub T, pub T);

/// Access to the three channels of a colour.
pub trait RGBColor<T> {
    /// The channels as a triple: red, green, blue.
    spec fn channels(&self) -> (T, T, T);

    /// The red channel.
    fn r(&self) -> (out: T)
        ensures
            out == self.channels().0,
    ;

    /// The green channel.
    fn g(&self) -> (out: T)
        ensures
            out == self.channels().1,
    ;

    /// The blue channel.
    fn b(&self) -> (out: T)
        ensures
            out == self.channels().2,
    ;
}

impl<T> RGBColor<T> for RGB<T> where T: Copy {
    open spec fn channels(&self) -> (T, T, T) {
        (self.0, self.1, self.2)
    }

    fn r(&self) -> (out: T) {
        self.0
    }

    fn g(&self) -> (out: T) {
        self.1
    }

    fn b(&self) -> (out: T) {
        self.2
    }
}

/// The escape character that opens every terminal control sequence.
pub open spec fn escape() -> char {
    '\x1b'
}

/// The sequence that sets a terminal's foreground to the true colour
/// `(r, g, b)`: escape, `[38;2;`, the three channels in decimal with `;`
/// between them, and `m`.
pub open spec fn ansi_sequence(r: u8, g: u8, b: u8) -> Seq<char> {
    seq![escape(), '[', '3', '8', ';', '2', ';'] + decimal(r as nat) + seq![';'] + decimal(
        g as nat,
    ) + seq![';'] + decimal(b as nat) + seq!['m']
}

/// Appends `n` in decimal to `out`.
fn push_decimal(out: &mut String, n: u8)
    ensures
        final(out)@ == old(out)@ + decimal(n as nat),
{
    if n >= 100 {
        out.push((48u8 + n / 100) as char);
    }
    if n >= 10 {
        out.push((48u8 + (n / 10) % 10) as char);
    }
    out.push((48u8 + n % 10) as char);
    proof {
        reveal_with_fuel(decimal, 3);
    }
}

impl RGB<u8> {
    /// The escape sequence that makes this colour the foreground colour.
    pub fn ansi_code(&self) -> (out: String)
        ensures
            out@ == ansi_sequence(self.0, self.1, self.2),
    {
        let mut out = String::new();
        out.push('\x1b');
        out.push('[');
        out.push('3');
        out.push('8');
        out.push(';');
        out.push('2');
        out.push(';');
        push_decimal(&mut out, self.0);
        out.push(';');
        push_decimal(&mut out, self.1);
        out.push(';');
        push_decimal(&mut out, self.2);
        out.push('m');
        out
    }
}

/// Why a text is not a colour.
#[derive(Debug, PartialEq)]
pub enum ParseColorError {
    /// The text has the shape of neither notation.
    InvalidFormat,
    /// The text has the shape of a colour, but a component of it is no
    /// channel value.
    InvalidValues,
}

/// The colour that `#RRGGBB` writes. A text of seven characters that starts
/// with `#` has the shape; each pair of hexadecimal digits is one channel.
pub open spec fn parse_hex(s: Seq<char>) -> Result<RGB<u8>, ParseColorError> {
    if s.len() != 7 || s[0] != '#' {
        Err(ParseColorError::InvalidFormat)
    } else if !(forall|i: int| 1 <= i < 7 ==> is_hex_digit(#[trigger] s[i])) {
        Err(ParseColorError::InvalidValues)
    } else {
        Ok(
            RGB(
                (16 * hex_digit_value(s[1]) + hex_digit_value(s[2])) as u8,
                (16 * hex_digit_value(s[3]) + hex_digit_value(s[4])) as u8,
                (16 * hex_digit_value(s[5]) + hex_digit_value(s[6])) as u8,
            ),
        )
    }
}

/// The channel that one component of `r,g,b` writes: white space around it
/// is dropped; what is left must be a decimal numeral, or the format is
/// wrong, and must not exceed 255, or the value is.
pub open spec fn parse_channel(s: Seq<char>) -> Result<u8, ParseColorError> {
    let numeral = trim(s);
    if !is_numeral(numeral) {
        Err(ParseColorError::InvalidFormat)
    } else if numeral_value(numeral) > 255 {
        Err(ParseColorError::InvalidValues)
    } else {
        Ok(numeral_value(numeral) as u8)
    }
}

/// The colour that `r,g,b` writes: exactly three components between commas,
/// each a channel. A wrong format anywhere is reported before a wrong value.
pub open spec fn parse_rgb(s: Seq<char>) -> Result<RGB<u8>, ParseColorError> {
    let parts = split(s, ',');
    if parts.len() != 3 {
        Err(ParseColorError::InvalidFormat)
    } else {
        match (parse_channel(parts[0]), parse_channel(parts[1]), parse_channel(parts[2])) {
            (Ok(r), Ok(g), Ok(b)) => Ok(RGB(r, g, b)),
            (Err(ParseColorError::InvalidFormat), _, _) => Err(ParseColorError::InvalidFormat),
            (_, Err(ParseColorError::InvalidFormat), _) => Err(ParseColorError::InvalidFormat),
            (_, _, Err(ParseColorError::InvalidFormat)) => Err(ParseColorError::InvalidFormat),
            _ => Err(ParseColorError::InvalidValues),
        }
    }
}

/// The colour that a text writes: in hexadecimal where it starts with `#`,
/// else as three decimal components.
pub open spec fn parse_color(s: Seq<char>) -> Result<RGB<u8>, ParseColorError> {
    if s.len() > 0 && s[0] == '#' {
        parse_hex(s)
    } else {
        parse_rgb(s)
    }
}

/// The value of a hexadecimal digit, if `c` is one.
fn hex_digit(c: char) -> (out: Option<u8>)
    ensures
        out is Some <==> is_hex_digit(c),
        out matches Some(v) ==> v == hex_digit_value(c),
{
    let n: u32 = c as u32;
    if 0x30 <= n && n <= 0x39 {
        Some((n - 0x30) as u8)
    } else if 0x61 <= n && n <= 0x66 {
        Some((n - 0x61 + 10) as u8)
    } else if 0x41 <= n && n <= 0x46 {
        Some((n - 0x41 + 10) as u8)
    } else {
        None
    }
}

/// The value of a decimal digit, if `c` is one.
fn decimal_digit(c: char) -> (out: Option<u8>)
    ensures
        out is Some <==> is_digit(c),
        out matches Some(v) ==> v == digit_value(c),
{
    let n: u32 = c as u32;
    if 0x30 <= n && n <= 0x39 {
        Some((n - 0x30) as u8)
    } else {
        None
    }
}

/// The channel that the two hexadecimal digits at `at` and `at + 1` write.
fn hex_pair(chars: &Vec<char>, at: usize) -> (out: Option<u8>)
    requires
        at + 1 < chars.len(),
    ensures
        out is Some <==> is_hex_digit(chars[at as int]) && is_hex_digit(chars[at + 1]),
        out matches Some(v) ==> v == 16 * hex_digit_value(chars[at as int]) + hex_digit_value(
            chars[at + 1],
        ),
{
    match (hex_digit(chars[at]), hex_digit(chars[at + 1])) {
        (Some(high), Some(low)) => Some(16 * high + low),
        _ => None,
    }
}

/// The channel that one component of `r,g,b` writes.
fn channel_of(part: &Vec<char>) -> (out: Result<u8, ParseColorError>)
    ensures
        out == parse_channel(part@),
{
    let (from, to) = trim_bounds(part);
    let ghost numeral = part@.subrange(from as int, to as int);
    let first: usize = if from < to && part[from] == '+' {
        from + 1
    } else {
        from
    };
    if first == to {
        return Err(ParseColorError::InvalidFormat);
    }
    let mut value: u32 = 0;
    let mut at: usize = first;
    while at < to
        invariant
            first <= at <= to <= part.len(),
            numeral == trim(part@),
            numeral_digits(numeral) == part@.subrange(first as int, to as int),
            forall|i: int| first <= i < at ==> is_digit(#[trigger] part[i]),
            value <= 256,
            value < 256 ==> value == decimal_value(part@.subrange(first as int, at as int)),
            value == 256 ==> decimal_value(part@.subrange(first as int, at as int)) >= 256,
        decreases to - at,
    {
        let digit: u32 = match decimal_digit(part[at]) {
            Some(d) => d as u32,
            None => {
                assert(!is_digit(numeral_digits(numeral)[at - first]));
                return Err(ParseColorError::InvalidFormat);
            },
        };
        assert(part@.subrange(first as int, at + 1).drop_last() == part@.subrange(
            first as int,
            at as int,
        ));
        value = if value * 10 + digit > 255 {
            256
        } else {
            value * 10 + digit
        };
        at += 1;
    }
    if value > 255 {
        Err(ParseColorError::InvalidValues)
    } else {
        Ok(value as u8)
    }
}

/// The colour that `chars` write as `#RRGGBB`.
fn hex_color(chars: &Vec<char>) -> (out: Result<RGB<u8>, ParseColorError>)
    ensures
        out == parse_hex(chars@),
{
    if chars.len() != 7 || chars[0] != '#' {
        return Err(ParseColorError::InvalidFormat);
    }
    match (hex_pair(chars, 1), hex_pair(chars, 3), hex_pair(chars, 5)) {
        (Some(r), Some(g), Some(b)) => Ok(RGB(r, g, b)),
        _ => Err(ParseColorError::InvalidValues),
    }
}

/// The colour that `chars` write as `r,g,b`.
fn rgb_color(chars: &Vec<char>) -> (out: Result<RGB<u8>, ParseColorError>)
    ensures
        out == parse_rgb(chars@),
{
    let parts = split_on(chars, ',');
    if parts.len() != 3 {
        return Err(ParseColorError::InvalidFormat);
    }
    match (channel_of(&parts[0]), channel_of(&parts[1]), channel_of(&parts[2])) {
        (Ok(r), Ok(g), Ok(b)) => Ok(RGB(r, g, b)),
        (Err(ParseColorError::InvalidFormat), _, _) => Err(ParseColorError::InvalidFormat),
        (_, Err(ParseColorError::InvalidFormat), _) => Err(ParseColorError::InvalidFormat),
        (_, _, Err(ParseColorError::InvalidFormat)) => Err(ParseColorError::InvalidFormat),
        _ => Err(ParseColorError::InvalidValues),
    }
}

impl RGB<u8> {
    /// Reads a colour written as `#RRGGBB`: `#`, then six hexadecimal
    /// digits in either case, two for each channel. A text of another
    /// length or without the `#` has not the format; one of the six that
    /// is no hexadecimal digit is a wrong value.
    pub fn from_hex_str(s: &str) -> (out: Result<RGB<u8>, ParseColorError>)
        ensures
            out == parse_hex(s@),
    {
        hex_color(&to_chars(s))
    }

    /// Reads a colour written as three decimal components between commas,
    /// with or without white space around each. A component is a numeral of
    /// decimal digits, which a `+` may precede. Where there are not three
    /// components, or one is no numeral, the text has not the format; a
    /// numeral above 255 is a wrong value.
    pub fn from_rgb_str(s: &str) -> (out: Result<RGB<u8>, ParseColorError>)
        ensures
            out == parse_rgb(s@),
    {
        rgb_color(&to_chars(s))
    }
}

impl std::str::FromStr for RGB<u8> {
    type Err = ParseColorError;

    /// Reads a colour in either notation: as `#RRGGBB` where the text
    /// starts with `#`, else as `r,g,b`.
    fn from_str(s: &str) -> (out: Result<RGB<u8>, ParseColorError>)
        ensures
            out == parse_color(s@),
    {
        let chars = to_chars(s);
        if chars.len() > 0 && chars[0] == '#' {
            hex_color(&chars)
        } else {
            rgb_color(&chars)
        }
    }
}

} // verus!
