//! The colors of a rendering: four channels, read from a CSS color
//! specification and written back as hexadecimal markup.

use vstd::prelude::*;
use vstd::string::StringExecFns;
use csscolorparser::ParseColorError;

verus! {

/// A color of four channels, each from 0 to 255; an alpha of 255 is opaque.
#[derive(Clone, Copy, Debug, PartialEq, Eq, Structural)]
pub struct Color {
    pub red: u8,
    pub green: u8,
    pub blue: u8,
    pub alpha: u8,
}

/// Why a text is no color specification.
#[derive(Clone, Copy, Debug, PartialEq, Eq, Structural)]
pub enum ColorError {
    /// Malformed hexadecimal notation.
    InvalidHex,
    /// Malformed `rgb()` or `rgba()` notation.
    InvalidRgb,
    /// Malformed `hsl()` or `hsla()` notation.
    InvalidHsl,
    /// Malformed `hwb()` or `hwba()` notation.
    InvalidHwb,
    /// Malformed `hsv()` or `hsva()` notation.
    InvalidHsv,
    /// A functional notation of an unknown name.
    InvalidFunction,
    /// Neither a color name nor any notation.
    InvalidUnknown,
}

/// What a text denotes as a CSS color specification: a named color, a
/// hexadecimal notation or one of the functional notations, each with or
/// without alpha.
pub uninterp spec fn css_color(text: Seq<char>) -> Result<Color, ColorError>;

/// The hexadecimal digit of a number below 16, in lower case.
pub open spec fn hex_digit(n: int) -> char {
    if n == 0 {
        '0'
    } else if n == 1 {
        '1'
    } else if n == 2 {
        '2'
    } else if n == 3 {
        '3'
    } else if n == 4 {
        '4'
    } else if n == 5 {
        '5'
    } else if n == 6 {
        '6'
    } else if n == 7 {
        '7'
    } else if n == 8 {
        '8'
    } else if n == 9 {
        '9'
    } else if n == 10 {
        'a'
    } else if n == 11 {
        'b'
    } else if n == 12 {
        'c'
    } else if n == 13 {
        'd'
    } else if n == 14 {
        'e'
    } else {
        'f'
    }
}

/// The two hexadecimal digits of a channel.
pub open spec fn hex_pair(channel: u8) -> Seq<char> {
    seq![hex_digit(channel as int / 16), hex_digit(channel as int % 16)]
}

/// The hexadecimal notation of a color: `#`, then two digits for each of red,
/// green and blue, then two for alpha unless the color is opaque.
pub open spec fn hex_text(color: Color) -> Seq<char> {
    seq!['#'] + hex_pair(color.red) + hex_pair(color.green) + hex_pair(color.blue) + if color.alpha
        < 255 {
        hex_pair(color.alpha)
    } else {
        Seq::<char>::empty()
    }
}

/// `csscolorparser::parse`, then `Color::to_rgba8` on what it read: the
/// channels of the color that the text denotes, rounded to eight bits each.
#[verifier::external_body]
fn css_parse(text: &str) -> (r: Result<Color, ColorError>)
    ensures
        r == css_color(text@),
{
    match csscolorparser::parse(text).map(|c| c.to_rgba8()) {
        Ok([red, green, blue, alpha]) => Ok(Color { red, green, blue, alpha }),
        Err(ParseColorError::InvalidHex) => Err(ColorError::InvalidHex),
        Err(ParseColorError::InvalidRgb) => Err(ColorError::InvalidRgb),
        Err(ParseColorError::InvalidHsl) => Err(ColorError::InvalidHsl),
        Err(ParseColorError::InvalidHwb) => Err(ColorError::InvalidHwb),
        Err(ParseColorError::InvalidHsv) => Err(ColorError::InvalidHsv),
        Err(ParseColorError::InvalidFunction) => Err(ColorError::InvalidFunction),
        Err(ParseColorError::InvalidUnknown) => Err(ColorError::InvalidUnknown),
    }
}

/// The text of one hexadecimal digit.
fn hex_digit_text(n: u8) -> (r: &'static str)
    requires
        n < 16,
    ensures
        r@ == seq![hex_digit(n as int)],
{
    proof {
        reveal_strlit("0");
        reveal_strlit("1");
        reveal_strlit("2");
        reveal_strlit("3");
        reveal_strlit("4");
        reveal_strlit("5");
        reveal_strlit("6");
        reveal_strlit("7");
        reveal_strlit("8");
        reveal_strlit("9");
        reveal_strlit("a");
        reveal_strlit("b");
        reveal_strlit("c");
        reveal_strlit("d");
        reveal_strlit("e");
        reveal_strlit("f");
    }
    let r = if n == 0 {
        "0"
    } else if n == 1 {
        "1"
    } else if n == 2 {
        "2"
    } else if n == 3 {
        "3"
    } else if n == 4 {
        "4"
    } else if n == 5 {
        "5"
    } else if n == 6 {
        "6"
    } else if n == 7 {
        "7"
    } else if n == 8 {
        "8"
    } else if n == 9 {
        "9"
    } else if n == 10 {
        "a"
    } else if n == 11 {
        "b"
    } else if n == 12 {
        "c"
    } else if n == 13 {
        "d"
    } else if n == 14 {
        "e"
    } else {
        "f"
    };
    assert(r@ =~= seq![hex_digit(n as int)]);
    r
}

/// Appends the two hexadecimal digits of a channel to a text.
fn push_hex_pair(text: &mut String, channel: u8)
    ensures
        final(text)@ == old(text)@ + hex_pair(channel),
{
    text.append(hex_digit_text(channel / 16));
    text.append(hex_digit_text(channel % 16));
    assert(text@ =~= old(text)@ + hex_pair(channel));
}

impl Color {
    /// A color from its four channels.
    pub fn new(red: u8, green: u8, blue: u8, alpha: u8) -> (c: Color)
        ensures
            c == (Color { red, green, blue, alpha }),
    {
        Color { red, green, blue, alpha }
    }

    /// Reads a CSS color specification.
    pub fn parse(text: &str) -> (r: Result<Color, ColorError>)
        ensures
            r == css_color(text@),
    {
        css_parse(text)
    }

    /// The channels in the order red, green, blue, alpha.
    pub fn channels(&self) -> (c: [u8; 4])
        ensures
            c@ == seq![self.red, self.green, self.blue, self.alpha],
    {
        let c = [self.red, self.green, self.blue, self.alpha];
        assert(c@ =~= seq![self.red, self.green, self.blue, self.alpha]);
        c
    }

    /// The color in hexadecimal notation, which a parser of markup reads back
    /// to the same four channels.
    pub fn to_hex_string(&self) -> (text: String)
        ensures
            text@ == hex_text(*self),
    {
        proof {
            reveal_strlit("#");
        }
        let mut text = String::from_str("#");
        assert(text@ =~= seq!['#']);
        push_hex_pair(&mut text, self.red);
        push_hex_pair(&mut text, self.green);
        push_hex_pair(&mut text, self.blue);
        if self.alpha < 255 {
            push_hex_pair(&mut text, self.alpha);
        }
        assert(text@ =~= hex_text(*self));
        text
    }
}

/// The hexadecimal notation is lossless: two colors with the same notation
/// are the same color.
pub proof fn lemma_hex_text_lossless(first: Color, second: Color)
    requires
        hex_text(first) == hex_text(second),
    ensures
        first == second,
{
    let a = hex_text(first);
    let b = hex_text(second);
    assert(a.len() == if first.alpha < 255 {
        9nat
    } else {
        7nat
    });
    assert(b.len() == if second.alpha < 255 {
        9nat
    } else {
        7nat
    });
    assert(hex_pair(first.red) =~= a.subrange(1, 3));
    assert(hex_pair(second.red) =~= b.subrange(1, 3));
    lemma_hex_pair_lossless(first.red, second.red);
    assert(hex_pair(first.green) =~= a.subrange(3, 5));
    assert(hex_pair(second.green) =~= b.subrange(3, 5));
    lemma_hex_pair_lossless(first.green, second.green);
    assert(hex_pair(first.blue) =~= a.subrange(5, 7));
    assert(hex_pair(second.blue) =~= b.subrange(5, 7));
    lemma_hex_pair_lossless(first.blue, second.blue);
    if first.alpha < 255 {
        assert(hex_pair(first.alpha) =~= a.subrange(7, 9));
        assert(hex_pair(second.alpha) =~= b.subrange(7, 9));
        lemma_hex_pair_lossless(first.alpha, second.alpha);
    }
}

/// Two channels with the same two hexadecimal digits are the same channel.
pub proof fn lemma_hex_pair_lossless(first: u8, second: u8)
    requires
        hex_pair(first) == hex_pair(second),
    ensures
        first == second,
{
    assert(hex_pair(first)[0] == hex_pair(second)[0]);
    assert(hex_pair(first)[1] == hex_pair(second)[1]);
    assert(first as int / 16 == second as int / 16);
    assert(first as int % 16 == second as int % 16);
}

} // verus!
