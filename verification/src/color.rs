//! Color values shared by renderer implementations.

use vstd::prelude::*;

use crate::text::push_char;

verus! {

/// A red, green, blue, and alpha color value.
#[derive(Clone, Copy, Debug, PartialEq, Eq, Hash, Structural)]
pub struct Rgba {
    /// Red channel.
    pub red: u8,
    /// Green channel.
    pub green: u8,
    /// Blue channel.
    pub blue: u8,
    /// Alpha channel.
    pub alpha: u8,
}

/// The lowercase hexadecimal digit of a value below sixteen.
pub open spec fn hex_digit(n: int) -> char {
    if n < 10 {
        ('0' as int + n) as char
    } else {
        ('a' as int + (n - 10)) as char
    }
}

/// Two lowercase hexadecimal digits of a byte.
pub open spec fn hex_byte(b: u8) -> Seq<char> {
    seq![hex_digit(b as int / 16), hex_digit(b as int % 16)]
}

/// The CSS form `#rrggbb` of a color's red, green and blue channels.
pub open spec fn rgb_hex(c: Rgba) -> Seq<char> {
    seq!['#'] + hex_byte(c.red) + hex_byte(c.green) + hex_byte(c.blue)
}

/// Returns the lowercase hexadecimal digit of a value below sixteen.
pub fn hex_digit_char(n: u8) -> (r: char)
    requires
        n < 16,
    ensures
        r == hex_digit(n as int),
{
    if n < 10 {
        ((48u8 + n) as char)
    } else {
        ((97u8 + (n - 10)) as char)
    }
}

fn push_hex_byte(s: &mut String, b: u8)
    ensures
        final(s)@ == old(s)@ + hex_byte(b),
{
    push_char(s, hex_digit_char(b / 16));
    push_char(s, hex_digit_char(b % 16));
    assert(final(s)@ =~= old(s)@ + hex_byte(b));
}

impl Rgba {
    /// Creates a color from four channel values.
    pub fn new(red: u8, green: u8, blue: u8, alpha: u8) -> (r: Self)
        ensures
            r == (Rgba { red, green, blue, alpha }),
    {
        Rgba { red, green, blue, alpha }
    }

    /// Creates a fully opaque color.
    pub fn opaque(red: u8, green: u8, blue: u8) -> (r: Self)
        ensures
            r == (Rgba { red, green, blue, alpha: 255 }),
    {
        Self::new(red, green, blue, u8::MAX)
    }

    /// Returns whether the color is fully opaque.
    pub fn is_opaque(self) -> (r: bool)
        ensures
            r == (self.alpha == 255),
    {
        self.alpha == u8::MAX
    }

    /// Returns whether the color is fully transparent.
    pub fn is_transparent(self) -> (r: bool)
        ensures
            r == (self.alpha == 0),
    {
        self.alpha == 0
    }

    /// Formats the color as an opaque CSS hexadecimal value.
    pub fn to_rgb_hex(self) -> (r: Option<String>)
        ensures
            self.alpha == 255 ==> (r matches Some(s) && s@ == rgb_hex(self)),
            self.alpha != 255 ==> r is None,
    {
        if !self.is_opaque() {
            return None;
        }
        let mut s = String::new();
        push_char(&mut s, '#');
        push_hex_byte(&mut s, self.red);
        push_hex_byte(&mut s, self.green);
        push_hex_byte(&mut s, self.blue);
        assert(s@ =~= rgb_hex(self));
        Some(s)
    }

    /// The four channels in red, green, blue, alpha order.
    pub fn channels(self) -> (r: [u8; 4])
        ensures
            r@ == seq![self.red, self.green, self.blue, self.alpha],
    {
        let r = [self.red, self.green, self.blue, self.alpha];
        assert(r@ =~= seq![self.red, self.green, self.blue, self.alpha]);
        r
    }
}

} // verus!
