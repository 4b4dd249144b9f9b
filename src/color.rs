//! Colours with four byte channels, read from and written as text.
use vstd::prelude::*;
use vstd::string::*;

use crate::text::{dec_text, hex_byte_text, hex_digits, hex_value, lemma_hex_digit_value, push_decimal, push_hex_byte};

verus! {

/// A colour with red, green, blue and alpha channels of one byte each.
#[derive(Eq, PartialEq, Structural, Copy, Clone, Debug, Default)]
pub struct Color {
    pub red: u8,
    pub green: u8,
    pub blue: u8,
    pub alpha: u8,
}

/// Why a text is not a colour.
#[derive(Eq, PartialEq, Structural, Copy, Clone, Debug)]
pub enum ColorError {
    /// The text does not have exactly nine characters.
    WrongLength,
    /// The text does not start with `#`.
    MissingHash,
    /// A character after the `#` is not a hexadecimal digit.
    InvalidDigit,
}

/// The byte that the two hexadecimal digits at `i` and `i + 1` of `s` give.
pub open spec fn byte_at(s: Seq<char>, i: int) -> u8 {
    (hex_value(s[i]).unwrap() * 16 + hex_value(s[i + 1]).unwrap()) as u8
}

/// Every character of `s` in `[lo, hi)` is a hexadecimal digit.
pub open spec fn all_hex(s: Seq<char>, lo: int, hi: int) -> bool {
    forall|i: int| lo <= i < hi ==> (#[trigger] hex_value(s[i])) is Some
}

/// What reading `s` as `#RRGGBBAA` gives.
pub open spec fn parse_color(s: Seq<char>) -> Result<Color, ColorError> {
    if s.len() != 9 {
        Err(ColorError::WrongLength)
    } else if s[0] != '#' {
        Err(ColorError::MissingHash)
    } else if !all_hex(s, 1, 9) {
        Err(ColorError::InvalidDigit)
    } else {
        Ok(Color { red: byte_at(s, 1), green: byte_at(s, 3), blue: byte_at(s, 5), alpha: byte_at(s, 7) })
    }
}

/// `#` and the four channels as two lowercase hexadecimal digits each.
pub open spec fn hex_text(c: Color) -> Seq<char> {
    "#"@ + hex_byte_text(c.red) + hex_byte_text(c.green) + hex_byte_text(c.blue) + hex_byte_text(
        c.alpha,
    )
}

/// `rgba(R, G, B, A)` with the channels in decimal.
pub open spec fn rgba_text(c: Color) -> Seq<char> {
    "rgba("@ + dec_text(c.red as nat) + ", "@ + dec_text(c.green as nat) + ", "@ + dec_text(
        c.blue as nat,
    ) + ", "@ + dec_text(c.alpha as nat) + ")"@
}

/// The colour whose channels are the bytes of `c`, most significant first.
pub open spec fn color_of_u32(c: u32) -> Color {
    Color {
        red: (c / 0x1000000) as u8,
        green: (c / 0x10000 % 0x100) as u8,
        blue: (c / 0x100 % 0x100) as u8,
        alpha: (c % 0x100) as u8,
    }
}

/// Value of the hexadecimal digit `c`, of either case.
fn hex_digit_value(c: char) -> (r: Option<u8>)
    ensures
        r is Some <==> hex_value(c) is Some,
        r is Some ==> r.unwrap() as nat == hex_value(c).unwrap(),
{
    if '0' <= c && c <= '9' {
        Some((c as u32 - '0' as u32) as u8)
    } else if 'a' <= c && c <= 'f' {
        Some((c as u32 - 'a' as u32 + 10) as u8)
    } else if 'A' <= c && c <= 'F' {
        Some((c as u32 - 'A' as u32 + 10) as u8)
    } else {
        None
    }
}

impl Color {
    /// Reads `#RRGGBBAA`: a `#` and exactly eight hexadecimal digits of either case.
    pub fn parse(s: &str) -> (r: Result<Color, ColorError>)
        ensures
            r == parse_color(s@),
    {
        let n = s.unicode_len();
        if n != 9 {
            return Err(ColorError::WrongLength);
        }
        let first = s.get_char(0);
        if first != '#' {
            return Err(ColorError::MissingHash);
        }
        assert(s@[0] == '#');
        let mut bytes: Vec<u8> = Vec::new();
        let mut i: usize = 1;
        while i < 9
            invariant
                n == s@.len() == 9,
                s@[0] == '#',
                1 <= i <= 9,
                i % 2 == 1,
                all_hex(s@, 1, i as int),
                bytes@.len() == (i - 1) / 2,
                forall|k: int| 0 <= k < bytes@.len() ==> bytes@[k] == byte_at(s@, 1 + 2 * k),
            decreases 9 - i,
        {
            let high = hex_digit_value(s.get_char(i));
            let low = hex_digit_value(s.get_char(i + 1));
            match (high, low) {
                (Some(h), Some(l)) => {
                    bytes.push(h * 16 + l);
                    i = i + 2;
                },
                _ => {
                    assert(!all_hex(s@, 1, 9)) by {
                        if high is None {
                            assert(hex_value(s@[i as int]) is None);
                        } else {
                            assert(hex_value(s@[i + 1]) is None);
                        }
                    }
                    return Err(ColorError::InvalidDigit);
                },
            }
        }
        Ok(Color { red: bytes[0], green: bytes[1], blue: bytes[2], alpha: bytes[3] })
    }

    /// `#` and the four channels as two lowercase hexadecimal digits each.
    pub fn hex(&self) -> (r: String)
        ensures
            r@ == hex_text(*self),
    {
        let mut out = String::from_str("#");
        push_hex_byte(&mut out, self.red);
        push_hex_byte(&mut out, self.green);
        push_hex_byte(&mut out, self.blue);
        push_hex_byte(&mut out, self.alpha);
        out
    }

    /// `rgba(R, G, B, A)` with each channel in decimal, alpha as its raw byte.
    pub fn rgba(&self) -> (r: String)
        ensures
            r@ == rgba_text(*self),
    {
        let mut out = String::from_str("rgba(");
        push_decimal(&mut out, self.red as u128);
        out.append(", ");
        push_decimal(&mut out, self.green as u128);
        out.append(", ");
        push_decimal(&mut out, self.blue as u128);
        out.append(", ");
        push_decimal(&mut out, self.alpha as u128);
        out.append(")");
        out
    }
}

impl From<u32> for Color {
    fn from(c: u32) -> (r: Color) {
        Color {
            red: (c / 0x1000000) as u8,
            green: (c / 0x10000 % 0x100) as u8,
            blue: (c / 0x100 % 0x100) as u8,
            alpha: (c % 0x100) as u8,
        }
    }
}

impl vstd::std_specs::convert::FromSpecImpl<u32> for Color {
    open spec fn obeys_from_spec() -> bool {
        true
    }

    open spec fn from_spec(c: u32) -> Color {
        color_of_u32(c)
    }
}

/// Sky colours for the amount of cloud cover.
#[derive(Eq, PartialEq, Structural, Copy, Clone, Debug)]
pub enum CloudColors {
    Clear,
    PartlyCloudy,
    Overcast,
}

/// The packed `0xRRGGBBAA` value of each sky colour.
pub open spec fn cloud_color_code(c: CloudColors) -> u32 {
    match c {
        CloudColors::Clear => 0xeeeef5,
        CloudColors::PartlyCloudy => 0xd5ae2,
        CloudColors::Overcast => 0xb6bfcb,
    }
}

impl CloudColors {
    /// The colour packed in this sky colour's code.
    pub fn color(&self) -> (r: Color)
        ensures
            r == color_of_u32(cloud_color_code(*self)),
    {
        let code: u32 = match self {
            CloudColors::Clear => 0xeeeef5,
            CloudColors::PartlyCloudy => 0xd5ae2,
            CloudColors::Overcast => 0xb6bfcb,
        };
        Color::from(code)
    }
}

impl core::str::FromStr for Color {
    type Err = ColorError;

    /// Reads `#RRGGBBAA`, as `Color::parse` does.
    fn from_str(s: &str) -> (r: Result<Color, ColorError>)
        ensures
            r == parse_color(s@),
    {
        Color::parse(s)
    }
}

/// Reading back the hexadecimal text of any colour gives that colour.
pub proof fn lemma_parse_hex_round_trip(c: Color)
    ensures
        parse_color(hex_text(c)) == Ok::<Color, ColorError>(c),
{
    reveal_strlit("#");
    let t = hex_text(c);
    assert(t.len() == 9);
    assert(t[0] == '#');
    let parts = seq![c.red, c.green, c.blue, c.alpha];
    assert forall|k: int| 0 <= k < 4 implies {
        &&& t[1 + 2 * k] == hex_digits()[parts[k] as int / 16]
        &&& t[2 + 2 * k] == hex_digits()[parts[k] as int % 16]
    } by {}
    assert forall|k: int| 0 <= k < 4 implies {
        &&& hex_value(t[1 + 2 * k]) == Some((parts[k] as int / 16) as nat)
        &&& hex_value(t[2 + 2 * k]) == Some((parts[k] as int % 16) as nat)
        &&& byte_at(t, 1 + 2 * k) == parts[k]
    } by {
        lemma_hex_digit_value(parts[k] as int / 16);
        lemma_hex_digit_value(parts[k] as int % 16);
    }
    assert forall|i: int| 1 <= i < 9 implies (#[trigger] hex_value(t[i])) is Some by {
        let k = (i - 1) / 2;
        assert(i == 1 + 2 * k || i == 2 + 2 * k);
    }
    assert(byte_at(t, 1) == parts[0]);
    assert(byte_at(t, 3) == parts[1]);
    assert(byte_at(t, 5) == parts[2]);
    assert(byte_at(t, 7) == parts[3]);
}

} // verus!
