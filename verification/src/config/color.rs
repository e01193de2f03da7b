//! Colors of the configuration: plain RGBA colors and linear gradients.
use vstd::prelude::*;

verus! {

/// An opaque or translucent color, one byte per channel.
#[derive(Debug, Clone, Copy, PartialEq, Eq, Structural)]
pub struct Rgba {
    pub red: u8,
    pub green: u8,
    pub blue: u8,
    pub alpha: u8,
}

impl Rgba {
    pub open spec fn white() -> Rgba {
        Rgba { red: 255, green: 255, blue: 255, alpha: 255 }
    }

    pub open spec fn black() -> Rgba {
        Rgba { red: 0, green: 0, blue: 0, alpha: 255 }
    }

    pub open spec fn red() -> Rgba {
        Rgba { red: 255, green: 0, blue: 0, alpha: 255 }
    }

    pub fn new_white() -> (r: Rgba)
        ensures
            r == Rgba::white(),
    {
        Rgba { red: 255, green: 255, blue: 255, alpha: 255 }
    }

    pub fn new_black() -> (r: Rgba)
        ensures
            r == Rgba::black(),
    {
        Rgba { red: 0, green: 0, blue: 0, alpha: 255 }
    }

    pub fn new_red() -> (r: Rgba)
        ensures
            r == Rgba::red(),
    {
        Rgba { red: 255, green: 0, blue: 0, alpha: 255 }
    }
}

/// A gradient along the given angle through the given colors.
#[derive(Debug, PartialEq, Eq)]
pub struct LinearGradient {
    pub degree: i16,
    pub colors: Vec<Rgba>,
}

/// The fill of a surface: a plain color or a linear gradient.
#[derive(Debug, PartialEq, Eq)]
pub enum Color {
    LinearGradient(LinearGradient),
    Rgba(Rgba),
}

impl Color {
    pub fn new_rgba_white() -> (r: Color)
        ensures
            r == Color::Rgba(Rgba::white()),
    {
        Color::Rgba(Rgba::new_white())
    }

    pub fn new_rgba_black() -> (r: Color)
        ensures
            r == Color::Rgba(Rgba::black()),
    {
        Color::Rgba(Rgba::new_black())
    }

    pub fn new_rgba_red() -> (r: Color)
        ensures
            r == Color::Rgba(Rgba::red()),
    {
        Color::Rgba(Rgba::new_red())
    }
}

// ---------------------------------------------------------------------------
// Colors written in hexadecimal
// ---------------------------------------------------------------------------

/// The value of a hexadecimal digit, -1 for any other character.
pub open spec fn hex_value(c: char) -> int {
    if '0' <= c <= '9' {
        c as int - '0' as int
    } else if 'a' <= c <= 'f' {
        c as int - 'a' as int + 10
    } else if 'A' <= c <= 'F' {
        c as int - 'A' as int + 10
    } else {
        -1
    }
}

/// A byte written as two hexadecimal digits.
pub open spec fn hex_byte(high: char, low: char) -> u8 {
    (hex_value(high) * 16 + hex_value(low)) as u8
}

/// Whether the characters from position 1 on are hexadecimal digits.
pub open spec fn hex_digits_after_hash(s: Seq<char>) -> bool {
    forall|i: int| 1 <= i < s.len() ==> hex_value(#[trigger] s[i]) >= 0
}

/// The color that a hexadecimal text writes: `#rgb` (each digit doubled), `#rrggbb`, or
/// `#rrggbbaa`; opaque where the alpha is not written. Nothing for any other text.
pub open spec fn hex_color(s: Seq<char>) -> Option<Rgba> {
    if s.len() > 0 && s[0] == '#' && hex_digits_after_hash(s) {
        if s.len() == 4 {
            Some(
                Rgba {
                    red: hex_byte(s[1], s[1]),
                    green: hex_byte(s[2], s[2]),
                    blue: hex_byte(s[3], s[3]),
                    alpha: 255,
                },
            )
        } else if s.len() == 7 || s.len() == 9 {
            Some(
                Rgba {
                    red: hex_byte(s[1], s[2]),
                    green: hex_byte(s[3], s[4]),
                    blue: hex_byte(s[5], s[6]),
                    alpha: if s.len() == 9 {
                        hex_byte(s[7], s[8])
                    } else {
                        255
                    },
                },
            )
        } else {
            None
        }
    } else {
        None
    }
}

fn hex_digit(c: char) -> (r: Option<u8>)
    ensures
        hex_value(c) >= 0 ==> r == Some(hex_value(c) as u8),
        hex_value(c) < 0 ==> r is None,
{
    if '0' <= c && c <= '9' {
        Some((c as u32 - '0' as u32) as u8)
    } else if 'a' <= c && c <= 'f' {
        Some((c as u32 - 'a' as u32 + 10) as u8)
    } else if 'A' <= c && c <= 'F' {
        Some((c as u32 - 'A' as u32 + 10) as u8)
    } else {
        None
    }
}

impl Rgba {
    /// Reads a color written in hexadecimal (see [`hex_color`]).
    pub fn from_hex(value: &str) -> (r: Option<Rgba>)
        ensures
            r == hex_color(value@),
    {
        let chars = crate::unicode::chars_of(value);
        let n = chars.len();
        if n == 0 || chars[0] != '#' || !(n == 4 || n == 7 || n == 9) {
            return None;
        }
        let mut digits: Vec<u8> = Vec::new();
        let mut i: usize = 1;
        while i < n
            invariant
                n == chars@.len(),
                chars@ == value@,
                1 <= i <= n,
                digits@.len() == i - 1,
                forall|j: int| 1 <= j < i ==> hex_value(#[trigger] chars@[j]) >= 0,
                forall|j: int| 1 <= j < i ==> digits@[j - 1] == hex_value(#[trigger] chars@[j]),
            decreases n - i,
        {
            match hex_digit(chars[i]) {
                Some(d) => digits.push(d),
                None => {
                    return None;
                },
            }
            i = i + 1;
        }
        assert(hex_digits_after_hash(value@));
        if n == 4 {
            Some(
                Rgba {
                    red: digits[0] * 16 + digits[0],
                    green: digits[1] * 16 + digits[1],
                    blue: digits[2] * 16 + digits[2],
                    alpha: 255,
                },
            )
        } else {
            let alpha = if n == 9 {
                digits[6] * 16 + digits[7]
            } else {
                255
            };
            Some(
                Rgba {
                    red: digits[0] * 16 + digits[1],
                    green: digits[2] * 16 + digits[3],
                    blue: digits[4] * 16 + digits[5],
                    alpha,
                },
            )
        }
    }
}

} // verus!
