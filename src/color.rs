//! RGBA colors and their `#rgb` / `#rgba` / `#rrggbb` / `#rrggbbaa` hex notation.

use vstd::prelude::*;

verus! {

/// A color with four 8-bit channels.
#[derive(Clone, Copy, Debug, PartialEq, Eq, Structural)]
pub struct Color {
    pub r: u8,
    pub g: u8,
    pub b: u8,
    pub a: u8,
}

/// The byte of `n` that starts at bit `8 * k`.
pub open spec fn byte_of(n: u32, k: int) -> u8 {
    if k == 0 {
        (n % 0x100) as u8
    } else if k == 1 {
        (n / 0x100 % 0x100) as u8
    } else if k == 2 {
        (n / 0x1_0000 % 0x100) as u8
    } else {
        (n / 0x100_0000 % 0x100) as u8
    }
}

/// The nibble of `n` that starts at bit `4 * k`, widened to a byte by
/// repeating it in both halves (`0xa` becomes `0xaa`).
pub open spec fn nibble_byte(n: u32, k: int) -> u8 {
    let v = if k == 0 {
        n % 0x10
    } else if k == 1 {
        n / 0x10 % 0x10
    } else if k == 2 {
        n / 0x100 % 0x10
    } else {
        n / 0x1000 % 0x10
    };
    (v * 17) as u8
}

impl Color {
    pub fn new(r: u8, g: u8, b: u8, a: u8) -> (c: Color)
        ensures
            c == (Color { r, g, b, a }),
    {
        Color { r, g, b, a }
    }

    /// `0xrrggbb`, opaque.
    pub fn from_rgb(n: u32) -> (c: Color)
        ensures
            c == (Color { r: byte_of(n, 2), g: byte_of(n, 1), b: byte_of(n, 0), a: 255 }),
    {
        Color::new((n / 0x1_0000 % 0x100) as u8, (n / 0x100 % 0x100) as u8, (n % 0x100) as u8, 255)
    }

    /// `0xrrggbbaa`.
    pub fn from_rgba(n: u32) -> (c: Color)
        ensures
            c == (Color { r: byte_of(n, 3), g: byte_of(n, 2), b: byte_of(n, 1), a: byte_of(n, 0) }),
    {
        Color::new(
            (n / 0x100_0000 % 0x100) as u8,
            (n / 0x1_0000 % 0x100) as u8,
            (n / 0x100 % 0x100) as u8,
            (n % 0x100) as u8,
        )
    }

    /// `0xrgb`, opaque; each nibble fills a whole byte.
    pub fn from_rgb_packed(n: u32) -> (c: Color)
        ensures
            c == (Color {
                r: nibble_byte(n, 2),
                g: nibble_byte(n, 1),
                b: nibble_byte(n, 0),
                a: 255,
            }),
    {
        Color::new(
            (n / 0x100 % 0x10) as u8 * 17,
            (n / 0x10 % 0x10) as u8 * 17,
            (n % 0x10) as u8 * 17,
            255,
        )
    }

    /// `0xrgba`; each nibble fills a whole byte.
    pub fn from_rgba_packed(n: u32) -> (c: Color)
        ensures
            c == (Color {
                r: nibble_byte(n, 3),
                g: nibble_byte(n, 2),
                b: nibble_byte(n, 1),
                a: nibble_byte(n, 0),
            }),
    {
        Color::new(
            (n / 0x1000 % 0x10) as u8 * 17,
            (n / 0x100 % 0x10) as u8 * 17,
            (n / 0x10 % 0x10) as u8 * 17,
            (n % 0x10) as u8 * 17,
        )
    }

    /// Reads `#rrggbb`, `#rrggbbaa`, `#rgb` or `#rgba` (digits in either case).
    pub fn parse(s: &str) -> (r: Result<Color, ColorError>)
        ensures
            r == parse_hex(s@),
    {
        let len = s.unicode_len();
        if len == 0 || s.get_char(0) != '#' {
            return Err(ColorError::MissingHash);
        }
        let n = len - 1;
        if !(n == 3 || n == 4 || n == 6 || n == 8) {
            return Err(ColorError::InvalidHex);
        }
        let ghost d = s@.drop_first();
        let mut v: Vec<u8> = Vec::new();
        let mut i: usize = 1;
        while i < len
            invariant
                len == s@.len(),
                s@[0] == '#',
                n == len - 1,
                n == 3 || n == 4 || n == 6 || n == 8,
                d == s@.drop_first(),
                1 <= i <= len,
                v@.len() == i - 1,
                forall|j: int| 0 <= j < i - 1 ==> is_hex(#[trigger] d[j]) && v@[j] == hex_value(d[j]),
            decreases len - i,
        {
            let c = s.get_char(i);
            match hex_digit(c) {
                Some(x) => v.push(x),
                None => {
                    assert(d[i - 1] == s@[i as int]);
                    assert(!is_hex(d[i - 1]));
                    assert(!all_hex(d));
                    return Err(ColorError::InvalidHex);
                },
            }
            i += 1;
        }
        assert(all_hex(d));
        let c = if n == 6 {
            Color::new(v[0] * 16 + v[1], v[2] * 16 + v[3], v[4] * 16 + v[5], 255)
        } else if n == 8 {
            Color::new(v[0] * 16 + v[1], v[2] * 16 + v[3], v[4] * 16 + v[5], v[6] * 16 + v[7])
        } else if n == 3 {
            Color::new(v[0] * 17, v[1] * 17, v[2] * 17, 255)
        } else {
            Color::new(v[0] * 17, v[1] * 17, v[2] * 17, v[3] * 17)
        };
        Ok(c)
    }

    /// The hex notation of the color: `#rrggbb` when it is opaque,
    /// `#rrggbbaa` otherwise, with lowercase digits.
    pub fn to_hex(&self) -> (s: String)
        ensures
            s@ == hex_text(*self),
    {
        let mut s = String::new();
        push_char(&mut s, '#');
        push_byte(&mut s, self.r);
        push_byte(&mut s, self.g);
        push_byte(&mut s, self.b);
        if self.a != 255 {
            push_byte(&mut s, self.a);
        }
        s
    }
}

impl Default for Color {
    /// Opaque black.
    fn default() -> (c: Color)
        ensures
            c == (Color { r: 0, g: 0, b: 0, a: 255 }),
    {
        Color::new(0, 0, 0, 255)
    }
}

/// Why a text is not a hex color.
#[derive(Clone, Copy, Debug, PartialEq, Eq, Structural)]
pub enum ColorError {
    /// The text does not start with `#`.
    MissingHash,
    /// After the `#` there are not 3, 4, 6 or 8 hex digits.
    InvalidHex,
}

/// The value of a hex digit, or -1 for any other character.
pub open spec fn hex_value(c: char) -> int {
    if '0' <= c && c <= '9' {
        c as int - '0' as int
    } else if 'a' <= c && c <= 'f' {
        c as int - 'a' as int + 10
    } else if 'A' <= c && c <= 'F' {
        c as int - 'A' as int + 10
    } else {
        -1
    }
}

pub open spec fn is_hex(c: char) -> bool {
    hex_value(c) >= 0
}

pub open spec fn all_hex(d: Seq<char>) -> bool {
    forall|j: int| 0 <= j < d.len() ==> is_hex(#[trigger] d[j])
}

/// The byte written by the two digits at `i` and `i + 1`.
pub open spec fn pair_value(d: Seq<char>, i: int) -> u8 {
    (hex_value(d[i]) * 16 + hex_value(d[i + 1])) as u8
}

/// The byte written by the single digit at `i`: the digit repeated.
pub open spec fn short_value(d: Seq<char>, i: int) -> u8 {
    (hex_value(d[i]) * 17) as u8
}

/// What a hex color text denotes.
pub open spec fn parse_hex(s: Seq<char>) -> Result<Color, ColorError> {
    if s.len() == 0 || s[0] != '#' {
        Err(ColorError::MissingHash)
    } else {
        let d = s.drop_first();
        if !(d.len() == 3 || d.len() == 4 || d.len() == 6 || d.len() == 8) || !all_hex(d) {
            Err(ColorError::InvalidHex)
        } else if d.len() == 6 {
            Ok(Color { r: pair_value(d, 0), g: pair_value(d, 2), b: pair_value(d, 4), a: 255 })
        } else if d.len() == 8 {
            Ok(
                Color {
                    r: pair_value(d, 0),
                    g: pair_value(d, 2),
                    b: pair_value(d, 4),
                    a: pair_value(d, 6),
                },
            )
        } else if d.len() == 3 {
            Ok(Color { r: short_value(d, 0), g: short_value(d, 1), b: short_value(d, 2), a: 255 })
        } else {
            Ok(
                Color {
                    r: short_value(d, 0),
                    g: short_value(d, 1),
                    b: short_value(d, 2),
                    a: short_value(d, 3),
                },
            )
        }
    }
}

/// The lowercase digit for a value below 16.
pub open spec fn digit_char(v: int) -> char {
    if v < 10 {
        (v + '0' as int) as char
    } else {
        (v - 10 + 'a' as int) as char
    }
}

pub open spec fn byte_text(b: u8) -> Seq<char> {
    seq![digit_char(b as int / 16), digit_char(b as int % 16)]
}

/// The text `to_hex` writes.
pub open spec fn hex_text(c: Color) -> Seq<char> {
    let rgb = seq!['#'] + byte_text(c.r) + byte_text(c.g) + byte_text(c.b);
    if c.a == 255 {
        rgb
    } else {
        rgb + byte_text(c.a)
    }
}

fn hex_digit(c: char) -> (r: Option<u8>)
    ensures
        match r {
            Some(v) => is_hex(c) && v == hex_value(c),
            None => !is_hex(c),
        },
{
    if '0' <= c && c <= '9' {
        Some((c as u32 - '0' as u32) as u8)
    } else if 'a' <= c && c <= 'f' {
        Some((c as u32 - 'a' as u32 + 10) as u8)
    } else if 'A' <= c && c <= 'F' {
        Some((c as u32 - 'A' as u32 + 10) as u8)
    } else {
        None
    }
}

fn digit(v: u8) -> (c: char)
    requires
        v < 16,
    ensures
        c == digit_char(v as int),
{
    if v < 10 {
        (v + 48) as char
    } else {
        (v + 87) as char
    }
}

fn push_byte(s: &mut String, b: u8)
    ensures
        final(s)@ == old(s)@ + byte_text(b),
{
    push_char(s, digit(b / 16));
    push_char(s, digit(b % 16));
}

/// Relies on `String::push`: the character is appended at the end.
#[verifier::external_body]
fn push_char(s: &mut String, c: char)
    ensures
        final(s)@ == old(s)@.push(c),
{
    s.push(c);
}

/// Every color text, the short forms included, denotes a color whose own
/// hex text reads back as that same color.
pub proof fn lemma_parsed_round_trip(s: Seq<char>)
    requires
        parse_hex(s) is Ok,
    ensures
        parse_hex(hex_text(parse_hex(s)->Ok_0)) == parse_hex(s),
{
    lemma_hex_round_trip(parse_hex(s)->Ok_0);
}

/// A color written by `to_hex` reads back as the same color, whether it
/// took the six-digit (opaque) or the eight-digit form.
pub proof fn lemma_hex_round_trip(c: Color)
    ensures
        parse_hex(hex_text(c)) == Ok::<Color, ColorError>(c),
{
    let t = hex_text(c);
    let d = t.drop_first();
    assert forall|v: int| 0 <= v < 16 implies #[trigger] hex_value(digit_char(v)) == v && is_hex(digit_char(v)) by {
    }
    assert(all_hex(d));
}

} // verus!
