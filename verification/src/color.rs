//! Colors: the hex notation that commands carry, and premultiplied alpha.

use vstd::prelude::*;
use vstd::string::StrSliceExecFns;

verus! {

/// Four 8-bit channels: red, green, blue and alpha.
#[derive(Clone, Copy, Debug, PartialEq, Eq, Structural)]
pub struct Rgba {
    pub r: u8,
    pub g: u8,
    pub b: u8,
    pub a: u8,
}

/// The color that any text outside the notation stands for.
pub open spec fn opaque_black() -> Rgba {
    Rgba { r: 0, g: 0, b: 0, a: 255 }
}

/// Whether `c` is one of `0-9`, `a-f`, `A-F`.
pub open spec fn is_hex_digit(c: char) -> bool {
    ||| '0' <= c <= '9'
    ||| 'a' <= c <= 'f'
    ||| 'A' <= c <= 'F'
}

/// The value of a hex digit, 0 to 15.
pub open spec fn hex_digit_value(c: char) -> int {
    if '0' <= c <= '9' {
        c as int - '0' as int
    } else if 'a' <= c <= 'f' {
        c as int - 'a' as int + 10
    } else {
        c as int - 'A' as int + 10
    }
}

/// The text without one leading `0x`, or else without one leading `#`.
pub open spec fn without_prefix(s: Seq<char>) -> Seq<char> {
    if s.len() >= 2 && s[0] == '0' && s[1] == 'x' {
        s.subrange(2, s.len() as int)
    } else if s.len() >= 1 && s[0] == '#' {
        s.subrange(1, s.len() as int)
    } else {
        s
    }
}

/// Whether every character of `s` is a hex digit.
pub open spec fn all_hex(s: Seq<char>) -> bool {
    forall|i: int| 0 <= i < s.len() ==> is_hex_digit(#[trigger] s[i])
}

/// The byte written by the two hex digits at `i` and `i + 1`.
pub open spec fn hex_pair(s: Seq<char>, i: int) -> u8 {
    (hex_digit_value(s[i]) * 16 + hex_digit_value(s[i + 1])) as u8
}

/// What a color text means. After the optional prefix, eight hex digits are
/// read as `AARRGGBB` and six as `RRGGBB` with full alpha; every other text
/// is opaque black.
pub open spec fn parse_color_spec(s: Seq<char>) -> Rgba {
    let h = without_prefix(s);
    if h.len() == 8 && all_hex(h) {
        Rgba { a: hex_pair(h, 0), r: hex_pair(h, 2), g: hex_pair(h, 4), b: hex_pair(h, 6) }
    } else if h.len() == 6 && all_hex(h) {
        Rgba { r: hex_pair(h, 0), g: hex_pair(h, 2), b: hex_pair(h, 4), a: 255 }
    } else {
        opaque_black()
    }
}

/// Alpha as a fraction of 256: 0 for transparent, 256 for opaque.
pub open spec fn alpha_scale(a: u8) -> int {
    a as int * 256 / 255
}

/// One channel scaled by alpha, rounded down.
pub open spec fn premultiply_channel(c: u8, a: u8) -> u8 {
    (c as int * alpha_scale(a) / 256) as u8
}

/// The premultiplied form of a straight-alpha color.
pub open spec fn premultiply_spec(c: Rgba) -> Rgba {
    Rgba {
        r: premultiply_channel(c.r, c.a),
        g: premultiply_channel(c.g, c.a),
        b: premultiply_channel(c.b, c.a),
        a: c.a,
    }
}

/// A scaled channel never exceeds the channel or the alpha it was scaled by.
pub proof fn lemma_premultiply_channel_bounds(c: u8, a: u8)
    ensures
        0 <= c as int * alpha_scale(a) / 256 <= c,
        c as int * alpha_scale(a) / 256 <= a,
        a == 255 ==> premultiply_channel(c, a) == c,
        a == 0 ==> premultiply_channel(c, a) == 0,
{
    let s = alpha_scale(a);
    assert(0 <= s <= 256 && s * 255 <= a as int * 256);
    assert(0 <= c as int * s <= c as int * 256) by (nonlinear_arith)
        requires
            0 <= s <= 256,
            0 <= c as int,
    ;
    assert(c as int * s * 255 <= 255 * (a as int * 256)) by (nonlinear_arith)
        requires
            0 <= s,
            s * 255 <= a as int * 256,
            0 <= c as int <= 255,
    ;
    if a == 255 {
        assert(s == 256);
    }
    if a == 0 {
        assert(s == 0);
    }
}

/// The value of a hex digit; `None` for any other character.
fn hex_value(c: char) -> (v: Option<u8>)
    ensures
        v is Some <==> is_hex_digit(c),
        v is Some ==> v->Some_0 as int == hex_digit_value(c),
{
    if '0' <= c && c <= '9' {
        Some((c as u32 - '0' as u32) as u8)
    } else if 'a' <= c && c <= 'f' {
        Some((c as u32 - 'a' as u32 + 10) as u8)
    } else if 'A' <= c && c <= 'F' {
        Some((c as u32 - 'A' as u32 + 10) as u8)
    } else {
        None
    }
}

/// Reads `count` hex pairs of `text`, the first at character `start`.
/// `None` as soon as one character is no hex digit.
fn read_pairs(text: &str, start: usize, count: usize) -> (out: Option<Vec<u8>>)
    requires
        start + 2 * count <= text@.len(),
        start + 2 * count <= usize::MAX,
    ensures
        out is Some <==> all_hex(text@.subrange(start as int, start + 2 * count)),
        out is Some ==> out->Some_0@.len() == count && forall|k: int|
            0 <= k < count ==> #[trigger] out->Some_0@[k] == hex_pair(
                text@.subrange(start as int, start + 2 * count),
                2 * k,
            ),
{
    let ghost h = text@.subrange(start as int, start + 2 * count);
    let mut bytes: Vec<u8> = Vec::new();
    let mut k: usize = 0;
    while k < count
        invariant
            k <= count,
            start + 2 * count <= text@.len(),
            start + 2 * count <= usize::MAX,
            h == text@.subrange(start as int, start + 2 * count),
            bytes@.len() == k,
            forall|i: int| 0 <= i < 2 * k ==> is_hex_digit(#[trigger] h[i]),
            forall|j: int| 0 <= j < k ==> #[trigger] bytes@[j] == hex_pair(h, 2 * j),
        decreases count - k,
    {
        let hi = hex_value(text.get_char(start + 2 * k));
        let lo = hex_value(text.get_char(start + 2 * k + 1));
        assert(h[2 * k as int] == text@[start + 2 * k]);
        assert(h[2 * k + 1] == text@[start + 2 * k + 1]);
        match (hi, lo) {
            (Some(hi), Some(lo)) => {
                bytes.push(hi * 16 + lo);
            },
            _ => {
                assert(!all_hex(h)) by {
                    if all_hex(h) {
                        assert(is_hex_digit(h[2 * k as int]));
                        assert(is_hex_digit(h[2 * k + 1]));
                    }
                }
                return None;
            },
        }
        k += 1;
    }
    Some(bytes)
}

/// The color that `hex` stands for.
pub fn parse_color(hex: &str) -> (c: Rgba)
    ensures
        c == parse_color_spec(hex@),
{
    let n = hex.unicode_len();
    let start: usize = if n >= 2 && hex.get_char(0) == '0' && hex.get_char(1) == 'x' {
        2
    } else if n >= 1 && hex.get_char(0) == '#' {
        1
    } else {
        0
    };
    let ghost h = without_prefix(hex@);
    assert(h =~= hex@.subrange(start as int, n as int));
    let digits = n - start;
    if digits == 8 {
        match read_pairs(hex, start, 4) {
            Some(p) => Rgba { a: p[0], r: p[1], g: p[2], b: p[3] },
            None => Rgba { r: 0, g: 0, b: 0, a: 255 },
        }
    } else if digits == 6 {
        match read_pairs(hex, start, 3) {
            Some(p) => Rgba { r: p[0], g: p[1], b: p[2], a: 255 },
            None => Rgba { r: 0, g: 0, b: 0, a: 255 },
        }
    } else {
        Rgba { r: 0, g: 0, b: 0, a: 255 }
    }
}

impl Rgba {
    /// Scales the color channels by alpha.
    pub fn premultiplied(self) -> (p: Rgba)
        ensures
            p == premultiply_spec(self),
            p.r <= self.a && p.g <= self.a && p.b <= self.a,
    {
        proof {
            lemma_premultiply_channel_bounds(self.r, self.a);
            lemma_premultiply_channel_bounds(self.g, self.a);
            lemma_premultiply_channel_bounds(self.b, self.a);
        }
        let scale: u32 = self.a as u32 * 256 / 255;
        Rgba {
            r: (self.r as u32 * scale / 256) as u8,
            g: (self.g as u32 * scale / 256) as u8,
            b: (self.b as u32 * scale / 256) as u8,
            a: self.a,
        }
    }
}

} // verus!
