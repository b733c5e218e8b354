//! The eight terminal colors and the one-byte token that packs a foreground and
//! a background color.
//!
//! Bit 7 of a token marks a color as explicitly chosen, bits 4 to 6 hold the
//! background index, bit 3 is the emphasis flag and bits 0 to 2 hold the
//! foreground index.
use vstd::prelude::*;

verus! {

/// One of the eight basic terminal colors.
#[derive(Debug, Clone, Copy, PartialEq, Eq, Structural)]
pub enum Color {
    Black,
    Red,
    Green,
    Yellow,
    Blue,
    Magenta,
    Cyan,
    White,
}

impl Color {
    /// The terminal's index of this color, from 0 to 7.
    pub open spec fn index_spec(self) -> u8 {
        match self {
            Color::Black => 0,
            Color::Red => 1,
            Color::Green => 2,
            Color::Yellow => 3,
            Color::Blue => 4,
            Color::Magenta => 5,
            Color::Cyan => 6,
            Color::White => 7,
        }
    }

    /// The color whose index is `n` (`n` below 8).
    pub open spec fn from_index_spec(n: u8) -> Color {
        if n == 0 {
            Color::Black
        } else if n == 1 {
            Color::Red
        } else if n == 2 {
            Color::Green
        } else if n == 3 {
            Color::Yellow
        } else if n == 4 {
            Color::Blue
        } else if n == 5 {
            Color::Magenta
        } else if n == 6 {
            Color::Cyan
        } else {
            Color::White
        }
    }

    pub fn index(self) -> (r: u8)
        ensures
            r == self.index_spec(),
            r < 8,
    {
        match self {
            Color::Black => 0,
            Color::Red => 1,
            Color::Green => 2,
            Color::Yellow => 3,
            Color::Blue => 4,
            Color::Magenta => 5,
            Color::Cyan => 6,
            Color::White => 7,
        }
    }

    /// The color with index `n`; an index above 7 names no color.
    pub fn from_index(n: u8) -> (c: Color)
        requires
            n < 8,
        ensures
            c == Color::from_index_spec(n),
            c.index_spec() == n,
    {
        match n {
            0 => Color::Black,
            1 => Color::Red,
            2 => Color::Green,
            3 => Color::Yellow,
            4 => Color::Blue,
            5 => Color::Magenta,
            6 => Color::Cyan,
            _ => Color::White,
        }
    }
}

/// The token for a foreground and a background index: bit 7 set, the
/// background's low three bits in bits 4 to 6, the foreground's in bits 0 to 2.
pub open spec fn color_num_spec(foreground: u8, background: u8) -> u8 {
    (128 + 16 * (background % 8) + foreground % 8) as u8
}

/// The foreground index held by a token.
pub open spec fn foreground_of(token: u8) -> u8 {
    token % 8
}

/// The background index held by a token.
pub open spec fn background_of(token: u8) -> u8 {
    (token / 16) % 8
}

/// Whether a token carries the emphasis bit (bit 3).
pub open spec fn is_bold_spec(token: u8) -> bool {
    (token / 8) % 2 == 1
}

/// The token of a pair of colors.
pub open spec fn encode(foreground: Color, background: Color) -> u8 {
    color_num_spec(foreground.index_spec(), background.index_spec())
}

/// The pair of colors that a token holds.
pub open spec fn decode(token: u8) -> (Color, Color) {
    (Color::from_index_spec(foreground_of(token)), Color::from_index_spec(background_of(token)))
}

/// Packs a foreground and a background index into a token.
pub fn color_num(foreground: u8, background: u8) -> (r: u8)
    ensures
        r == color_num_spec(foreground, background),
        r as int == 128 + 16 * (background % 8) + foreground % 8,
{
    let r: u8 = 1u8 << 7u8 | (7u8 & background) << 4u8 | 7u8 & foreground;
    assert(1u8 << 7u8 | (7u8 & background) << 4u8 | 7u8 & foreground == 128u8 + 16u8 * (
    background % 8u8) + foreground % 8u8) by (bit_vector);
    r
}

/// Whether the emphasis bit (bit 3) of a token is set.
///
/// The bit is tested for being non-zero. Tokens built by [`color_num`] never
/// carry it, so they always paint without emphasis.
pub fn is_bold(color: u8) -> (r: bool)
    ensures
        r == is_bold_spec(color),
{
    let r = (1u8 << 3u8) & color != 0;
    assert((1u8 << 3u8) & color != 0 <==> (color / 8u8) % 2u8 == 1u8) by (bit_vector);
    r
}

/// A painted widget's color token.
#[derive(Debug, Clone, Copy, PartialEq, Eq, Structural)]
pub struct NColor {
    pub color: u8,
}

impl NColor {
    /// The token for `foreground` on `background`.
    pub fn new(foreground: Color, background: Color) -> (r: NColor)
        ensures
            r.color == encode(foreground, background),
    {
        NColor { color: color_num(foreground.index(), background.index()) }
    }

    /// The foreground and background colors that the token holds.
    pub fn colors(self) -> (r: (Color, Color))
        ensures
            r == decode(self.color),
    {
        let c = self.color;
        assert(c & 7u8 == c % 8u8) by (bit_vector);
        assert((c >> 4u8) & 7u8 == (c / 16u8) % 8u8) by (bit_vector);
        let fg = Color::from_index(c & 7u8);
        let bg = Color::from_index((c >> 4u8) & 7u8);
        (fg, bg)
    }

    /// Whether this token is painted with emphasis.
    pub fn is_bold(self) -> (r: bool)
        ensures
            r == is_bold_spec(self.color),
    {
        is_bold(self.color)
    }
}

impl Default for NColor {
    /// The unset token: both channels black, no mark, no emphasis.
    fn default() -> (r: NColor)
        ensures
            r.color == 0,
    {
        NColor { color: 0 }
    }
}

impl From<Color> for u8 {
    /// The color's index.
    fn from(c: Color) -> u8 {
        c.index()
    }
}

impl vstd::std_specs::convert::FromSpecImpl<Color> for u8 {
    open spec fn obeys_from_spec() -> bool {
        true
    }

    open spec fn from_spec(c: Color) -> u8 {
        c.index_spec()
    }
}

impl From<(Color, Color)> for NColor {
    /// The token for `(foreground, background)`.
    fn from(p: (Color, Color)) -> NColor {
        NColor::new(p.0, p.1)
    }
}

impl vstd::std_specs::convert::FromSpecImpl<(Color, Color)> for NColor {
    open spec fn obeys_from_spec() -> bool {
        true
    }

    open spec fn from_spec(p: (Color, Color)) -> NColor {
        NColor { color: encode(p.0, p.1) }
    }
}

impl From<NColor> for (Color, Color) {
    /// The `(foreground, background)` pair that the token holds.
    fn from(t: NColor) -> (Color, Color) {
        t.colors()
    }
}

impl vstd::std_specs::convert::FromSpecImpl<NColor> for (Color, Color) {
    open spec fn obeys_from_spec() -> bool {
        true
    }

    open spec fn from_spec(t: NColor) -> (Color, Color) {
        decode(t.color)
    }
}

impl From<NColor> for u8 {
    /// The token's byte.
    fn from(t: NColor) -> u8 {
        t.color
    }
}

impl vstd::std_specs::convert::FromSpecImpl<NColor> for u8 {
    open spec fn obeys_from_spec() -> bool {
        true
    }

    open spec fn from_spec(t: NColor) -> u8 {
        t.color
    }
}

/// Decoding an encoded pair gives the pair back.
pub proof fn lemma_decode_encode(foreground: Color, background: Color)
    ensures
        decode(encode(foreground, background)) == (foreground, background),
{
    let f = foreground.index_spec();
    let b = background.index_spec();
    let t = encode(foreground, background);
    assert(t as int == 128 + 16 * b + f);
    assert(foreground_of(t) == f);
    assert(background_of(t) == b);
}

/// An encoded token never carries the emphasis bit.
pub proof fn lemma_encoded_not_bold(foreground: Color, background: Color)
    ensures
        !is_bold_spec(encode(foreground, background)),
{
    let f = foreground.index_spec();
    let b = background.index_spec();
    let t = encode(foreground, background);
    assert(t as int == 128 + 16 * b + f);
}

/// Every (token, foreground, background) triple that the terminal must know:
/// foreground varies fastest, so entry `k` is for foreground `k % 8` on
/// background `k / 8`.
pub fn color_pairs() -> (r: Vec<(u8, u8, u8)>)
    ensures
        r@.len() == 64,
        forall|k: int|
            0 <= k < 64 ==> #[trigger] r@[k] == (
                color_num_spec((k % 8) as u8, (k / 8) as u8),
                (k % 8) as u8,
                (k / 8) as u8,
            ),
{
    let mut r: Vec<(u8, u8, u8)> = Vec::new();
    let mut b: u8 = 0;
    while b < 8
        invariant
            b <= 8,
            r@.len() == 8 * b,
            forall|k: int|
                0 <= k < r@.len() ==> #[trigger] r@[k] == (
                    color_num_spec((k % 8) as u8, (k / 8) as u8),
                    (k % 8) as u8,
                    (k / 8) as u8,
                ),
        decreases 8 - b,
    {
        let mut f: u8 = 0;
        while f < 8
            invariant
                b < 8,
                f <= 8,
                r@.len() == 8 * b + f,
                forall|k: int|
                    0 <= k < r@.len() ==> #[trigger] r@[k] == (
                        color_num_spec((k % 8) as u8, (k / 8) as u8),
                        (k % 8) as u8,
                        (k / 8) as u8,
                    ),
            decreases 8 - f,
        {
            let t = color_num(f, b);
            r.push((t, f, b));
            proof {
                let k = 8 * b + f;
                assert(k % 8 == f as int && k / 8 == b as int);
            }
            f = f + 1;
        }
        b = b + 1;
    }
    r
}

} // verus!
