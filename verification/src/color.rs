//! The fixed 16-entry color palette and the packed attribute byte that
//! combines a foreground and a background color.

use vstd::prelude::*;

verus! {

/// One of the 16 fixed palette entries, with numeric codes 0 through 15.
#[derive(Debug, Clone, Copy, PartialEq, Eq, Structural)]
pub enum Color {
    Black,
    Blue,
    Green,
    Cyan,
    Red,
    Magenta,
    Brown,
    LightGray,
    DarkGray,
    LightBlue,
    LightGreen,
    LightCyan,
    LightRed,
    Pink,
    Yellow,
    White,
}

impl Color {
    /// The numeric code of this palette entry.
    pub open spec fn spec_code(self) -> u8 {
        match self {
            Color::Black => 0,
            Color::Blue => 1,
            Color::Green => 2,
            Color::Cyan => 3,
            Color::Red => 4,
            Color::Magenta => 5,
            Color::Brown => 6,
            Color::LightGray => 7,
            Color::DarkGray => 8,
            Color::LightBlue => 9,
            Color::LightGreen => 10,
            Color::LightCyan => 11,
            Color::LightRed => 12,
            Color::Pink => 13,
            Color::Yellow => 14,
            Color::White => 15,
        }
    }

    /// Every palette code fits in the four bits of a nibble.
    pub proof fn lemma_code_bound(self)
        ensures
            self.spec_code() < 16,
    {
    }

    /// Returns the numeric code of this palette entry.
    pub fn code(self) -> (c: u8)
        ensures
            c == self.spec_code(),
    {
        match self {
            Color::Black => 0,
            Color::Blue => 1,
            Color::Green => 2,
            Color::Cyan => 3,
            Color::Red => 4,
            Color::Magenta => 5,
            Color::Brown => 6,
            Color::LightGray => 7,
            Color::DarkGray => 8,
            Color::LightBlue => 9,
            Color::LightGreen => 10,
            Color::LightCyan => 11,
            Color::LightRed => 12,
            Color::Pink => 13,
            Color::Yellow => 14,
            Color::White => 15,
        }
    }
}

/// The packed attribute byte: foreground code in the low nibble,
/// background code in the high nibble.
#[derive(Debug, Clone, Copy, PartialEq, Eq, Structural)]
pub struct ColorCode(pub u8);

impl ColorCode {
    /// The attribute byte built from a foreground and a background color.
    pub open spec fn spec_new(fg: Color, bg: Color) -> ColorCode {
        ColorCode((bg.spec_code() << 4) | fg.spec_code())
    }

    /// The foreground code held in the low nibble.
    pub open spec fn spec_fg(self) -> u8 {
        self.0 & 0x0F
    }

    /// The background code held in the high nibble.
    pub open spec fn spec_bg(self) -> u8 {
        self.0 >> 4
    }

    /// Packs a foreground and a background color into one attribute byte.
    pub fn new(fg: Color, bg: Color) -> (r: ColorCode)
        ensures
            r == ColorCode::spec_new(fg, bg),
            r.0 == ((bg.spec_code() << 4) | fg.spec_code()),
    {
        ColorCode((bg.code() << 4) | fg.code())
    }
}

/// Decoding the attribute byte recovers both colors exactly: for every
/// pair (fg, bg), the packed byte is `(bg_code << 4) | fg_code`, its low
/// nibble is the foreground code and its high nibble is the background code.
pub proof fn lemma_attribute_round_trip(fg: Color, bg: Color)
    ensures
        ColorCode::spec_new(fg, bg).0 == ((bg.spec_code() << 4) | fg.spec_code()),
        ColorCode::spec_new(fg, bg).spec_fg() == fg.spec_code(),
        ColorCode::spec_new(fg, bg).spec_bg() == bg.spec_code(),
{
    let f = fg.spec_code();
    let b = bg.spec_code();
    fg.lemma_code_bound();
    bg.lemma_code_bound();
    assert(f < 16 && b < 16 ==> (((b << 4) | f) & 0x0F) == f && (((b << 4) | f) >> 4) == b)
        by (bit_vector);
}

/// Encoding is deterministic: two attribute bytes built from the same
/// (fg, bg) pair are bit-identical.
pub proof fn lemma_encode_deterministic(fg: Color, bg: Color, c1: ColorCode, c2: ColorCode)
    requires
        c1 == ColorCode::spec_new(fg, bg),
        c2 == ColorCode::spec_new(fg, bg),
    ensures
        c1.0 == c2.0,
{
}

} // verus!
