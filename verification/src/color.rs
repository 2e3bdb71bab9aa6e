//! Colors of the text-mode display and the packed attribute byte of a cell.

use vstd::prelude::*;

verus! {

/// The sixteen colors of the text-mode palette.
#[derive(Clone, Copy, Debug, PartialEq, Eq, Structural)]
pub enum Color {
    Black,
    Blue,
    Green,
    Cyan,
    Red,
    Magenta,
    Brown,
    LightGray,
    DarkGray,
    LightBlue,
    LightGreen,
    LightCyan,
    LightRed,
    Pink,
    Yellow,
    White,
}

impl Color {
    /// The palette index of the color, a value below sixteen.
    pub open spec fn index(self) -> nat {
        match self {
            Color::Black => 0,
            Color::Blue => 1,
            Color::Green => 2,
            Color::Cyan => 3,
            Color::Red => 4,
            Color::Magenta => 5,
            Color::Brown => 6,
            Color::LightGray => 7,
            Color::DarkGray => 8,
            Color::LightBlue => 9,
            Color::LightGreen => 10,
            Color::LightCyan => 11,
            Color::LightRed => 12,
            Color::Pink => 13,
            Color::Yellow => 14,
            Color::White => 15,
        }
    }

    /// The palette index as the hardware stores it.
    pub fn code(self) -> (r: u8)
        ensures
            r == self.index(),
            r < 16,
    {
        match self {
            Color::Black => 0,
            Color::Blue => 1,
            Color::Green => 2,
            Color::Cyan => 3,
            Color::Red => 4,
            Color::Magenta => 5,
            Color::Brown => 6,
            Color::LightGray => 7,
            Color::DarkGray => 8,
            Color::LightBlue => 9,
            Color::LightGreen => 10,
            Color::LightCyan => 11,
            Color::LightRed => 12,
            Color::Pink => 13,
            Color::Yellow => 14,
            Color::White => 15,
        }
    }
}

/// The attribute byte of a cell: foreground in the low nibble, background in
/// the high nibble.
#[derive(Clone, Copy, Debug, PartialEq, Eq, Structural)]
pub struct ColorCode {
    pub bits: u8,
}

impl ColorCode {
    /// The attribute byte that holds `foreground` and `background`.
    pub open spec fn pack(foreground: Color, background: Color) -> ColorCode {
        ColorCode { bits: (background.index() * 16 + foreground.index()) as u8 }
    }

    /// Packs a foreground and a background color into one attribute byte.
    pub fn new(foreground: Color, background: Color) -> (r: ColorCode)
        ensures
            r == Self::pack(foreground, background),
            r.bits % 16 == foreground.index(),
            r.bits / 16 == background.index(),
    {
        ColorCode { bits: background.code() * 16 + foreground.code() }
    }

    /// The low nibble: the palette index of the foreground.
    pub fn foreground(self) -> (r: u8)
        ensures
            r == self.bits % 16,
    {
        self.bits % 16
    }

    /// The high nibble: the palette index of the background.
    pub fn background(self) -> (r: u8)
        ensures
            r == self.bits / 16,
    {
        self.bits / 16
    }
}

/// Packing two colors and reading the nibbles back gives the two palette
/// indices, and two pairs of colors pack to the same byte only if they are
/// the same pair.
pub proof fn lemma_pack_is_injective(f1: Color, b1: Color, f2: Color, b2: Color)
    ensures
        ColorCode::pack(f1, b1).bits % 16 == f1.index(),
        ColorCode::pack(f1, b1).bits / 16 == b1.index(),
        ColorCode::pack(f1, b1) == ColorCode::pack(f2, b2) ==> f1 == f2 && b1 == b2,
{
}

} // verus!
