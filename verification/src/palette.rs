//! The colors that tell the series of a chart apart.

use vstd::prelude::*;

verus! {

/// A color by its red, green and blue parts.
#[derive(Clone, Copy, Debug, PartialEq, Eq, Structural)]
pub struct Rgb {
    pub r: u8,
    pub g: u8,
    pub b: u8,
}

/// The number of colors in the palette.
pub const PALETTE_SIZE: usize = 10;

/// The color at position `index` of the ten-color categorical palette.
pub open spec fn category10(index: int) -> Rgb {
    if index == 0 {
        Rgb { r: 0x1f, g: 0x77, b: 0xb4 }
    } else if index == 1 {
        Rgb { r: 0xff, g: 0x7f, b: 0x0e }
    } else if index == 2 {
        Rgb { r: 0x2c, g: 0xa0, b: 0x2c }
    } else if index == 3 {
        Rgb { r: 0xd6, g: 0x27, b: 0x28 }
    } else if index == 4 {
        Rgb { r: 0x94, g: 0x67, b: 0xbd }
    } else if index == 5 {
        Rgb { r: 0x8c, g: 0x56, b: 0x4b }
    } else if index == 6 {
        Rgb { r: 0xe3, g: 0x77, b: 0xc2 }
    } else if index == 7 {
        Rgb { r: 0x7f, g: 0x7f, b: 0x7f }
    } else if index == 8 {
        Rgb { r: 0xbc, g: 0xbd, b: 0x22 }
    } else {
        Rgb { r: 0x17, g: 0xbe, b: 0xcf }
    }
}

/// Reads entry `index` of `colorous::CATEGORY10`. Trusted: the entry is the color that
/// `category10` lists at that position. The table has ten entries, and indexing past
/// them panics, so `index` must be below ten.
#[verifier::external_body]
pub(crate) fn palette_color(index: usize) -> (color: Rgb)
    requires
        index < PALETTE_SIZE,
    ensures
        color == category10(index as int),
{
    let colorous::Color { r, g, b } = colorous::CATEGORY10[index];
    Rgb { r, g, b }
}

} // verus!
