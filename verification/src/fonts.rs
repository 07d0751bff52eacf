//! Bitmap fonts: 128 glyphs of 8 by 16 pixels.

use vstd::prelude::*;

verus! {

/// Width of a glyph in pixels.
pub const GLYPH_WIDTH: usize = 8;

/// Height of a glyph in pixels.
pub const GLYPH_HEIGHT: usize = 16;

/// Number of glyphs of a font: one for each ASCII character.
pub const GLYPH_COUNT: usize = 128;

/// A font. Each glyph is 16 rows of 8 pixels; the most significant bit of
/// a row is its leftmost pixel.
#[derive(Debug, Clone, Copy)]
pub struct Font {
    glyphs: [[u8; 16]; 128],
}

/// Pixel `dx` of a glyph's row is set, where pixel 0 is the leftmost.
pub open spec fn row_bit(row: u8, dx: int) -> bool {
    0 <= dx < 8 && (row << (dx as u8)) & 0x80u8 != 0
}

/// Whether pixel `dx` of `row` is set.
pub fn row_has_pixel(row: u8, dx: usize) -> (set: bool)
    requires
        dx < GLYPH_WIDTH,
    ensures
        set == row_bit(row, dx as int),
{
    (row << (dx as u8)) & 0x80u8 != 0
}

impl Font {
    /// The rows of all glyphs.
    pub closed spec fn glyphs(&self) -> Seq<Seq<u8>> {
        Seq::new(128, |c: int| self.glyphs@[c]@)
    }

    /// Whether the glyph of `c` has the pixel in column `dx` of row `dy`
    /// set. Characters outside ASCII have no glyph and no pixels.
    pub open spec fn has_pixel(&self, c: char, dx: int, dy: int) -> bool {
        &&& (c as u32) < GLYPH_COUNT
        &&& 0 <= dy < GLYPH_HEIGHT
        &&& row_bit(self.glyphs()[c as u32 as int][dy], dx)
    }

    /// A font with the given glyphs.
    pub fn new(glyphs: [[u8; 16]; 128]) -> (font: Font)
        ensures
            font.glyphs() == Seq::new(128, |c: int| glyphs@[c]@),
    {
        Font { glyphs }
    }

    /// The rows of the glyph of an ASCII character.
    pub fn glyph(&self, c: char) -> (rows: [u8; 16])
        requires
            (c as u32) < GLYPH_COUNT,
        ensures
            rows@ == self.glyphs()[c as u32 as int],
    {
        self.glyphs[c as usize]
    }
}

} // verus!
