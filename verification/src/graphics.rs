//! Drawing into a frame buffer.
//!
//! The frame buffer is the pixel memory as the display hardware lays it
//! out: rows of `pixels_per_scan_line` pixels of four bytes each, of which
//! the first `horizontal_resolution` pixels of the first
//! `vertical_resolution` rows are visible. What a drawing operation does
//! is specified on the visible pixels, as a screen of rows of colours.

use vstd::prelude::*;
use vstd::string::StrSliceExecFns;
use crate::canvas::{
    draw_chars,
    draw_glyph,
    draw_outline,
    fill,
    glyph_pixels,
    has_size,
    outline,
    paint,
    rectangle,
    single_pixel,
    text_pixels,
    Canvas,
};
use crate::fonts::Font;

verus! {

/// Largest size in bytes of a frame buffer.
pub const MAX_FRAME_BUFFER_BYTES: u64 = 0x4000_0000;

/// Number of bytes that one pixel takes in the frame buffer.
pub const BYTES_PER_PIXEL: usize = 4;

/// The order of the colour bytes of a pixel in the frame buffer.
#[derive(Debug, Copy, Clone, PartialEq, Eq, Structural)]
pub enum PixelFormat {
    Rgb,
    Bgr,
}

/// A colour: red, green, blue.
#[derive(Debug, Copy, Clone, PartialEq, Eq, Structural)]
pub struct PixelColor(pub u8, pub u8, pub u8);

/// A pair of coordinates.
#[derive(Copy, Clone, Debug)]
pub struct Vector2D<T> {
    pub x: T,
    pub y: T,
}

/// The visible pixels: `screen[y][x]` is the colour at column `x` of row
/// `y`.
pub type Screen = Seq<Seq<PixelColor>>;

/// The colour that the three bytes from `base` on stand for.
pub open spec fn decode_pixel(bytes: Seq<u8>, base: int, format: PixelFormat) -> PixelColor {
    match format {
        PixelFormat::Rgb => PixelColor(bytes[base], bytes[base + 1], bytes[base + 2]),
        PixelFormat::Bgr => PixelColor(bytes[base + 2], bytes[base + 1], bytes[base]),
    }
}

/// Pixel memory and its geometry.
#[derive(Debug)]
pub struct FrameBuffer {
    frame_buffer: Vec<u8>,
    pixels_per_scan_line: u32,
    horizontal_resolution: u32,
    vertical_resolution: u32,
    format: PixelFormat,
}

/// Two pixels of rows of `stride` pixels have the same index in the frame
/// buffer only if they are the same pixel.
pub proof fn lemma_pixel_index_injective(stride: int, x: int, y: int, a: int, b: int)
    requires
        0 <= x < stride,
        0 <= a < stride,
        0 <= y,
        0 <= b,
        y * stride + x == b * stride + a,
    ensures
        x == a,
        y == b,
{
    if y < b {
        assert((y + 1) * stride <= b * stride) by (nonlinear_arith)
            requires
                y + 1 <= b,
                0 <= stride,
        ;
        assert((y + 1) * stride == y * stride + stride) by (nonlinear_arith);
    } else if b < y {
        assert((b + 1) * stride <= y * stride) by (nonlinear_arith)
            requires
                b + 1 <= y,
                0 <= stride,
        ;
        assert((b + 1) * stride == b * stride + stride) by (nonlinear_arith);
    }
}

/// A pixel of a buffer of `rows` rows of `stride` pixels lies wholly
/// inside the buffer.
pub proof fn lemma_pixel_index_bounded(stride: int, rows: int, x: int, y: int)
    requires
        0 <= x < stride,
        0 <= y < rows,
    ensures
        0 <= y * stride + x,
        4 * (y * stride + x) + 4 <= 4 * (stride * rows),
{
    assert(y * stride + stride <= rows * stride) by (nonlinear_arith)
        requires
            y + 1 <= rows,
            0 <= stride,
    ;
    assert(0 <= y * stride) by (nonlinear_arith)
        requires
            0 <= y,
            0 <= stride,
    ;
    assert(rows * stride == stride * rows) by (nonlinear_arith);
}

impl FrameBuffer {
    #[verifier::type_invariant]
    spec fn inv(&self) -> bool {
        &&& self.horizontal_resolution <= self.pixels_per_scan_line
        &&& self.frame_buffer@.len() == 4 * (self.pixels_per_scan_line * self.vertical_resolution)
        &&& self.frame_buffer@.len() <= MAX_FRAME_BUFFER_BYTES
    }

    /// Number of visible pixels in a row.
    pub closed spec fn width(&self) -> int {
        self.horizontal_resolution as int
    }

    /// Number of visible rows.
    pub closed spec fn height(&self) -> int {
        self.vertical_resolution as int
    }

    /// The bytes of the pixel memory.
    pub closed spec fn bytes(&self) -> Seq<u8> {
        self.frame_buffer@
    }

    /// Number of pixels, visible or not, in a row of the pixel memory.
    pub closed spec fn stride(&self) -> int {
        self.pixels_per_scan_line as int
    }

    /// The order of the colour bytes.
    pub closed spec fn pixel_format(&self) -> PixelFormat {
        self.format
    }

    /// The colour of the pixel at column `x` of row `y`.
    pub open spec fn pixel(&self, x: int, y: int) -> PixelColor {
        decode_pixel(self.bytes(), 4 * (y * self.stride() + x), self.pixel_format())
    }

    /// The geometry can be that of a frame buffer: the visible part of a
    /// row is no longer than the row, and the pixel memory is no larger
    /// than [`MAX_FRAME_BUFFER_BYTES`].
    pub open spec fn geometry_ok(
        pixels_per_scan_line: u32,
        horizontal_resolution: u32,
        vertical_resolution: u32,
    ) -> bool {
        &&& horizontal_resolution <= pixels_per_scan_line
        &&& 4 * (pixels_per_scan_line * vertical_resolution) <= MAX_FRAME_BUFFER_BYTES
    }

    /// A frame buffer of the given geometry with every byte zero, or
    /// `None` if the geometry cannot be that of a frame buffer.
    pub fn new(
        pixels_per_scan_line: u32,
        horizontal_resolution: u32,
        vertical_resolution: u32,
        format: PixelFormat,
    ) -> (result: Option<FrameBuffer>)
        ensures
            result is Some <==> Self::geometry_ok(
                pixels_per_scan_line,
                horizontal_resolution,
                vertical_resolution,
            ),
            result matches Some(fb) ==> {
                &&& fb.width() == horizontal_resolution
                &&& fb.height() == vertical_resolution
                &&& fb.stride() == pixels_per_scan_line
                &&& fb.pixel_format() == format
                &&& fb.bytes().len() == 4 * (pixels_per_scan_line * vertical_resolution)
                &&& forall|i: int| 0 <= i < fb.bytes().len() ==> fb.bytes()[i] == 0
                &&& has_size(fb@, fb.width(), fb.height())
            },
    {
        if horizontal_resolution > pixels_per_scan_line {
            return None;
        }
        assert(pixels_per_scan_line * vertical_resolution <= 0xffff_ffff * 0xffff_ffff)
            by (nonlinear_arith)
            requires
                0 <= pixels_per_scan_line <= 0xffff_ffff,
                0 <= vertical_resolution <= 0xffff_ffff,
        ;
        let pixels = pixels_per_scan_line as u64 * vertical_resolution as u64;
        if pixels > MAX_FRAME_BUFFER_BYTES / 4 {
            return None;
        }
        let size = (pixels * 4) as usize;
        let frame_buffer = vec![0u8; size];
        Some(
            FrameBuffer {
                frame_buffer,
                pixels_per_scan_line,
                horizontal_resolution,
                vertical_resolution,
                format,
            },
        )
    }

    /// Number of pixels in a row of the pixel memory.
    pub fn pixels_per_scan_line(&self) -> (stride: u32)
        ensures
            stride == self.stride(),
    {
        self.pixels_per_scan_line
    }

    /// Number of visible pixels in a row.
    pub fn horizontal_resolution(&self) -> (width: u32)
        ensures
            width == self.width(),
            width <= self.stride(),
    {
        proof {
            use_type_invariant(self);
        }
        self.horizontal_resolution
    }

    /// Number of visible rows.
    pub fn vertical_resolution(&self) -> (height: u32)
        ensures
            height == self.height(),
    {
        self.vertical_resolution
    }

    /// The order of the colour bytes.
    pub fn format(&self) -> (format: PixelFormat)
        ensures
            format == self.pixel_format(),
    {
        self.format
    }

    /// The pixel memory, to be copied to the display.
    pub fn frame_buffer(&self) -> (bytes: &Vec<u8>)
        ensures
            bytes@ == self.bytes(),
            bytes@.len() == 4 * (self.stride() * self.height()),
    {
        proof {
            use_type_invariant(self);
        }
        &self.frame_buffer
    }

    /// Writes one byte of the pixel memory.
    pub fn write_byte(&mut self, index: usize, val: u8)
        requires
            index < old(self).bytes().len(),
        ensures
            final(self).bytes() == old(self).bytes().update(index as int, val),
            final(self).width() == old(self).width(),
            final(self).height() == old(self).height(),
            final(self).stride() == old(self).stride(),
            final(self).pixel_format() == old(self).pixel_format(),
    {
        proof {
            use_type_invariant(&*self);
        }
        self.frame_buffer[index] = val;
    }

    /// Writes three bytes of the pixel memory, from `index` on.
    pub fn write_value(&mut self, index: usize, value: [u8; 3])
        requires
            index + 3 <= old(self).bytes().len(),
        ensures
            final(self).bytes() == old(self).bytes().update(index as int, value@[0]).update(
                index + 1,
                value@[1],
            ).update(index + 2, value@[2]),
            final(self).width() == old(self).width(),
            final(self).height() == old(self).height(),
            final(self).stride() == old(self).stride(),
            final(self).pixel_format() == old(self).pixel_format(),
    {
        proof {
            use_type_invariant(&*self);
        }
        self.frame_buffer[index] = value[0];
        self.frame_buffer[index + 1] = value[1];
        self.frame_buffer[index + 2] = value[2];
    }
}

impl View for FrameBuffer {
    type V = Screen;

    open spec fn view(&self) -> Screen {
        Seq::new(
            self.height() as nat,
            |y: int| Seq::new(self.width() as nat, |x: int| self.pixel(x, y)),
        )
    }
}

/// The characters of a string.
pub fn chars_of(text: &str) -> (chars: Vec<char>)
    ensures
        chars@ == text@,
{
    let length = text.unicode_len();
    let mut chars: Vec<char> = Vec::new();
    let mut i: usize = 0;
    while i < length
        invariant
            i <= length,
            length == text@.len(),
            chars@ == text@.subrange(0, i as int),
        decreases length - i,
    {
        chars.push(text.get_char(i));
        assert(text@.subrange(0, i + 1) =~= text@.subrange(0, i as int).push(text@[i as int]));
        i = i + 1;
    }
    assert(text@.subrange(0, length as int) =~= text@);
    chars
}

/// Drawing into a frame buffer with a font.
pub struct Graphics {
    fb: FrameBuffer,
    font: Font,
}

impl View for Graphics {
    type V = Screen;

    closed spec fn view(&self) -> Screen {
        self.fb@
    }
}

impl Graphics {
    /// Width of the screen in pixels.
    pub closed spec fn width(&self) -> int {
        self.fb.width()
    }

    /// Height of the screen in pixels.
    pub closed spec fn height(&self) -> int {
        self.fb.height()
    }

    /// The font that characters are drawn with.
    pub closed spec fn font(&self) -> Font {
        self.font
    }

    /// Drawing into `fb` with `font`.
    pub fn new(fb: FrameBuffer, font: Font) -> (graphics: Graphics)
        ensures
            graphics@ == fb@,
            graphics.width() == fb.width(),
            graphics.height() == fb.height(),
            graphics.font() == font,
            has_size(graphics@, graphics.width(), graphics.height()),
    {
        Graphics { fb, font }
    }

    /// The size of the screen in pixels.
    pub fn size(&self) -> (size: Vector2D<usize>)
        ensures
            size.x == self.width(),
            size.y == self.height(),
            has_size(self@, self.width(), self.height()),
    {
        Vector2D {
            x: self.fb.horizontal_resolution as usize,
            y: self.fb.vertical_resolution as usize,
        }
    }

    /// The frame buffer that is drawn into.
    pub fn frame_buffer(&self) -> (fb: &FrameBuffer)
        ensures
            fb@ == self@,
            fb.width() == self.width(),
            fb.height() == self.height(),
    {
        &self.fb
    }

    /// Paints the pixel at column `x` of row `y`; a pixel outside the
    /// screen is not drawn.
    pub fn write_pixel(&mut self, x: usize, y: usize, color: &PixelColor)
        ensures
            final(self)@ == paint(old(self)@, single_pixel(x as int, y as int), *color),
            final(self).width() == old(self).width(),
            final(self).height() == old(self).height(),
            final(self).font() == old(self).font(),
            has_size(final(self)@, final(self).width(), final(self).height()),
    {
        proof {
            use_type_invariant(&self.fb);
        }
        let width = self.fb.horizontal_resolution as usize;
        let height = self.fb.vertical_resolution as usize;
        if x >= width || y >= height {
            assert(self@ =~~= paint(old(self)@, single_pixel(x as int, y as int), *color));
            return ;
        }
        let stride = self.fb.pixels_per_scan_line as usize;
        proof {
            lemma_pixel_index_bounded(stride as int, height as int, x as int, y as int);
            assert(stride * height == self.fb.pixels_per_scan_line
                * self.fb.vertical_resolution);
        }
        let pixel_index = y * stride + x;
        let base = 4 * pixel_index;
        let value = match self.fb.format {
            PixelFormat::Rgb => [color.0, color.1, color.2],
            PixelFormat::Bgr => [color.2, color.1, color.0],
        };
        self.fb.write_value(base, value);
        proof {
            let before = old(self).fb;
            let after = self.fb;
            assert forall|a: int, b: int| 0 <= a < width && 0 <= b < height implies after.pixel(a, b)
                == (if a == x && b == y {
                *color
            } else {
                before.pixel(a, b)
            }) by {
                lemma_pixel_index_bounded(stride as int, height as int, a, b);
                if !(a == x && b == y) {
                    if b * stride + a == y * stride + x {
                        lemma_pixel_index_injective(stride as int, x as int, y as int, a, b);
                    }
                }
            }
            assert(self@ =~~= paint(old(self)@, single_pixel(x as int, y as int), *color));
        }
    }

    /// Paints the glyph of `c` with its top left corner at column `x` of
    /// row `y`. A character outside ASCII has no glyph, and nothing is
    /// drawn for it.
    pub fn write_ascii(&mut self, x: usize, y: usize, c: char, color: &PixelColor)
        ensures
            final(self)@ == paint(
                old(self)@,
                glyph_pixels(old(self).font(), x as int, y as int, c),
                *color,
            ),
            final(self).width() == old(self).width(),
            final(self).height() == old(self).height(),
            final(self).font() == old(self).font(),
    {
        draw_glyph(self, x, y, c, *color);
    }

    /// Paints the glyphs of `text` in a row that starts at column `x` of row
    /// `y`.
    pub fn write_string(&mut self, x: usize, y: usize, text: &str, color: &PixelColor)
        ensures
            final(self)@ == paint(
                old(self)@,
                text_pixels(old(self).font(), x as int, y as int, text@),
                *color,
            ),
            final(self).width() == old(self).width(),
            final(self).height() == old(self).height(),
            final(self).font() == old(self).font(),
    {
        let chars = chars_of(text);
        draw_chars(self, x, y, chars.as_slice(), *color);
    }

    /// Paints the glyphs of the characters of `text` in a row that starts at
    /// column `x` of row `y`.
    pub fn write_chars(&mut self, x: usize, y: usize, text: &[char], color: &PixelColor)
        ensures
            final(self)@ == paint(
                old(self)@,
                text_pixels(old(self).font(), x as int, y as int, text@),
                *color,
            ),
            final(self).width() == old(self).width(),
            final(self).height() == old(self).height(),
            final(self).font() == old(self).font(),
    {
        draw_chars(self, x, y, text, *color);
    }

    /// Paints the rectangle of `size` whose top left corner is at `pos`.
    pub fn fill_rectangle(
        &mut self,
        pos: &Vector2D<usize>,
        size: &Vector2D<usize>,
        color: &PixelColor,
    )
        ensures
            final(self)@ == paint(
                old(self)@,
                rectangle(pos.x as int, pos.y as int, size.x as int, size.y as int),
                *color,
            ),
            final(self).width() == old(self).width(),
            final(self).height() == old(self).height(),
            final(self).font() == old(self).font(),
    {
        fill(self, pos, size, *color);
    }

    /// Paints the outline of the rectangle of `size` whose top left corner
    /// is at `pos`: its top and bottom rows without their right ends, and
    /// its left and right columns without their bottom ends.
    pub fn draw_rectangle(
        &mut self,
        pos: &Vector2D<usize>,
        size: &Vector2D<usize>,
        color: &PixelColor,
    )
        ensures
            final(self)@ == paint(
                old(self)@,
                outline(pos.x as int, pos.y as int, size.x as int, size.y as int),
                *color,
            ),
            final(self).width() == old(self).width(),
            final(self).height() == old(self).height(),
            final(self).font() == old(self).font(),
    {
        draw_outline(self, pos, size, *color);
    }
}

impl Canvas<PixelColor> for Graphics {
    open spec fn cells(&self) -> Screen {
        self@
    }

    open spec fn glyphs(&self) -> Font {
        self.font()
    }

    open spec fn extent(&self) -> (int, int) {
        (self.width(), self.height())
    }

    fn dimensions(&self) -> (size: Vector2D<usize>) {
        self.size()
    }

    fn glyph(&self, c: char) -> (rows: [u8; 16]) {
        self.font.glyph(c)
    }

    fn plot(&mut self, x: usize, dx: usize, y: usize, dy: usize, value: PixelColor) {
        match (x.checked_add(dx), y.checked_add(dy)) {
            (Some(px), Some(py)) => self.write_pixel(px, py, &value),
            _ => {
                assert(self@ =~~= paint(old(self)@, single_pixel(x + dx, y + dy), value));
            },
        }
    }
}

} // verus!
