//! Windows: rectangles of pixels, some of them transparent, that are
//! drawn onto the screen at a position.

use vstd::prelude::*;
use crate::canvas::{
    draw_chars,
    draw_glyph,
    draw_outline,
    fill,
    glyph_pixels,
    has_size,
    outline,
    paint,
    rectangle,
    single_pixel,
    text_pixels,
    Canvas,
};
use crate::fonts::Font;
use crate::graphics::{
    chars_of,
    lemma_pixel_index_bounded,
    lemma_pixel_index_injective,
    Graphics,
    PixelColor,
    Screen,
    Vector2D,
};

verus! {

/// The pixels of a window: `pixels[y][x]` is the colour at column `x` of
/// row `y`, or `None` where the window is transparent.
pub type Pixels = Seq<Seq<Option<PixelColor>>>;

/// The pixel of a window at column `x` of row `y`; transparent outside the
/// window.
pub open spec fn pixel_at(pixels: Pixels, x: int, y: int) -> Option<PixelColor> {
    if 0 <= y < pixels.len() && 0 <= x < pixels[y].len() {
        pixels[y][x]
    } else {
        None
    }
}

/// The screen with the window's pixels that `drawn` selects laid over it,
/// the window's top left corner at column `left` of row `top`. Where the
/// window is transparent the screen shows through.
pub open spec fn overlay_where(
    screen: Screen,
    pixels: Pixels,
    left: int,
    top: int,
    drawn: spec_fn(int, int) -> bool,
) -> Screen {
    Seq::new(
        screen.len(),
        |b: int|
            Seq::new(
                screen[b].len(),
                |a: int|
                    match pixel_at(pixels, a - left, b - top) {
                        Some(color) => if drawn(a - left, b - top) {
                            color
                        } else {
                            screen[b][a]
                        },
                        None => screen[b][a],
                    },
            ),
    )
}

/// The screen with the whole window laid over it.
pub open spec fn overlay(screen: Screen, pixels: Pixels, left: int, top: int) -> Screen {
    overlay_where(screen, pixels, left, top, |x: int, y: int| true)
}

/// The position in a window's storage of the pixel at column `x` of row
/// `y`: the rows lie one after the other.
pub open spec fn cell_index(width: int, x: int, y: int) -> int {
    y * width + x
}

/// A rectangle of pixels.
#[derive(Debug)]
pub struct Window {
    width: usize,
    height: usize,
    /// The pixels row after row.
    data: Vec<Option<PixelColor>>,
    font: Font,
}

impl View for Window {
    type V = Pixels;

    closed spec fn view(&self) -> Pixels {
        Seq::new(
            self.height as nat,
            |y: int|
                Seq::new(
                    self.width as nat,
                    |x: int| self.data@[cell_index(self.width as int, x, y)],
                ),
        )
    }
}

impl Window {
    #[verifier::type_invariant]
    spec fn inv(&self) -> bool {
        self.data@.len() == self.width * self.height
    }

    /// Width of the window in pixels.
    pub closed spec fn spec_width(&self) -> int {
        self.width as int
    }

    /// Height of the window in pixels.
    pub closed spec fn spec_height(&self) -> int {
        self.height as int
    }

    /// The font that characters are drawn with.
    pub closed spec fn font(&self) -> Font {
        self.font
    }

    /// A window of the given size, wholly transparent.
    pub fn new(width: usize, height: usize, font: Font) -> (window: Window)
        requires
            width * height <= usize::MAX,
        ensures
            window.spec_width() == width,
            window.spec_height() == height,
            window.font() == font,
            has_size(window@, width as int, height as int),
            forall|x: int, y: int| pixel_at(window@, x, y) is None,
    {
        let count = width * height;
        let mut data: Vec<Option<PixelColor>> = Vec::new();
        let mut i: usize = 0;
        while i < count
            invariant
                i <= count,
                data@.len() == i,
                forall|k: int| 0 <= k < i ==> (#[trigger] data@[k]) is None,
            decreases count - i,
        {
            data.push(None);
            i = i + 1;
        }
        let window = Window { width, height, data, font };
        proof {
            assert forall|x: int, y: int| pixel_at(window@, x, y) is None by {
                if 0 <= y < height && 0 <= x < width {
                    lemma_pixel_index_bounded(width as int, height as int, x, y);
                }
            }
        }
        window
    }

    /// Width of the window in pixels.
    pub fn width(&self) -> (width: usize)
        ensures
            width == self.spec_width(),
            has_size(self@, self.spec_width(), self.spec_height()),
    {
        self.width
    }

    /// Height of the window in pixels.
    pub fn height(&self) -> (height: usize)
        ensures
            height == self.spec_height(),
            has_size(self@, self.spec_width(), self.spec_height()),
    {
        self.height
    }

    /// The pixel at column `x` of row `y`; `None` where the window is
    /// transparent, and outside the window.
    pub fn get(&self, x: usize, y: usize) -> (pixel: Option<PixelColor>)
        ensures
            pixel == pixel_at(self@, x as int, y as int),
    {
        proof {
            use_type_invariant(self);
        }
        let length = self.data.len();
        if y < self.height && x < self.width {
            proof {
                lemma_pixel_index_bounded(self.width as int, self.height as int, x as int, y as int);
                assert(y * self.width + x < length);
                assert(0 <= y * self.width) by (nonlinear_arith)
                    requires
                        0 <= y,
                        0 <= self.width,
                ;
            }
            self.data[y * self.width + x]
        } else {
            None
        }
    }

    /// Sets the pixel at column `x` of row `y`; outside the window nothing
    /// is set.
    pub fn write(&mut self, x: usize, y: usize, c: Option<PixelColor>)
        ensures
            final(self)@ == paint(old(self)@, single_pixel(x as int, y as int), c),
            final(self).spec_width() == old(self).spec_width(),
            final(self).spec_height() == old(self).spec_height(),
            final(self).font() == old(self).font(),
            has_size(final(self)@, final(self).spec_width(), final(self).spec_height()),
    {
        proof {
            use_type_invariant(&*self);
        }
        let length = self.data.len();
        if y < self.height && x < self.width {
            proof {
                lemma_pixel_index_bounded(self.width as int, self.height as int, x as int, y as int);
                assert(y * self.width + x < length);
                assert(0 <= y * self.width) by (nonlinear_arith)
                    requires
                        0 <= y,
                        0 <= self.width,
                ;
            }
            let index = y * self.width + x;
            self.data[index] = c;
            proof {
                assert forall|a: int, b: int|
                    0 <= a < self.width && 0 <= b < self.height implies {
                    &&& 0 <= #[trigger] cell_index(self.width as int, a, b) < self.data@.len()
                    &&& !(a == x && b == y) ==> cell_index(self.width as int, a, b) != index
                } by {
                    lemma_pixel_index_bounded(self.width as int, self.height as int, a, b);
                    if b * self.width + a == y * self.width + x {
                        lemma_pixel_index_injective(self.width as int, x as int, y as int, a, b);
                    }
                }
            }
        }
        assert(self@ =~~= paint(old(self)@, single_pixel(x as int, y as int), c));
    }

    /// Paints the glyph of `c` with its top left corner at column `x` of
    /// row `y`. A character outside ASCII has no glyph, and nothing is
    /// drawn for it.
    pub fn write_ascii(&mut self, x: usize, y: usize, c: char, color: PixelColor)
        ensures
            final(self)@ == paint(
                old(self)@,
                glyph_pixels(old(self).font(), x as int, y as int, c),
                Some(color),
            ),
            final(self).spec_width() == old(self).spec_width(),
            final(self).spec_height() == old(self).spec_height(),
            final(self).font() == old(self).font(),
    {
        draw_glyph(self, x, y, c, Some(color));
    }

    /// Paints the glyphs of `text` in a row that starts at column `x` of row
    /// `y`.
    pub fn write_string(&mut self, x: usize, y: usize, text: &str, color: PixelColor)
        ensures
            final(self)@ == paint(
                old(self)@,
                text_pixels(old(self).font(), x as int, y as int, text@),
                Some(color),
            ),
            final(self).spec_width() == old(self).spec_width(),
            final(self).spec_height() == old(self).spec_height(),
            final(self).font() == old(self).font(),
    {
        let chars = chars_of(text);
        draw_chars(self, x, y, chars.as_slice(), Some(color));
    }

    /// Sets every pixel of the rectangle of `size` whose top left corner is
    /// at `pos`.
    pub fn fill_rectangle(
        &mut self,
        pos: Vector2D<usize>,
        size: Vector2D<usize>,
        color: Option<PixelColor>,
    )
        ensures
            final(self)@ == paint(
                old(self)@,
                rectangle(pos.x as int, pos.y as int, size.x as int, size.y as int),
                color,
            ),
            final(self).spec_width() == old(self).spec_width(),
            final(self).spec_height() == old(self).spec_height(),
            final(self).font() == old(self).font(),
    {
        fill(self, &pos, &size, color);
    }

    /// Paints the outline of the rectangle of `size` whose top left corner
    /// is at `pos`: its top and bottom rows without their right ends, and
    /// its left and right columns without their bottom ends.
    pub fn draw_rectangle(
        &mut self,
        pos: Vector2D<usize>,
        size: Vector2D<usize>,
        color: PixelColor,
    )
        ensures
            final(self)@ == paint(
                old(self)@,
                outline(pos.x as int, pos.y as int, size.x as int, size.y as int),
                Some(color),
            ),
            final(self).spec_width() == old(self).spec_width(),
            final(self).spec_height() == old(self).spec_height(),
            final(self).font() == old(self).font(),
    {
        draw_outline(self, &pos, &size, Some(color));
    }

    /// Lays the window over the screen, its top left corner at `position`.
    /// Transparent pixels leave the screen as it is, and so do pixels that
    /// fall outside the screen.
    pub fn draw_to(&self, graphics: &mut Graphics, position: &Vector2D<isize>)
        ensures
            final(graphics)@ == overlay(
                old(graphics)@,
                self@,
                position.x as int,
                position.y as int,
            ),
            final(graphics).width() == old(graphics).width(),
            final(graphics).height() == old(graphics).height(),
            final(graphics).font() == old(graphics).font(),
    {
        let ghost left = position.x as int;
        let ghost top = position.y as int;
        let _ = graphics.size();
        let mut y: usize = 0;
        assert(graphics@ =~~= overlay_where(
            old(graphics)@,
            self@,
            left,
            top,
            |a: int, b: int| b < 0,
        ));
        while y < self.height
            invariant
                y <= self.height,
                left == position.x,
                top == position.y,
                graphics.width() == old(graphics).width(),
                graphics.height() == old(graphics).height(),
                graphics.font() == old(graphics).font(),
                has_size(graphics@, graphics.width(), graphics.height()),
                graphics.width() <= usize::MAX,
                graphics.height() <= usize::MAX,
                graphics@ == overlay_where(old(graphics)@, self@, left, top, |a: int, b: int| b < y),
            decreases self.height - y,
        {
            let mut x: usize = 0;
            assert(graphics@ =~~= overlay_where(
                old(graphics)@,
                self@,
                left,
                top,
                |a: int, b: int| b < y || (b == y && a < 0),
            ));
            while x < self.width
                invariant
                    x <= self.width,
                    y < self.height,
                    left == position.x,
                    top == position.y,
                    graphics.width() == old(graphics).width(),
                    graphics.height() == old(graphics).height(),
                    graphics.font() == old(graphics).font(),
                    has_size(graphics@, graphics.width(), graphics.height()),
                    graphics.width() <= usize::MAX,
                    graphics.height() <= usize::MAX,
                    graphics@ == overlay_where(
                        old(graphics)@,
                        self@,
                        left,
                        top,
                        |a: int, b: int| b < y || (b == y && a < x),
                    ),
                decreases self.width - x,
            {
                match self.get(x, y) {
                    Some(color) => {
                        let px = position.x as i128 + x as i128;
                        let py = position.y as i128 + y as i128;
                        if px >= 0 && py >= 0 && px <= usize::MAX as i128 && py <= usize::MAX
                            as i128 {
                            graphics.write_pixel(px as usize, py as usize, &color);
                        }
                    },
                    None => {},
                }
                assert(graphics@ =~~= overlay_where(
                    old(graphics)@,
                    self@,
                    left,
                    top,
                    |a: int, b: int| b < y || (b == y && a < x + 1),
                ));
                x = x + 1;
            }
            assert(graphics@ =~~= overlay_where(
                old(graphics)@,
                self@,
                left,
                top,
                |a: int, b: int| b < y + 1,
            ));
            y = y + 1;
        }
        assert(graphics@ =~~= overlay(old(graphics)@, self@, left, top));
    }
}

impl Canvas<Option<PixelColor>> for Window {
    open spec fn cells(&self) -> Pixels {
        self@
    }

    open spec fn glyphs(&self) -> Font {
        self.font()
    }

    open spec fn extent(&self) -> (int, int) {
        (self.spec_width(), self.spec_height())
    }

    fn dimensions(&self) -> (size: Vector2D<usize>) {
        Vector2D { x: self.width(), y: self.height() }
    }

    fn glyph(&self, c: char) -> (rows: [u8; 16]) {
        self.font.glyph(c)
    }

    fn plot(&mut self, x: usize, dx: usize, y: usize, dy: usize, value: Option<PixelColor>) {
        let _ = self.width();
        match (x.checked_add(dx), y.checked_add(dy)) {
            (Some(px), Some(py)) => self.write(px, py, value),
            _ => {
                assert(self@ =~~= paint(old(self)@, single_pixel(x + dx, y + dy), value));
            },
        }
    }
}

} // verus!
