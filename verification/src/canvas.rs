//! Drawing onto grids of cells.
//!
//! The screen is a grid of colours, a window a grid of colours and
//! transparent cells. What is drawn onto either is the same: single cells,
//! glyphs, rectangles. It is written once, for every grid whose cells can
//! be set one by one.

use vstd::prelude::*;
use crate::fonts::{row_has_pixel, Font, GLYPH_COUNT, GLYPH_HEIGHT, GLYPH_WIDTH};
use crate::graphics::Vector2D;

verus! {

/// The grid with every cell that `covered` selects replaced by `color`.
pub open spec fn paint<T>(screen: Seq<Seq<T>>, covered: spec_fn(int, int) -> bool, color: T) -> Seq<
    Seq<T>,
> {
    Seq::new(
        screen.len(),
        |y: int|
            Seq::new(
                screen[y].len(),
                |x: int|
                    if covered(x, y) {
                        color
                    } else {
                        screen[y][x]
                    },
            ),
    )
}

/// The grid has `height` rows of `width` cells.
pub open spec fn has_size<T>(screen: Seq<Seq<T>>, width: int, height: int) -> bool {
    &&& screen.len() == height
    &&& forall|y: int| 0 <= y < height ==> (#[trigger] screen[y]).len() == width
}

/// The one pixel at column `x` of row `y`.
pub open spec fn single_pixel(x: int, y: int) -> spec_fn(int, int) -> bool {
    |a: int, b: int| a == x && b == y
}

/// The pixels of the rectangle whose top left corner is at column `x` of
/// row `y`.
pub open spec fn rectangle(x: int, y: int, width: int, height: int) -> spec_fn(int, int) -> bool {
    |a: int, b: int| x <= a < x + width && y <= b < y + height
}

/// The pixels of the outline that `draw_rectangle` draws: the rows
/// `y` and `y + height` from column `x` to `x + width - 1`, and the columns
/// `x` and `x + width` from row `y` to `y + height - 1`.
pub open spec fn outline(x: int, y: int, width: int, height: int) -> spec_fn(int, int) -> bool {
    |a: int, b: int|
        {
            ||| (b == y || b == y + height) && x <= a < x + width
            ||| (a == x || a == x + width) && y <= b < y + height
        }
}

/// The pixels of the glyph of `c` drawn with its top left corner at column
/// `x` of row `y`.
pub open spec fn glyph_pixels(font: Font, x: int, y: int, c: char) -> spec_fn(int, int) -> bool {
    |a: int, b: int| font.has_pixel(c, a - x, b - y)
}

/// The pixels of the glyphs of `text` drawn from column `x` of row `y` on,
/// each 8 pixels to the right of the one before.
pub open spec fn text_pixels(font: Font, x: int, y: int, text: Seq<char>) -> spec_fn(
    int,
    int,
) -> bool {
    |a: int, b: int| text_covers(font, x, y, text, a, b)
}

/// The pixel at column `a` of row `b` belongs to a glyph of `text` drawn
/// from column `x` of row `y` on.
pub open spec fn text_covers(font: Font, x: int, y: int, text: Seq<char>, a: int, b: int) -> bool {
    exists|i: int| 0 <= i < text.len() && #[trigger] font.has_pixel(text[i], a - x - 8 * i, b - y)
}

/// A grid of cells with a font.
pub trait Canvas<T: Copy> {
    /// The cells: `cells()[y][x]` is the cell at column `x` of row `y`.
    spec fn cells(&self) -> Seq<Seq<T>>;

    /// The font that characters are drawn with.
    spec fn glyphs(&self) -> Font;

    /// The number of columns and the number of rows of the grid.
    spec fn extent(&self) -> (int, int);

    /// The number of columns and the number of rows of the grid.
    fn dimensions(&self) -> (size: Vector2D<usize>)
        ensures
            size.x == self.extent().0,
            size.y == self.extent().1,
            has_size(self.cells(), self.extent().0, self.extent().1),
    ;

    /// The rows of the glyph of an ASCII character.
    fn glyph(&self, c: char) -> (rows: [u8; 16])
        requires
            (c as u32) < GLYPH_COUNT,
        ensures
            rows@ == self.glyphs().glyphs()[c as u32 as int],
    ;

    /// Gives the cell at column `x + dx` of row `y + dy` the value `value`;
    /// outside the grid nothing is set.
    fn plot(&mut self, x: usize, dx: usize, y: usize, dy: usize, value: T)
        ensures
            final(self).cells() == paint(old(self).cells(), single_pixel(x + dx, y + dy), value),
            final(self).glyphs() == old(self).glyphs(),
            final(self).extent() == old(self).extent(),
    ;
}

/// Gives the cells of the glyph of `c` the value `value`, the glyph drawn
/// with its top left corner at column `x` of row `y`. A character outside
/// ASCII has no glyph, and nothing is drawn for it.
pub fn draw_glyph<T: Copy, C: Canvas<T>>(canvas: &mut C, x: usize, y: usize, c: char, value: T)
    ensures
        final(canvas).cells() == paint(
            old(canvas).cells(),
            glyph_pixels(old(canvas).glyphs(), x as int, y as int, c),
            value,
        ),
        final(canvas).glyphs() == old(canvas).glyphs(),
        final(canvas).extent() == old(canvas).extent(),
{
    let ghost font = canvas.glyphs();
    if c as u32 > 0x7f {
        assert(canvas.cells() =~~= paint(old(canvas).cells(), glyph_pixels(font, x as int, y as int, c), value));
        return ;
    }
    let rows = canvas.glyph(c);
    let mut dy: usize = 0;
    assert(canvas.cells() =~~= paint(
        old(canvas).cells(),
        |a: int, b: int| font.has_pixel(c, a - x, b - y) && b - y < 0,
        value,
    ));
    while dy < GLYPH_HEIGHT
        invariant
            dy <= GLYPH_HEIGHT,
            (c as u32) < GLYPH_COUNT,
            canvas.glyphs() == font,
            font == old(canvas).glyphs(),
            canvas.extent() == old(canvas).extent(),
            rows@ == font.glyphs()[c as u32 as int],
            canvas.cells() == paint(
                old(canvas).cells(),
                |a: int, b: int| font.has_pixel(c, a - x, b - y) && b - y < dy,
                value,
            ),
        decreases GLYPH_HEIGHT - dy,
    {
        let row = rows[dy];
        let mut dx: usize = 0;
        assert(canvas.cells() =~~= paint(
            old(canvas).cells(),
            |a: int, b: int|
                font.has_pixel(c, a - x, b - y) && (b - y < dy || (b - y == dy && a - x < 0)),
            value,
        ));
        while dx < GLYPH_WIDTH
            invariant
                dx <= GLYPH_WIDTH,
                dy < GLYPH_HEIGHT,
                (c as u32) < GLYPH_COUNT,
                canvas.glyphs() == font,
                font == old(canvas).glyphs(),
            canvas.extent() == old(canvas).extent(),
                row == font.glyphs()[c as u32 as int][dy as int],
                canvas.cells() == paint(
                    old(canvas).cells(),
                    |a: int, b: int|
                        font.has_pixel(c, a - x, b - y) && (b - y < dy || (b - y == dy && a - x
                            < dx)),
                    value,
                ),
            decreases GLYPH_WIDTH - dx,
        {
            if row_has_pixel(row, dx) {
                canvas.plot(x, dx, y, dy, value);
            }
            assert(canvas.cells() =~~= paint(
                old(canvas).cells(),
                |a: int, b: int|
                    font.has_pixel(c, a - x, b - y) && (b - y < dy || (b - y == dy && a - x < dx
                        + 1)),
                value,
            ));
            dx = dx + 1;
        }
        assert(canvas.cells() =~~= paint(
            old(canvas).cells(),
            |a: int, b: int| font.has_pixel(c, a - x, b - y) && b - y < dy + 1,
            value,
        ));
        dy = dy + 1;
    }
    assert(canvas.cells() =~~= paint(old(canvas).cells(), glyph_pixels(font, x as int, y as int, c), value));
}


/// Gives the cells of the glyphs of the characters of `text` the value
/// `value`, the glyphs drawn in a row that starts at column `x` of row `y`.
pub fn draw_chars<T: Copy, C: Canvas<T>>(canvas: &mut C, x: usize, y: usize, text: &[char], value: T)
    ensures
        final(canvas).cells() == paint(
            old(canvas).cells(),
            text_pixels(old(canvas).glyphs(), x as int, y as int, text@),
            value,
        ),
        final(canvas).glyphs() == old(canvas).glyphs(),
        final(canvas).extent() == old(canvas).extent(),
{
    let ghost font = canvas.glyphs();
    let length = text.len();
    let _ = canvas.dimensions();
    let mut i: usize = 0;
    assert(canvas.cells() =~~= paint(
        old(canvas).cells(),
        text_pixels(font, x as int, y as int, text@.subrange(0, 0)),
        value,
    ));
    while i < length
        invariant
            i <= length,
            length == text@.len(),
            canvas.glyphs() == font,
            font == old(canvas).glyphs(),
            canvas.extent() == old(canvas).extent(),
            canvas.extent().0 <= usize::MAX,
            has_size(canvas.cells(), canvas.extent().0, canvas.extent().1),
            canvas.cells() == paint(
                old(canvas).cells(),
                text_pixels(font, x as int, y as int, text@.subrange(0, i as int)),
                value,
            ),
        decreases length - i,
    {
        let c = text[i];
        let ghost drawn = text@.subrange(0, i as int);
        let ghost more = text@.subrange(0, i + 1);
        let column = match i.checked_mul(GLYPH_WIDTH) {
            Some(offset) => x.checked_add(offset),
            None => None,
        };
        match column {
            Some(column) => {
                draw_glyph(canvas, column, y, c, value);
            },
            None => {},
        }
        proof {
            assert forall|a: int, b: int| #[trigger] text_covers(
                font,
                x as int,
                y as int,
                more,
                a,
                b,
            ) == (text_covers(font, x as int, y as int, drawn, a, b) || font.has_pixel(
                c,
                a - x - 8 * i,
                b - y,
            )) by {
                if text_covers(font, x as int, y as int, more, a, b) {
                    let k = choose|k: int|
                        0 <= k < more.len() && #[trigger] font.has_pixel(
                            more[k],
                            a - x - 8 * k,
                            b - y,
                        );
                    if k < i {
                        assert(drawn[k] == more[k]);
                        assert(font.has_pixel(drawn[k], a - x - 8 * k, b - y));
                    }
                }
                if text_covers(font, x as int, y as int, drawn, a, b) {
                    let k = choose|k: int|
                        0 <= k < drawn.len() && #[trigger] font.has_pixel(
                            drawn[k],
                            a - x - 8 * k,
                            b - y,
                        );
                    assert(more[k] == drawn[k]);
                    assert(font.has_pixel(more[k], a - x - 8 * k, b - y));
                }
                if font.has_pixel(c, a - x - 8 * i, b - y) {
                    assert(more[i as int] == c);
                    assert(font.has_pixel(more[i as int], a - x - 8 * i, b - y));
                }
            }
            assert(canvas.cells() =~~= paint(
                old(canvas).cells(),
                text_pixels(font, x as int, y as int, more),
                value,
            ));
        }
        i = i + 1;
    }
    assert(text@.subrange(0, length as int) =~= text@);
}


/// Gives every cell of the rectangle of `size` whose top left corner is at
/// `pos` the value `value`.
pub fn fill<T: Copy, C: Canvas<T>>(
canvas: &mut C,
pos: &Vector2D<usize>,
size: &Vector2D<usize>,
value: T,
)
    ensures
        final(canvas).cells() == paint(
            old(canvas).cells(),
            rectangle(pos.x as int, pos.y as int, size.x as int, size.y as int),
            value,
        ),
        final(canvas).glyphs() == old(canvas).glyphs(),
        final(canvas).extent() == old(canvas).extent(),
{
    let mut dy: usize = 0;
    assert(canvas.cells() =~~= paint(
        old(canvas).cells(),
        rectangle(pos.x as int, pos.y as int, size.x as int, 0),
        value,
    ));
    while dy < size.y
        invariant
            dy <= size.y,
            canvas.glyphs() == old(canvas).glyphs(),
            canvas.extent() == old(canvas).extent(),
            canvas.cells() == paint(
                old(canvas).cells(),
                rectangle(pos.x as int, pos.y as int, size.x as int, dy as int),
                value,
            ),
        decreases size.y - dy,
    {
        let mut dx: usize = 0;
        assert(canvas.cells() =~~= paint(
            old(canvas).cells(),
            |a: int, b: int|
                (rectangle(pos.x as int, pos.y as int, size.x as int, dy as int))(a, b) || (b
                    == pos.y + dy && pos.x <= a < pos.x + 0),
            value,
        ));
        while dx < size.x
            invariant
                dx <= size.x,
                dy < size.y,
                canvas.glyphs() == old(canvas).glyphs(),
            canvas.extent() == old(canvas).extent(),
                canvas.cells() == paint(
                    old(canvas).cells(),
                    |a: int, b: int|
                        (rectangle(pos.x as int, pos.y as int, size.x as int, dy as int))(a, b)
                            || (b == pos.y + dy && pos.x <= a < pos.x + dx),
                    value,
                ),
            decreases size.x - dx,
        {
            canvas.plot(pos.x, dx, pos.y, dy, value);
            assert(canvas.cells() =~~= paint(
                old(canvas).cells(),
                |a: int, b: int|
                    (rectangle(pos.x as int, pos.y as int, size.x as int, dy as int))(a, b) || (
                    b == pos.y + dy && pos.x <= a < pos.x + dx + 1),
                value,
            ));
            dx = dx + 1;
        }
        assert(canvas.cells() =~~= paint(
            old(canvas).cells(),
            rectangle(pos.x as int, pos.y as int, size.x as int, dy + 1),
            value,
        ));
        dy = dy + 1;
    }
}


/// Gives the cells of the outline of the rectangle of `size` whose top
/// left corner is at `pos` the value `value`: its top and bottom rows
/// without their right ends, and its left and right columns without their
/// bottom ends.
pub fn draw_outline<T: Copy, C: Canvas<T>>(
canvas: &mut C,
pos: &Vector2D<usize>,
size: &Vector2D<usize>,
value: T,
)
    ensures
        final(canvas).cells() == paint(
            old(canvas).cells(),
            outline(pos.x as int, pos.y as int, size.x as int, size.y as int),
            value,
        ),
        final(canvas).glyphs() == old(canvas).glyphs(),
        final(canvas).extent() == old(canvas).extent(),
{
    let mut dx: usize = 0;
    assert(canvas.cells() =~~= paint(
        old(canvas).cells(),
        |a: int, b: int| (b == pos.y || b == pos.y + size.y) && pos.x <= a < pos.x + 0,
        value,
    ));
    while dx < size.x
        invariant
            dx <= size.x,
            canvas.glyphs() == old(canvas).glyphs(),
            canvas.extent() == old(canvas).extent(),
            canvas.cells() == paint(
                old(canvas).cells(),
                |a: int, b: int| (b == pos.y || b == pos.y + size.y) && pos.x <= a < pos.x + dx,
                value,
            ),
        decreases size.x - dx,
    {
        canvas.plot(pos.x, dx, pos.y, 0, value);
        canvas.plot(pos.x, dx, pos.y, size.y, value);
        assert(canvas.cells() =~~= paint(
            old(canvas).cells(),
            |a: int, b: int| (b == pos.y || b == pos.y + size.y) && pos.x <= a < pos.x + dx + 1,
            value,
        ));
        dx = dx + 1;
    }
    let mut dy: usize = 0;
    assert(canvas.cells() =~~= paint(
        old(canvas).cells(),
        |a: int, b: int|
            {
                ||| (b == pos.y || b == pos.y + size.y) && pos.x <= a < pos.x + size.x
                ||| (a == pos.x || a == pos.x + size.x) && pos.y <= b < pos.y + 0
            },
        value,
    ));
    while dy < size.y
        invariant
            dy <= size.y,
            canvas.glyphs() == old(canvas).glyphs(),
            canvas.extent() == old(canvas).extent(),
            canvas.cells() == paint(
                old(canvas).cells(),
                |a: int, b: int|
                    {
                        ||| (b == pos.y || b == pos.y + size.y) && pos.x <= a < pos.x + size.x
                        ||| (a == pos.x || a == pos.x + size.x) && pos.y <= b < pos.y + dy
                    },
                value,
            ),
        decreases size.y - dy,
    {
        canvas.plot(pos.x, 0, pos.y, dy, value);
        canvas.plot(pos.x, size.x, pos.y, dy, value);
        assert(canvas.cells() =~~= paint(
            old(canvas).cells(),
            |a: int, b: int|
                {
                    ||| (b == pos.y || b == pos.y + size.y) && pos.x <= a < pos.x + size.x
                    ||| (a == pos.x || a == pos.x + size.x) && pos.y <= b < pos.y + dy + 1
                },
            value,
        ));
        dy = dy + 1;
    }
    assert(canvas.cells() =~~= paint(
        old(canvas).cells(),
        outline(pos.x as int, pos.y as int, size.x as int, size.y as int),
        value,
    ));
}

} // verus!
