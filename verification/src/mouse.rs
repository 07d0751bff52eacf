//! The mouse cursor: an arrow drawn onto the screen that follows the
//! mouse.

use vstd::prelude::*;
use vstd::string::StrSliceExecFns;
use crate::canvas::{has_size};
use crate::graphics::{Graphics, PixelColor, Screen, Vector2D};
use crate::window::{overlay, overlay_where, Pixels};

verus! {

/// Width of the cursor in pixels.
pub const CURSOR_WIDTH: usize = 15;

/// Height of the cursor in pixels.
pub const CURSOR_HEIGHT: usize = 24;

/// The shape of the cursor, row by row: `@` is a pixel of its border, `.`
/// a pixel of its inside, and a blank a pixel that does not belong to it.
pub open spec fn pointer_shape() -> Seq<Seq<char>> {
    seq![
        "@              "@,
        "@@             "@,
        "@.@            "@,
        "@..@           "@,
        "@...@          "@,
        "@....@         "@,
        "@.....@        "@,
        "@......@       "@,
        "@.......@      "@,
        "@........@     "@,
        "@.........@    "@,
        "@..........@   "@,
        "@...........@  "@,
        "@............@ "@,
        "@.......@@@@@@@"@,
        "@.......@      "@,
        "@....@@.@      "@,
        "@...@  @.@     "@,
        "@..@   @.@     "@,
        "@.@     @.@    "@,
        "@@      @.@    "@,
        "@        @.@   "@,
        "          @.@  "@,
        "          @@@  "@,
    ]
}

/// Row `dy` of the cursor's shape.
pub fn pointer_row(dy: usize) -> (row: &'static str)
    requires
        dy < CURSOR_HEIGHT,
    ensures
        row@ == pointer_shape()[dy as int],
        row@.len() == CURSOR_WIDTH,
{
    match dy {
        0 => {
            proof {
                reveal_strlit("@              ");
            }
            "@              "
        },
        1 => {
            proof {
                reveal_strlit("@@             ");
            }
            "@@             "
        },
        2 => {
            proof {
                reveal_strlit("@.@            ");
            }
            "@.@            "
        },
        3 => {
            proof {
                reveal_strlit("@..@           ");
            }
            "@..@           "
        },
        4 => {
            proof {
                reveal_strlit("@...@          ");
            }
            "@...@          "
        },
        5 => {
            proof {
                reveal_strlit("@....@         ");
            }
            "@....@         "
        },
        6 => {
            proof {
                reveal_strlit("@.....@        ");
            }
            "@.....@        "
        },
        7 => {
            proof {
                reveal_strlit("@......@       ");
            }
            "@......@       "
        },
        8 => {
            proof {
                reveal_strlit("@.......@      ");
            }
            "@.......@      "
        },
        9 => {
            proof {
                reveal_strlit("@........@     ");
            }
            "@........@     "
        },
        10 => {
            proof {
                reveal_strlit("@.........@    ");
            }
            "@.........@    "
        },
        11 => {
            proof {
                reveal_strlit("@..........@   ");
            }
            "@..........@   "
        },
        12 => {
            proof {
                reveal_strlit("@...........@  ");
            }
            "@...........@  "
        },
        13 => {
            proof {
                reveal_strlit("@............@ ");
            }
            "@............@ "
        },
        14 => {
            proof {
                reveal_strlit("@.......@@@@@@@");
            }
            "@.......@@@@@@@"
        },
        15 => {
            proof {
                reveal_strlit("@.......@      ");
            }
            "@.......@      "
        },
        16 => {
            proof {
                reveal_strlit("@....@@.@      ");
            }
            "@....@@.@      "
        },
        17 => {
            proof {
                reveal_strlit("@...@  @.@     ");
            }
            "@...@  @.@     "
        },
        18 => {
            proof {
                reveal_strlit("@..@   @.@     ");
            }
            "@..@   @.@     "
        },
        19 => {
            proof {
                reveal_strlit("@.@     @.@    ");
            }
            "@.@     @.@    "
        },
        20 => {
            proof {
                reveal_strlit("@@      @.@    ");
            }
            "@@      @.@    "
        },
        21 => {
            proof {
                reveal_strlit("@        @.@   ");
            }
            "@        @.@   "
        },
        22 => {
            proof {
                reveal_strlit("          @.@  ");
            }
            "          @.@  "
        },
        _ => {
            proof {
                reveal_strlit("          @@@  ");
            }
            "          @@@  "
        },
    }
}

/// The colour of a pixel of the cursor that the shape marks with `mark`,
/// for a cursor whose border has the colour `border` and whose inside has
/// the colour `inside`; `None` for a pixel that does not belong to it.
pub open spec fn cell_color(mark: char, border: PixelColor, inside: PixelColor) -> Option<PixelColor> {
    if mark == '@' {
        Some(border)
    } else if mark == '.' {
        Some(inside)
    } else {
        None
    }
}

/// The pixels of a cursor with the given colours.
pub open spec fn cursor_pixels(border: PixelColor, inside: PixelColor) -> Pixels {
    Seq::new(
        CURSOR_HEIGHT as nat,
        |dy: int|
            Seq::new(
                CURSOR_WIDTH as nat,
                |dx: int| cell_color(pointer_shape()[dy][dx], border, inside),
            ),
    )
}

/// The screen with the cursor drawn at column `x` of row `y`: its border
/// black, its inside white.
pub open spec fn with_cursor(screen: Screen, x: int, y: int) -> Screen {
    overlay(screen, cursor_pixels(PixelColor(0, 0, 0), PixelColor(255, 255, 255)), x, y)
}

/// The screen with the cursor at column `x` of row `y` painted over in
/// `color`.
pub open spec fn without_cursor(screen: Screen, x: int, y: int, color: PixelColor) -> Screen {
    overlay(screen, cursor_pixels(color, color), x, y)
}

/// Draws the cursor's shape at `pos` in the given colours.
fn stamp(graphics: &mut Graphics, pos: &Vector2D<usize>, border: &PixelColor, inside: &PixelColor)
    ensures
        final(graphics)@ == overlay(
            old(graphics)@,
            cursor_pixels(*border, *inside),
            pos.x as int,
            pos.y as int,
        ),
        final(graphics).width() == old(graphics).width(),
        final(graphics).height() == old(graphics).height(),
        final(graphics).font() == old(graphics).font(),
{
    let ghost pixels = cursor_pixels(*border, *inside);
    let ghost left = pos.x as int;
    let ghost top = pos.y as int;
    let _ = graphics.size();
    let mut dy: usize = 0;
    assert(graphics@ =~~= overlay_where(old(graphics)@, pixels, left, top, |a: int, b: int| b < 0));
    while dy < CURSOR_HEIGHT
        invariant
            dy <= CURSOR_HEIGHT,
            pixels == cursor_pixels(*border, *inside),
            left == pos.x,
            top == pos.y,
            graphics.width() == old(graphics).width(),
            graphics.height() == old(graphics).height(),
            graphics.font() == old(graphics).font(),
            has_size(graphics@, graphics.width(), graphics.height()),
            graphics.width() <= usize::MAX,
            graphics.height() <= usize::MAX,
            graphics@ == overlay_where(old(graphics)@, pixels, left, top, |a: int, b: int| b < dy),
        decreases CURSOR_HEIGHT - dy,
    {
        let row = pointer_row(dy);
        let mut dx: usize = 0;
        assert(graphics@ =~~= overlay_where(
            old(graphics)@,
            pixels,
            left,
            top,
            |a: int, b: int| b < dy || (b == dy && a < 0),
        ));
        while dx < CURSOR_WIDTH
            invariant
                dx <= CURSOR_WIDTH,
                dy < CURSOR_HEIGHT,
                row@ == pointer_shape()[dy as int],
                row@.len() == CURSOR_WIDTH,
                pixels == cursor_pixels(*border, *inside),
                left == pos.x,
                top == pos.y,
                graphics.width() == old(graphics).width(),
                graphics.height() == old(graphics).height(),
                graphics.font() == old(graphics).font(),
                has_size(graphics@, graphics.width(), graphics.height()),
                graphics.width() <= usize::MAX,
                graphics.height() <= usize::MAX,
                graphics@ == overlay_where(
                    old(graphics)@,
                    pixels,
                    left,
                    top,
                    |a: int, b: int| b < dy || (b == dy && a < dx),
                ),
            decreases CURSOR_WIDTH - dx,
        {
            let c = row.get_char(dx);
            let color = if c == '@' {
                Some(*border)
            } else if c == '.' {
                Some(*inside)
            } else {
                None
            };
            assert(color == pixels[dy as int][dx as int]);
            match color {
                Some(color) => {
                    match (pos.x.checked_add(dx), pos.y.checked_add(dy)) {
                        (Some(px), Some(py)) => graphics.write_pixel(px, py, &color),
                        _ => {},
                    }
                },
                None => {},
            }
            assert(graphics@ =~~= overlay_where(
                old(graphics)@,
                pixels,
                left,
                top,
                |a: int, b: int| b < dy || (b == dy && a < dx + 1),
            ));
            dx = dx + 1;
        }
        assert(graphics@ =~~= overlay_where(
            old(graphics)@,
            pixels,
            left,
            top,
            |a: int, b: int| b < dy + 1,
        ));
        dy = dy + 1;
    }
    assert(graphics@ =~~= overlay(old(graphics)@, pixels, left, top));
}

/// Draws the cursor with its top left corner at `pos`.
pub fn draw_cursor(graphics: &mut Graphics, pos: &Vector2D<usize>)
    ensures
        final(graphics)@ == with_cursor(old(graphics)@, pos.x as int, pos.y as int),
        final(graphics).width() == old(graphics).width(),
        final(graphics).height() == old(graphics).height(),
        final(graphics).font() == old(graphics).font(),
{
    stamp(graphics, pos, &PixelColor(0, 0, 0), &PixelColor(255, 255, 255));
}

/// Paints the cursor at `pos` over in `color`.
pub fn erase_cursor(graphics: &mut Graphics, pos: &Vector2D<usize>, color: &PixelColor)
    ensures
        final(graphics)@ == without_cursor(old(graphics)@, pos.x as int, pos.y as int, *color),
        final(graphics).width() == old(graphics).width(),
        final(graphics).height() == old(graphics).height(),
        final(graphics).font() == old(graphics).font(),
{
    stamp(graphics, pos, color, color);
}

/// The position that the displacement of the mouse moves a cursor at `pos`
/// to. A coordinate that leaves the range of positions at one end comes
/// back in at the other.
pub fn displaced(pos: &Vector2D<usize>, displacement_x: i8, displacement_y: i8) -> (moved: Vector2D<
    usize,
>)
    ensures
        moved.x == pos.x.wrapping_add_signed(displacement_x as isize),
        moved.y == pos.y.wrapping_add_signed(displacement_y as isize),
{
    Vector2D {
        x: pos.x.wrapping_add_signed(displacement_x as isize),
        y: pos.y.wrapping_add_signed(displacement_y as isize),
    }
}

/// The mouse cursor on a screen.
pub struct MouseCursor {
    graphics: Graphics,
    pos: Vector2D<usize>,
    erase_color: PixelColor,
}

impl MouseCursor {
    /// The screen.
    pub closed spec fn screen(&self) -> Screen {
        self.graphics@
    }

    /// Column of the cursor's top left corner.
    pub closed spec fn x(&self) -> usize {
        self.pos.x
    }

    /// Row of the cursor's top left corner.
    pub closed spec fn y(&self) -> usize {
        self.pos.y
    }

    /// The colour that the cursor is painted over with when it leaves a
    /// place.
    pub closed spec fn erase_color(&self) -> PixelColor {
        self.erase_color
    }

    /// A cursor at `initial_pos`, drawn onto the screen of `graphics`.
    pub fn new(graphics: Graphics, initial_pos: &Vector2D<usize>, erase_color: &PixelColor) -> (cursor:
        MouseCursor)
        ensures
            cursor.x() == initial_pos.x,
            cursor.y() == initial_pos.y,
            cursor.erase_color() == *erase_color,
            cursor.screen() == with_cursor(graphics@, initial_pos.x as int, initial_pos.y as int),
    {
        let mut cursor = MouseCursor { graphics, pos: *initial_pos, erase_color: *erase_color };
        cursor.draw_mouse_cursor();
        cursor
    }

    /// What is drawn with.
    pub fn graphics(&self) -> (graphics: &Graphics)
        ensures
            graphics@ == self.screen(),
    {
        &self.graphics
    }

    /// The position of the cursor's top left corner.
    pub fn position(&self) -> (pos: Vector2D<usize>)
        ensures
            pos.x == self.x(),
            pos.y == self.y(),
    {
        self.pos
    }

    /// Moves the cursor by `displacement`: paints it over where it is, and
    /// draws it at the new position. A coordinate that leaves the range of
    /// positions at one end comes back in at the other, where the cursor is
    /// off the screen.
    pub fn move_relative(&mut self, displacement: &Vector2D<isize>)
        ensures
            final(self).x() == old(self).x().wrapping_add_signed(displacement.x),
            final(self).y() == old(self).y().wrapping_add_signed(displacement.y),
            final(self).erase_color() == old(self).erase_color(),
            final(self).screen() == with_cursor(
                without_cursor(
                    old(self).screen(),
                    old(self).x() as int,
                    old(self).y() as int,
                    old(self).erase_color(),
                ),
                final(self).x() as int,
                final(self).y() as int,
            ),
    {
        self.erase_mouse_cursor();
        let x = self.pos.x.wrapping_add_signed(displacement.x);
        let y = self.pos.y.wrapping_add_signed(displacement.y);
        self.pos = Vector2D::<usize> { x, y };
        self.draw_mouse_cursor();
    }

    /// Draws the cursor at its position.
    pub fn draw_mouse_cursor(&mut self)
        ensures
            final(self).x() == old(self).x(),
            final(self).y() == old(self).y(),
            final(self).erase_color() == old(self).erase_color(),
            final(self).screen() == with_cursor(
                old(self).screen(),
                old(self).x() as int,
                old(self).y() as int,
            ),
    {
        let pos = self.pos;
        draw_cursor(&mut self.graphics, &pos);
    }

    /// Paints the cursor over at its position.
    pub fn erase_mouse_cursor(&mut self)
        ensures
            final(self).x() == old(self).x(),
            final(self).y() == old(self).y(),
            final(self).erase_color() == old(self).erase_color(),
            final(self).screen() == without_cursor(
                old(self).screen(),
                old(self).x() as int,
                old(self).y() as int,
                old(self).erase_color(),
            ),
    {
        let pos = self.pos;
        let color = self.erase_color;
        erase_cursor(&mut self.graphics, &pos, &color);
    }
}

/// Draws mouse pointers onto a screen.
pub struct MousePointer {
    graphics: Graphics,
}

impl MousePointer {
    /// The screen.
    pub closed spec fn screen(&self) -> Screen {
        self.graphics@
    }

    /// A pointer drawer for the screen of `graphics`.
    pub fn new(graphics: Graphics) -> (pointer: MousePointer)
        ensures
            pointer.screen() == graphics@,
    {
        MousePointer { graphics }
    }

    /// What is drawn with.
    pub fn graphics(&self) -> (graphics: &Graphics)
        ensures
            graphics@ == self.screen(),
    {
        &self.graphics
    }

    /// Draws a pointer with its top left corner at `pos`.
    pub fn write(&mut self, pos: &Vector2D<usize>)
        ensures
            final(self).screen() == with_cursor(old(self).screen(), pos.x as int, pos.y as int),
    {
        draw_cursor(&mut self.graphics, pos);
    }
}

} // verus!
