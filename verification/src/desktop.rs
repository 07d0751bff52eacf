//! The desktop that the kernel shows after boot: a background, a task bar
//! along the bottom, and a start button on it.

use vstd::prelude::*;
use crate::canvas::{outline, paint, rectangle};
use crate::graphics::{Graphics, PixelColor, Screen, Vector2D};

verus! {

/// Height of the task bar in pixels.
pub const TASK_BAR_HEIGHT: usize = 50;

/// Colour of the desktop's background.
pub open spec fn background_color() -> PixelColor {
    PixelColor(45, 118, 237)
}

/// The screen with the desktop drawn onto it, for a screen of the given
/// size: the background above the task bar; the task bar, dark, over the
/// whole width; its left fifth in grey; and on that the outline of the
/// start button.
pub open spec fn with_desktop(screen: Screen, width: int, height: int) -> Screen {
    let background = paint(
        screen,
        rectangle(0, 0, width, height - TASK_BAR_HEIGHT),
        background_color(),
    );
    let bar = paint(
        background,
        rectangle(0, height - TASK_BAR_HEIGHT, width, TASK_BAR_HEIGHT as int),
        PixelColor(1, 8, 17),
    );
    let corner = paint(
        bar,
        rectangle(0, height - TASK_BAR_HEIGHT, width / 5, TASK_BAR_HEIGHT as int),
        PixelColor(80, 80, 80),
    );
    paint(corner, outline(10, height - 40, 30, 30), PixelColor(160, 160, 160))
}

/// Draws the desktop.
pub fn draw_desktop(graphics: &mut Graphics)
    requires
        old(graphics).height() >= TASK_BAR_HEIGHT,
    ensures
        final(graphics)@ == with_desktop(
            old(graphics)@,
            old(graphics).width(),
            old(graphics).height(),
        ),
        final(graphics).width() == old(graphics).width(),
        final(graphics).height() == old(graphics).height(),
        final(graphics).font() == old(graphics).font(),
{
    let size = graphics.size();
    graphics.fill_rectangle(
        &Vector2D { x: 0, y: 0 },
        &Vector2D { x: size.x, y: size.y - TASK_BAR_HEIGHT },
        &PixelColor(45, 118, 237),
    );
    graphics.fill_rectangle(
        &Vector2D { x: 0, y: size.y - TASK_BAR_HEIGHT },
        &Vector2D { x: size.x, y: TASK_BAR_HEIGHT },
        &PixelColor(1, 8, 17),
    );
    graphics.fill_rectangle(
        &Vector2D { x: 0, y: size.y - TASK_BAR_HEIGHT },
        &Vector2D { x: size.x / 5, y: TASK_BAR_HEIGHT },
        &PixelColor(80, 80, 80),
    );
    graphics.draw_rectangle(
        &Vector2D { x: 10, y: size.y - 40 },
        &Vector2D { x: 30, y: 30 },
        &PixelColor(160, 160, 160),
    );
}

} // verus!
