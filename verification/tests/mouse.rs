use mikanos_kernel::fonts::Font;
use mikanos_kernel::graphics::{FrameBuffer, Graphics, PixelColor, PixelFormat, Vector2D};
use mikanos_kernel::mouse::{pointer_row, MouseCursor, MousePointer};

const BACKGROUND: PixelColor = PixelColor(45, 118, 237);
const BLACK: PixelColor = PixelColor(0, 0, 0);
const WHITE: PixelColor = PixelColor(255, 255, 255);

fn screen() -> Graphics {
    let fb = FrameBuffer::new(64, 60, 48, PixelFormat::Bgr).unwrap();
    let mut graphics = Graphics::new(fb, Font::new([[0u8; 16]; 128]));
    graphics.fill_rectangle(&Vector2D { x: 0, y: 0 }, &Vector2D { x: 60, y: 48 }, &BACKGROUND);
    graphics
}

fn pixel(graphics: &Graphics, x: usize, y: usize) -> PixelColor {
    let fb = graphics.frame_buffer();
    let base = 4 * (y * fb.pixels_per_scan_line() as usize + x);
    let bytes = fb.frame_buffer();
    PixelColor(bytes[base + 2], bytes[base + 1], bytes[base])
}

fn count(graphics: &Graphics, color: PixelColor) -> usize {
    let mut n = 0;
    for y in 0..48 {
        for x in 0..60 {
            if pixel(graphics, x, y) == color {
                n += 1;
            }
        }
    }
    n
}

fn shape_count(mark: char) -> usize {
    (0..24).map(|dy| pointer_row(dy).chars().filter(|c| *c == mark).count()).sum()
}

#[test]
fn pointer_shape_is_an_arrow() {
    assert_eq!(pointer_row(0), "@              ");
    assert_eq!(pointer_row(14), "@.......@@@@@@@");
    assert_eq!(pointer_row(23), "          @@@  ");
    assert!((0..24).all(|dy| pointer_row(dy).len() == 15));
}

#[test]
fn new_cursor_is_drawn_at_its_position() {
    let cursor = MouseCursor::new(screen(), &Vector2D { x: 10, y: 5 }, &BACKGROUND);
    let graphics = cursor.graphics();
    assert_eq!(cursor.position().x, 10);
    assert_eq!(cursor.position().y, 5);
    assert_eq!(pixel(graphics, 10, 5), BLACK);
    assert_eq!(pixel(graphics, 11, 5), BACKGROUND);
    assert_eq!(pixel(graphics, 11, 7), WHITE);
    assert_eq!(pixel(graphics, 24, 19), BLACK);
    assert_eq!(count(graphics, BLACK), shape_count('@'));
    assert_eq!(count(graphics, WHITE), shape_count('.'));
}

#[test]
fn moving_the_cursor_erases_and_redraws_it() {
    let mut cursor = MouseCursor::new(screen(), &Vector2D { x: 10, y: 5 }, &BACKGROUND);
    cursor.move_relative(&Vector2D { x: 20, y: -3 });
    assert_eq!((cursor.position().x, cursor.position().y), (30, 2));
    let graphics = cursor.graphics();
    assert_eq!(pixel(graphics, 10, 5), BACKGROUND);
    assert_eq!(pixel(graphics, 30, 2), BLACK);
    assert_eq!(count(graphics, BLACK), shape_count('@'));
    assert_eq!(count(graphics, WHITE), shape_count('.'));
}

#[test]
fn cursor_that_leaves_the_screen_is_not_drawn() {
    let mut cursor = MouseCursor::new(screen(), &Vector2D { x: 3, y: 3 }, &BACKGROUND);
    cursor.move_relative(&Vector2D { x: -4, y: 0 });
    assert_eq!(cursor.position().x, usize::MAX);
    assert_eq!(count(cursor.graphics(), BACKGROUND), 60 * 48);
    cursor.move_relative(&Vector2D { x: 4, y: 40 });
    assert_eq!((cursor.position().x, cursor.position().y), (3, 43));
    assert_eq!(pixel(cursor.graphics(), 3, 43), BLACK);
    assert_eq!(pixel(cursor.graphics(), 3, 47), BLACK);
    cursor.erase_mouse_cursor();
    assert_eq!(count(cursor.graphics(), BACKGROUND), 60 * 48);
    cursor.draw_mouse_cursor();
    assert_eq!(pixel(cursor.graphics(), 4, 44), BLACK);
}

#[test]
fn mouse_pointer_is_drawn_where_asked() {
    let mut pointer = MousePointer::new(screen());
    pointer.write(&Vector2D { x: 0, y: 0 });
    pointer.write(&Vector2D { x: 40, y: 20 });
    assert_eq!(pixel(pointer.graphics(), 0, 0), BLACK);
    assert_eq!(pixel(pointer.graphics(), 40, 20), BLACK);
    assert_eq!(pixel(pointer.graphics(), 41, 22), WHITE);
    assert_eq!(count(pointer.graphics(), BLACK), 2 * shape_count('@'));
}
