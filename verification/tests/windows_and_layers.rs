use mikanos_kernel::fonts::Font;
use mikanos_kernel::graphics::{FrameBuffer, Graphics, PixelColor, PixelFormat, Vector2D};
use mikanos_kernel::layer::{Layer, LayerId, LayerManager};
use mikanos_kernel::window::Window;
use std::sync::Arc;

const RED: PixelColor = PixelColor(255, 0, 0);
const GREEN: PixelColor = PixelColor(0, 255, 0);
const BLACK: PixelColor = PixelColor(0, 0, 0);

fn test_font() -> Font {
    let mut glyphs = [[0u8; 16]; 128];
    glyphs['A' as usize][0] = 0b1000_0001;
    glyphs['B' as usize] = [0xff; 16];
    Font::new(glyphs)
}

fn screen(width: u32, height: u32) -> Graphics {
    Graphics::new(FrameBuffer::new(width, width, height, PixelFormat::Rgb).unwrap(), test_font())
}

fn pixel(graphics: &Graphics, x: usize, y: usize) -> PixelColor {
    let fb = graphics.frame_buffer();
    let base = 4 * (y * fb.pixels_per_scan_line() as usize + x);
    let bytes = fb.frame_buffer();
    PixelColor(bytes[base], bytes[base + 1], bytes[base + 2])
}

fn colored(graphics: &Graphics, color: PixelColor) -> Vec<(usize, usize)> {
    let size = graphics.size();
    let mut found = Vec::new();
    for y in 0..size.y {
        for x in 0..size.x {
            if pixel(graphics, x, y) == color {
                found.push((x, y));
            }
        }
    }
    found
}

fn set(window: &Window) -> Vec<(usize, usize, PixelColor)> {
    let mut found = Vec::new();
    for y in 0..window.height() {
        for x in 0..window.width() {
            if let Some(color) = window.get(x, y) {
                found.push((x, y, color));
            }
        }
    }
    found
}

#[test]
fn new_window_is_transparent() {
    let window = Window::new(5, 3, test_font());
    assert_eq!(window.width(), 5);
    assert_eq!(window.height(), 3);
    assert_eq!(set(&window), vec![]);
    assert_eq!(window.get(5, 0), None);
    assert_eq!(window.get(0, 3), None);
    let empty = Window::new(0, 0, test_font());
    assert_eq!(empty.get(0, 0), None);
}

#[test]
fn window_write_sets_one_pixel_inside_only() {
    let mut window = Window::new(5, 3, test_font());
    window.write(4, 2, Some(RED));
    window.write(5, 2, Some(RED));
    window.write(4, 3, Some(RED));
    window.write(0, 1, Some(GREEN));
    assert_eq!(set(&window), vec![(0, 1, GREEN), (4, 2, RED)]);
    window.write(4, 2, None);
    assert_eq!(set(&window), vec![(0, 1, GREEN)]);
}

#[test]
fn window_drawing_matches_screen_drawing() {
    let mut window = Window::new(30, 20, test_font());
    window.fill_rectangle(Vector2D { x: 1, y: 1 }, Vector2D { x: 2, y: 2 }, Some(GREEN));
    window.draw_rectangle(Vector2D { x: 5, y: 1 }, Vector2D { x: 2, y: 2 }, RED);
    window.write_ascii(10, 2, 'A', RED);
    window.write_string(12, 4, "AA", GREEN);
    let mut expected = vec![
        (1, 1, GREEN), (2, 1, GREEN), (5, 1, RED), (6, 1, RED), (7, 1, RED),
        (1, 2, GREEN), (2, 2, GREEN), (5, 2, RED), (7, 2, RED), (10, 2, RED), (17, 2, RED),
        (5, 3, RED), (6, 3, RED),
        (12, 4, GREEN), (19, 4, GREEN), (20, 4, GREEN), (27, 4, GREEN),
    ];
    expected.sort_by_key(|(x, y, _)| (*y, *x));
    assert_eq!(set(&window), expected);
    window.fill_rectangle(Vector2D { x: 0, y: 0 }, Vector2D { x: 30, y: 20 }, None);
    assert_eq!(set(&window), vec![]);
}

#[test]
fn draw_to_overlays_window_at_position() {
    let mut window = Window::new(3, 2, test_font());
    window.write(0, 0, Some(RED));
    window.write(2, 1, Some(GREEN));
    let mut graphics = screen(6, 5);
    graphics.fill_rectangle(&Vector2D { x: 0, y: 0 }, &Vector2D { x: 6, y: 5 }, &PixelColor(9, 9, 9));
    window.draw_to(&mut graphics, &Vector2D { x: 2, y: 3 });
    assert_eq!(colored(&graphics, RED), vec![(2, 3)]);
    assert_eq!(colored(&graphics, GREEN), vec![(4, 4)]);
    assert_eq!(colored(&graphics, PixelColor(9, 9, 9)).len(), 28);
    // Partly off the screen at the top left and at the bottom right.
    let mut graphics = screen(6, 5);
    window.draw_to(&mut graphics, &Vector2D { x: -1, y: -1 });
    assert_eq!(colored(&graphics, RED), vec![]);
    assert_eq!(colored(&graphics, GREEN), vec![(1, 0)]);
    window.draw_to(&mut graphics, &Vector2D { x: 5, y: 4 });
    assert_eq!(colored(&graphics, RED), vec![(5, 4)]);
    assert_eq!(colored(&graphics, GREEN), vec![(1, 0)]);
    window.draw_to(&mut graphics, &Vector2D { x: isize::MAX, y: isize::MIN });
    assert_eq!(colored(&graphics, BLACK).len(), 28);
}

#[test]
fn layer_holds_window_and_position() {
    let mut layer = Layer::new(LayerId::new(7));
    assert_eq!(layer.id(), LayerId::new(7));
    assert_eq!(layer.id().get(), 7);
    assert!(layer.window().is_none());
    let mut graphics = screen(6, 5);
    layer.draw(&mut graphics);
    assert_eq!(colored(&graphics, BLACK).len(), 30);
    let mut window = Window::new(2, 2, test_font());
    window.fill_rectangle(Vector2D { x: 0, y: 0 }, Vector2D { x: 2, y: 2 }, Some(RED));
    layer.set_window(Arc::new(window));
    assert_eq!(layer.window().unwrap().width(), 2);
    layer.draw(&mut graphics);
    assert_eq!(colored(&graphics, RED), vec![(0, 0), (1, 0), (0, 1), (1, 1)]);
    let mut graphics = screen(6, 5);
    layer.move_to(&Vector2D { x: 3, y: 1 });
    layer.move_relative(&Vector2D { x: -1, y: 2 });
    layer.draw(&mut graphics);
    assert_eq!(colored(&graphics, RED), vec![(2, 3), (3, 3), (2, 4), (3, 4)]);
}

fn filled_layer(id: usize, color: PixelColor, x: isize, y: isize) -> Layer {
    let mut window = Window::new(3, 3, test_font());
    window.fill_rectangle(Vector2D { x: 0, y: 0 }, Vector2D { x: 3, y: 3 }, Some(color));
    let mut layer = Layer::new(LayerId::new(id));
    layer.set_window(Arc::new(window));
    layer.move_to(&Vector2D { x, y });
    layer
}

#[test]
fn layers_are_drawn_from_the_bottom_up() {
    let mut manager = LayerManager::new(screen(8, 8));
    manager.register(filled_layer(1, RED, 0, 0));
    manager.register(filled_layer(2, GREEN, 2, 2));
    // Registered layers are not drawn before they have a position.
    manager.draw();
    assert_eq!(colored(manager.graphics(), BLACK).len(), 64);
    manager.set_position(LayerId::new(1), 0);
    manager.set_position(LayerId::new(2), 1);
    manager.set_position(LayerId::new(3), 0);
    manager.draw();
    assert_eq!(colored(manager.graphics(), GREEN).len(), 9);
    assert_eq!(colored(manager.graphics(), RED).len(), 8);
    // Red on top.
    manager.set_position(LayerId::new(1), 100);
    manager.draw();
    assert_eq!(colored(manager.graphics(), RED).len(), 9);
    assert_eq!(colored(manager.graphics(), GREEN).len(), 8);
    // Moving the green layer leaves its old picture until the screen is redrawn.
    manager.move_relative(LayerId::new(2), &Vector2D { x: 3, y: 3 });
    manager.move_relative(LayerId::new(9), &Vector2D { x: 3, y: 3 });
    manager.set_position(LayerId::new(2), 5);
    manager.draw();
    assert_eq!(colored(manager.graphics(), GREEN).len(), 8 + 9);
    assert_eq!(pixel(manager.graphics(), 7, 7), GREEN);
    assert_eq!(pixel(manager.graphics(), 2, 2), RED);
}
