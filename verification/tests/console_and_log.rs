use mikanos_kernel::console::{Console, COLUMNS, ROWS};
use mikanos_kernel::fonts::Font;
use mikanos_kernel::graphics::{FrameBuffer, Graphics, PixelColor, PixelFormat};
use mikanos_kernel::logger::{set_level, Level, Logger, _log};

const FG: PixelColor = PixelColor(255, 255, 255);
const BG: PixelColor = PixelColor(45, 118, 237);

/// Every letter is one pixel at the top left of its cell; all else is blank.
fn dot_font() -> Font {
    let mut glyphs = [[0u8; 16]; 128];
    for c in b'!'..=b'~' {
        glyphs[c as usize][0] = 0x80;
    }
    Font::new(glyphs)
}

fn console() -> Console {
    let fb = FrameBuffer::new(8 * 80, 8 * 80, 16 * 30, PixelFormat::Rgb).unwrap();
    Console::new(Graphics::new(fb, dot_font()), &FG, &BG)
}

fn lit(console: &Console, column: usize, row: usize) -> bool {
    let fb = console.graphics().frame_buffer();
    let base = 4 * (16 * row * fb.pixels_per_scan_line() as usize + 8 * column);
    let bytes = fb.frame_buffer();
    PixelColor(bytes[base], bytes[base + 1], bytes[base + 2]) == FG
}

fn line(console: &Console, row: usize) -> String {
    console.text().line(row).iter().take_while(|c| **c != '\0').collect()
}

#[test]
fn console_has_30_rows_of_80_columns() {
    assert_eq!((ROWS, COLUMNS), (30, 80));
    let console = console();
    assert_eq!((console.text().row(), console.text().column()), (0, 0));
    assert_eq!(line(&console, 0), "");
}

#[test]
fn put_string_writes_at_the_cursor() {
    let mut console = console();
    console.put_string("ab");
    console.put_string("c\nde\n\nf");
    assert_eq!(line(&console, 0), "abc");
    assert_eq!(line(&console, 1), "de");
    assert_eq!(line(&console, 2), "");
    assert_eq!(line(&console, 3), "f");
    assert_eq!((console.text().row(), console.text().column()), (3, 1));
    assert!(lit(&console, 0, 0) && lit(&console, 2, 0) && !lit(&console, 3, 0));
    assert!(lit(&console, 1, 1) && !lit(&console, 0, 2) && lit(&console, 0, 3));
}

#[test]
fn full_row_wraps_to_the_next() {
    let mut console = console();
    let long: String = std::iter::repeat('x').take(81).collect();
    console.put_string(&long);
    assert_eq!(line(&console, 0).len(), 80);
    assert_eq!(line(&console, 1), "x");
    assert_eq!((console.text().row(), console.text().column()), (1, 1));
    assert!(lit(&console, 79, 0) && lit(&console, 0, 1) && !lit(&console, 1, 1));
}

#[test]
fn last_row_scrolls_the_text_up() {
    let mut console = console();
    for i in 0..30 {
        console.put_string(&format!("{}", (b'a' + (i % 26) as u8) as char));
        if i < 29 {
            console.put_string("\n");
        }
    }
    assert_eq!(line(&console, 0), "a");
    assert_eq!(line(&console, 29), "d");
    assert_eq!((console.text().row(), console.text().column()), (29, 1));
    console.put_string("\nzz");
    assert_eq!(line(&console, 0), "b");
    assert_eq!(line(&console, 28), "d");
    assert_eq!(line(&console, 29), "zz");
    assert_eq!((console.text().row(), console.text().column()), (29, 2));
    // Rows 0 to 28 were drawn again on the cleared background; the last row
    // holds what was written after the scroll.
    assert!(lit(&console, 0, 0) && !lit(&console, 1, 0));
    assert!(lit(&console, 0, 28) && lit(&console, 0, 29) && lit(&console, 1, 29));
    assert!(!lit(&console, 2, 29));
    let fb = console.graphics().frame_buffer();
    let bytes = fb.frame_buffer();
    let base = 4 * (5 * fb.pixels_per_scan_line() as usize + 3);
    assert_eq!(PixelColor(bytes[base], bytes[base + 1], bytes[base + 2]), BG);
}

#[test]
fn levels_are_ordered_from_error_to_trace() {
    let levels = [Level::Error, Level::Warn, Level::Info, Level::Debug, Level::Trace];
    let ranks: Vec<u8> = levels.iter().map(|l| l.rank()).collect();
    assert_eq!(ranks, vec![0, 1, 2, 3, 4]);
    let names: Vec<&str> = levels.iter().map(|l| l.as_str()).collect();
    assert_eq!(names, vec!["ERROR", "WARN", "INFO", "DEBUG", "TRACE"]);
    assert!(Level::Error < Level::Trace);
}

#[test]
fn logger_shows_lines_up_to_its_level() {
    let mut logger = Logger::new();
    assert_eq!(logger.get_level(), Level::Info);
    assert!(logger.enabled(Level::Error) && logger.enabled(Level::Info));
    assert!(!logger.enabled(Level::Debug));
    set_level(&mut logger, Level::Error);
    assert!(logger.enabled(Level::Error) && !logger.enabled(Level::Warn));
    set_level(&mut logger, Level::Trace);
    assert!(logger.enabled(Level::Trace));
}

#[test]
fn log_lines_carry_their_level() {
    let mut console = console();
    let mut logger = Logger::new();
    _log(&logger, &mut console, Level::Info, "Load PCI devices\n");
    _log(&logger, &mut console, Level::Debug, "hidden\n");
    _log(&logger, &mut console, Level::Error, "bad");
    assert_eq!(line(&console, 0), "[INFO] Load PCI devices");
    assert_eq!(line(&console, 1), "[ERROR] bad");
    set_level(&mut logger, Level::Debug);
    _log(&logger, &mut console, Level::Debug, "!\n");
    assert_eq!(line(&console, 1), "[ERROR] bad[DEBUG] !");
}
