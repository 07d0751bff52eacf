//! The text console: rows of characters drawn onto the screen, which
//! scroll up when the last row is full.

use vstd::prelude::*;
use crate::fonts::Font;
use crate::canvas::{glyph_pixels, paint, rectangle, text_pixels};
use crate::graphics::{chars_of, Graphics, PixelColor, Screen, Vector2D};

verus! {

/// Number of rows of text.
pub const ROWS: usize = 30;

/// Number of characters in a row.
pub const COLUMNS: usize = 80;

/// Number of characters kept for a row: one more than are shown.
pub const ROW_LENGTH: usize = 81;

/// What the console shows and where the next character goes.
pub struct ConsoleState {
    /// The screen.
    pub screen: Screen,
    /// The characters of each row.
    pub buffer: Seq<Seq<char>>,
    /// The row of the cursor.
    pub row: int,
    /// The column of the cursor.
    pub column: int,
}

/// A row without characters.
pub open spec fn blank_row() -> Seq<char> {
    Seq::new(ROW_LENGTH as nat, |i: int| 0 as char)
}

/// The rows after the text has moved up by one row: the first row is
/// gone, and the last row is blank.
pub open spec fn scrolled(buffer: Seq<Seq<char>>) -> Seq<Seq<char>> {
    Seq::new(
        ROWS as nat,
        |r: int|
            if r < ROWS - 1 {
                buffer[r + 1]
            } else {
                blank_row()
            },
    )
}

/// The screen with the first `rows` rows of `buffer` drawn onto it in the
/// colour `fg`.
pub open spec fn redrawn(screen: Screen, font: Font, buffer: Seq<Seq<char>>, rows: int, fg: PixelColor) -> Screen
    decreases rows,
{
    if rows <= 0 {
        screen
    } else {
        paint(
            redrawn(screen, font, buffer, rows - 1, fg),
            text_pixels(font, 0, 16 * (rows - 1), buffer[rows - 1].take(COLUMNS as int)),
            fg,
        )
    }
}

/// The console after the cursor has gone to the start of the next row.
/// From the last row there is no next one: the text moves up by one row,
/// for which the console's part of the screen is cleared and all rows but
/// the last are drawn again.
pub open spec fn after_new_line(state: ConsoleState, font: Font, fg: PixelColor, bg: PixelColor) -> ConsoleState {
    if state.row < ROWS - 1 {
        ConsoleState { row: state.row + 1, column: 0, ..state }
    } else {
        let cleared = paint(state.screen, rectangle(0, 0, 8 * COLUMNS, 16 * ROWS), bg);
        let buffer = scrolled(state.buffer);
        ConsoleState {
            screen: redrawn(cleared, font, buffer, ROWS - 1, fg),
            buffer,
            row: state.row,
            column: 0,
        }
    }
}

/// The console after one more character. A line feed starts a new line.
/// Any other character is drawn at the cursor, after a new line if the
/// row is full, and the cursor moves one column to the right.
pub open spec fn after_char(state: ConsoleState, font: Font, fg: PixelColor, bg: PixelColor, c: char) -> ConsoleState {
    if c == '\n' {
        after_new_line(state, font, fg, bg)
    } else {
        let at = if state.column >= COLUMNS {
            after_new_line(state, font, fg, bg)
        } else {
            state
        };
        ConsoleState {
            screen: paint(at.screen, glyph_pixels(font, 8 * at.column, 16 * at.row, c), fg),
            buffer: at.buffer.update(at.row, at.buffer[at.row].update(at.column, c)),
            row: at.row,
            column: at.column + 1,
        }
    }
}

/// The console after the characters of `text`, one after the other.
pub open spec fn after_text(state: ConsoleState, font: Font, fg: PixelColor, bg: PixelColor, text: Seq<char>) -> ConsoleState
    decreases text.len(),
{
    if text.len() == 0 {
        state
    } else {
        after_char(after_text(state, font, fg, bg, text.drop_last()), font, fg, bg, text.last())
    }
}

/// The characters of the console's rows and the place of the cursor.
pub struct TextBuffer {
    rows: [[char; 81]; 30],
    row: usize,
    column: usize,
}

impl TextBuffer {
    #[verifier::type_invariant]
    spec fn inv(&self) -> bool {
        &&& self.row < ROWS
        &&& self.column <= COLUMNS
    }

    /// The characters of each row.
    pub closed spec fn lines(&self) -> Seq<Seq<char>> {
        Seq::new(ROWS as nat, |r: int| self.rows@[r]@)
    }

    /// The row of the cursor.
    pub closed spec fn cursor_row(&self) -> int {
        self.row as int
    }

    /// The column of the cursor.
    pub closed spec fn cursor_column(&self) -> int {
        self.column as int
    }

    /// Blank rows, with the cursor at the top left.
    pub fn new() -> (text: TextBuffer)
        ensures
            text.lines() == Seq::new(ROWS as nat, |r: int| blank_row()),
            text.cursor_row() == 0,
            text.cursor_column() == 0,
    {
        let text = TextBuffer { rows: [['\0'; 81]; 30], row: 0, column: 0 };
        assert(text.lines() =~~= Seq::new(ROWS as nat, |r: int| blank_row()));
        text
    }

    /// The row of the cursor.
    pub fn row(&self) -> (row: usize)
        ensures
            row == self.cursor_row(),
            row < ROWS,
    {
        proof {
            use_type_invariant(self);
        }
        self.row
    }

    /// The column of the cursor.
    pub fn column(&self) -> (column: usize)
        ensures
            column == self.cursor_column(),
            column <= COLUMNS,
    {
        proof {
            use_type_invariant(self);
        }
        self.column
    }

    /// The characters of a row.
    pub fn line(&self, row: usize) -> (line: [char; 81])
        requires
            row < ROWS,
        ensures
            line@ == self.lines()[row as int],
    {
        self.rows[row]
    }

    /// Moves the cursor to the start of the next row, or to the start of
    /// its own row if that is the last; says whether there was a next row.
    pub fn line_feed(&mut self) -> (moved: bool)
        ensures
            moved == (old(self).cursor_row() < ROWS - 1),
            final(self).lines() == old(self).lines(),
            final(self).cursor_column() == 0,
            final(self).cursor_row() == (if moved {
                old(self).cursor_row() + 1
            } else {
                old(self).cursor_row()
            }),
    {
        proof {
            use_type_invariant(&*self);
        }
        self.column = 0;
        if self.row < ROWS - 1 {
            self.row = self.row + 1;
            true
        } else {
            false
        }
    }

    /// Moves the text up by one row.
    pub fn scroll(&mut self)
        ensures
            final(self).lines() == scrolled(old(self).lines()),
            final(self).cursor_row() == old(self).cursor_row(),
            final(self).cursor_column() == old(self).cursor_column(),
    {
        proof {
            use_type_invariant(&*self);
        }
        let mut row: usize = 0;
        while row < ROWS - 1
            invariant
                row <= ROWS - 1,
                self.row == old(self).row,
                self.column == old(self).column,
                self.row < ROWS,
                self.column <= COLUMNS,
                forall|r: int| 0 <= r < row ==> #[trigger] self.rows@[r] == old(self).rows@[r + 1],
                forall|r: int| row <= r < ROWS ==> #[trigger] self.rows@[r] == old(self).rows@[r],
            decreases ROWS - 1 - row,
        {
            let line = self.rows[row + 1];
            self.rows[row] = line;
            row = row + 1;
        }
        self.rows[ROWS - 1] = ['\0'; 81];
        assert(self.lines() =~~= scrolled(old(self).lines()));
    }

    /// Puts a character at the cursor and moves the cursor one column to the
    /// right.
    pub fn put(&mut self, c: char)
        requires
            old(self).cursor_column() < COLUMNS,
        ensures
            final(self).lines() == old(self).lines().update(
                old(self).cursor_row(),
                old(self).lines()[old(self).cursor_row()].update(old(self).cursor_column(), c),
            ),
            final(self).cursor_row() == old(self).cursor_row(),
            final(self).cursor_column() == old(self).cursor_column() + 1,
    {
        proof {
            use_type_invariant(&*self);
        }
        let mut line = self.rows[self.row];
        line[self.column] = c;
        self.rows[self.row] = line;
        self.column = self.column + 1;
        assert(self.lines() =~~= old(self).lines().update(
            old(self).cursor_row(),
            old(self).lines()[old(self).cursor_row()].update(old(self).cursor_column(), c),
        ));
    }
}

/// A text console on a screen.
pub struct Console {
    graphics: Graphics,
    text: TextBuffer,
    fg_color: PixelColor,
    bg_color: PixelColor,
}

impl View for Console {
    type V = ConsoleState;

    closed spec fn view(&self) -> ConsoleState {
        ConsoleState {
            screen: self.graphics@,
            buffer: self.text.lines(),
            row: self.text.cursor_row(),
            column: self.text.cursor_column(),
        }
    }
}

impl Console {
    /// The font that the characters are drawn with.
    pub closed spec fn font(&self) -> Font {
        self.graphics.font()
    }

    /// The colour of the characters.
    pub closed spec fn fg(&self) -> PixelColor {
        self.fg_color
    }

    /// The colour of the background.
    pub closed spec fn bg(&self) -> PixelColor {
        self.bg_color
    }

    /// A console without text, with the cursor at the top left, that draws
    /// with `graphics`.
    pub fn new(graphics: Graphics, fg_color: &PixelColor, bg_color: &PixelColor) -> (console: Console)
        ensures
            console@.screen == graphics@,
            console@.buffer == Seq::new(ROWS as nat, |r: int| blank_row()),
            console@.row == 0,
            console@.column == 0,
            console.font() == graphics.font(),
            console.fg() == *fg_color,
            console.bg() == *bg_color,
    {
        Console { graphics, text: TextBuffer::new(), fg_color: *fg_color, bg_color: *bg_color }
    }

    /// What is drawn with.
    pub fn graphics(&self) -> (graphics: &Graphics)
        ensures
            graphics@ == self@.screen,
            graphics.font() == self.font(),
    {
        &self.graphics
    }

    /// What is drawn with, for drawing onto the console's screen.
    pub fn graphics_mut(&mut self) -> (graphics: &mut Graphics)
        ensures
            graphics@ == old(self)@.screen,
            graphics.font() == old(self).font(),
            final(self)@.screen == final(graphics)@,
            final(self).font() == final(graphics).font(),
            final(self)@.buffer == old(self)@.buffer,
            final(self)@.row == old(self)@.row,
            final(self)@.column == old(self)@.column,
            final(self).fg() == old(self).fg(),
            final(self).bg() == old(self).bg(),
    {
        &mut self.graphics
    }

    /// The characters and the cursor.
    pub fn text(&self) -> (text: &TextBuffer)
        ensures
            text.lines() == self@.buffer,
            text.cursor_row() == self@.row,
            text.cursor_column() == self@.column,
    {
        &self.text
    }

    /// Moves the cursor to the start of the next row; from the last row,
    /// moves the text up by one row instead.
    pub fn new_line(&mut self)
        ensures
            final(self)@ == after_new_line(old(self)@, old(self).font(), old(self).fg(), old(self).bg()),
            final(self).font() == old(self).font(),
            final(self).fg() == old(self).fg(),
            final(self).bg() == old(self).bg(),
    {
        if self.text.line_feed() {
            return ;
        }
        let fg = self.fg_color;
        let bg = self.bg_color;
        self.graphics.fill_rectangle(
            &Vector2D { x: 0, y: 0 },
            &Vector2D { x: 8 * COLUMNS, y: 16 * ROWS },
            &bg,
        );
        self.text.scroll();
        let ghost cleared = self.graphics@;
        let ghost font = self.graphics.font();
        let mut row: usize = 0;
        while row < ROWS - 1
            invariant
                row <= ROWS - 1,
                self.text.lines() == scrolled(old(self)@.buffer),
                self.text.cursor_row() == old(self)@.row,
                self.text.cursor_column() == 0,
                self.fg_color == fg,
                self.bg_color == bg,
                fg == old(self).fg_color,
                bg == old(self).bg_color,
                self.graphics.font() == font,
                font == old(self).graphics.font(),
                self.graphics@ == redrawn(cleared, font, self.text.lines(), row as int, fg),
            decreases ROWS - 1 - row,
        {
            let line = self.text.line(row);
            let shown = shown_part(&line);
            self.graphics.write_chars(0, 16 * row, shown.as_slice(), &fg);
            row = row + 1;
        }
    }

    /// Writes one character at the cursor.
    pub fn put_char(&mut self, c: char)
        ensures
            final(self)@ == after_char(old(self)@, old(self).font(), old(self).fg(), old(self).bg(), c),
            final(self).font() == old(self).font(),
            final(self).fg() == old(self).fg(),
            final(self).bg() == old(self).bg(),
    {
        if c == '\n' {
            self.new_line();
            return ;
        }
        if self.text.column() >= COLUMNS {
            self.new_line();
        }
        let fg = self.fg_color;
        let row = self.text.row();
        let column = self.text.column();
        self.graphics.write_ascii(8 * column, 16 * row, c, &fg);
        self.text.put(c);
    }

    /// Writes the characters of `text` at the cursor, one after the other.
    pub fn put_string(&mut self, text: &str)
        ensures
            final(self)@ == after_text(
                old(self)@,
                old(self).font(),
                old(self).fg(),
                old(self).bg(),
                text@,
            ),
            final(self).font() == old(self).font(),
            final(self).fg() == old(self).fg(),
            final(self).bg() == old(self).bg(),
    {
        let chars = chars_of(text);
        let mut i: usize = 0;
        assert(chars@.subrange(0, 0) =~= Seq::<char>::empty());
        while i < chars.len()
            invariant
                i <= chars@.len(),
                chars@ == text@,
                self.font() == old(self).font(),
                self.fg() == old(self).fg(),
                self.bg() == old(self).bg(),
                self@ == after_text(
                    old(self)@,
                    old(self).font(),
                    old(self).fg(),
                    old(self).bg(),
                    chars@.subrange(0, i as int),
                ),
            decreases chars@.len() - i,
        {
            proof {
                assert(chars@.subrange(0, i + 1).drop_last() =~= chars@.subrange(0, i as int));
            }
            self.put_char(chars[i]);
            i = i + 1;
        }
        assert(chars@.subrange(0, chars@.len() as int) =~= chars@);
    }
}

/// The characters of a row that are shown.
pub fn shown_part(line: &[char; 81]) -> (shown: Vec<char>)
    ensures
        shown@ == line@.take(COLUMNS as int),
{
    let mut shown: Vec<char> = Vec::new();
    let mut i: usize = 0;
    while i < COLUMNS
        invariant
            i <= COLUMNS,
            shown@ == line@.take(i as int),
        decreases COLUMNS - i,
    {
        shown.push(line[i]);
        assert(line@.take(i + 1) =~= line@.take(i as int).push(line@[i as int]));
        i = i + 1;
    }
    shown
}

} // verus!
