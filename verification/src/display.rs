//! The text-mode display: a fixed grid of cells, a cursor, and the rules by
//! which bytes become cell writes, line feeds and scrolls.

use vstd::prelude::*;
use vstd::string::StringSliceAdditionalSpecFns;
use crate::color::ColorCode;

verus! {

/// Number of rows of the grid.
pub const ROWS: usize = 25;

/// Number of columns of the grid.
pub const COLS: usize = 80;

/// Number of cells of the grid.
pub const CELLS: usize = 2000;

/// The glyph shown in place of a byte that has no printable form.
pub const PLACEHOLDER: u8 = 0xfe;

/// The glyph of a cleared cell.
pub const BLANK: u8 = 0x20;

/// The byte that ends a line.
pub const NEWLINE: u8 = 0x0a;

/// One cell of the grid: a character code and its attribute byte.
#[derive(Clone, Copy, Debug, PartialEq, Eq, Structural)]
pub struct Cell {
    pub glyph: u8,
    pub color: ColorCode,
}

impl Cell {
    /// The two bytes of the cell as one little-endian word: the character
    /// code in the low byte, the attribute in the high byte.
    pub open spec fn word(self) -> nat {
        (self.glyph + 256 * self.color.bits) as nat
    }

    /// The word that is stored in display memory for this cell.
    pub fn encode(self) -> (w: u16)
        ensures
            w == self.word(),
            w % 256 == self.glyph,
            w / 256 == self.color.bits,
    {
        let low: u16 = self.glyph as u16;
        let high: u16 = self.color.bits as u16;
        high * 256 + low
    }
}

/// Whether a byte is shown as itself.
pub open spec fn is_printable(b: u8) -> bool {
    0x20 <= b <= 0x7e
}

/// The glyph written for a byte other than the newline.
pub open spec fn glyph_for(b: u8) -> u8 {
    if is_printable(b) {
        b
    } else {
        PLACEHOLDER
    }
}

/// A cleared cell of the given color.
pub open spec fn blank(color: ColorCode) -> Cell {
    Cell { glyph: BLANK, color }
}

/// The grid after one scroll: every row moved up by one, the last row
/// cleared to blanks of `color`.
pub open spec fn scrolled(cells: Seq<Cell>, color: ColorCode) -> Seq<Cell> {
    Seq::new(
        CELLS as nat,
        |i: int|
            if i < CELLS - COLS {
                cells[i + COLS]
            } else {
                blank(color)
            },
    )
}

/// The grid after `n` scrolls in a row.
pub open spec fn scrolled_by(cells: Seq<Cell>, color: ColorCode, n: nat) -> Seq<Cell>
    decreases n,
{
    if n == 0 {
        cells
    } else {
        scrolled(scrolled_by(cells, color, (n - 1) as nat), color)
    }
}

/// The display as a mathematical value.
pub struct Screen {
    /// The cells, row by row.
    pub cells: Seq<Cell>,
    /// The cursor's row.
    pub row: nat,
    /// The cursor's column; `COLS` when the row is full and the next glyph
    /// starts a new one.
    pub col: nat,
    /// The color of the cells written from now on.
    pub color: ColorCode,
}

impl Screen {
    /// The grid has its fixed size and the cursor is within it.
    pub open spec fn wf(self) -> bool {
        &&& self.cells.len() == CELLS
        &&& self.row < ROWS
        &&& self.col <= COLS
    }

    /// The number of cells before the cursor, counted row by row.
    pub open spec fn offset(self) -> int {
        self.row * COLS + self.col
    }

    /// Whether a line feed in this state scrolls the grid.
    pub open spec fn feed_scrolls(self) -> bool {
        self.row + 1 >= ROWS
    }

    /// The state after a scroll: every row moved up by one, the last row
    /// cleared to blanks of the active color, and the cursor at the start of
    /// the cleared row.
    pub open spec fn scroll(self) -> Screen {
        Screen {
            cells: scrolled(self.cells, self.color),
            row: (ROWS - 1) as nat,
            col: 0,
            ..self
        }
    }

    /// The state after a line feed: the cursor at the start of the next row,
    /// or, on the last row, the state after a scroll.
    pub open spec fn line_feed(self) -> Screen {
        if self.feed_scrolls() {
            self.scroll()
        } else {
            Screen { row: self.row + 1, col: 0, ..self }
        }
    }

    /// Whether writing `b` in this state scrolls the grid.
    pub open spec fn put_scrolls(self, b: u8) -> bool {
        (b == NEWLINE || self.col >= COLS) && self.feed_scrolls()
    }

    /// The state after one byte: a line feed for the newline; for any other
    /// byte its glyph in the cell under the cursor, after a line feed if the
    /// row was full, and the cursor one column on.
    pub open spec fn put(self, b: u8) -> Screen {
        if b == NEWLINE {
            self.line_feed()
        } else {
            let s = if self.col >= COLS {
                self.line_feed()
            } else {
                self
            };
            Screen {
                cells: s.cells.update(
                    s.row * COLS + s.col,
                    Cell { glyph: glyph_for(b), color: s.color },
                ),
                col: s.col + 1,
                ..s
            }
        }
    }

    /// The state after the bytes of `bytes`, first to last.
    pub open spec fn put_all(self, bytes: Seq<u8>) -> Screen
        decreases bytes.len(),
    {
        if bytes.len() == 0 {
            self
        } else {
            self.put_all(bytes.drop_last()).put(bytes.last())
        }
    }

    /// The number of scrolls that writing `bytes` causes.
    pub open spec fn scrolls(self, bytes: Seq<u8>) -> nat
        decreases bytes.len(),
    {
        if bytes.len() == 0 {
            0
        } else {
            let before = self.put_all(bytes.drop_last());
            let last: nat = if before.put_scrolls(bytes.last()) {
                1
            } else {
                0
            };
            self.scrolls(bytes.drop_last()) + last
        }
    }
}

/// The display driver's state: the grid, the cursor and the active color.
pub struct Display {
    cells: Vec<Cell>,
    row: usize,
    col: usize,
    color: ColorCode,
}

impl View for Display {
    type V = Screen;

    closed spec fn view(&self) -> Screen {
        Screen {
            cells: self.cells@,
            row: self.row as nat,
            col: self.col as nat,
            color: self.color,
        }
    }
}

impl Display {
    /// The driver's invariant: that of its model.
    pub open spec fn wf(&self) -> bool {
        self@.wf()
    }

    /// A cleared display of the given color, the cursor in the top left
    /// corner.
    pub fn new(color: ColorCode) -> (d: Display)
        ensures
            d.wf(),
            d@.row == 0,
            d@.col == 0,
            d@.color == color,
            d@.cells == Seq::new(CELLS as nat, |i: int| blank(color)),
    {
        let mut cells: Vec<Cell> = Vec::new();
        let mut i: usize = 0;
        while i < CELLS
            invariant
                i <= CELLS,
                cells@.len() == i,
                forall|j: int| 0 <= j < i ==> cells@[j] == blank(color),
            decreases CELLS - i,
        {
            cells.push(Cell { glyph: BLANK, color });
            i += 1;
        }
        let d = Display { cells, row: 0, col: 0, color };
        assert(d@.cells =~= Seq::new(CELLS as nat, |i: int| blank(color)));
        d
    }

    /// The cursor's row.
    pub fn row(&self) -> (r: usize)
        ensures
            r == self@.row,
    {
        self.row
    }

    /// The cursor's column.
    pub fn column(&self) -> (c: usize)
        ensures
            c == self@.col,
    {
        self.col
    }

    /// The active color.
    pub fn color(&self) -> (c: ColorCode)
        ensures
            c == self@.color,
    {
        self.color
    }

    /// Makes `color` the color of the cells written from now on.
    pub fn set_color(&mut self, color: ColorCode)
        ensures
            final(self)@ == (Screen { color, ..old(self)@ }),
    {
        self.color = color;
    }

    /// The cell at `row` and `column`.
    pub fn cell(&self, row: usize, column: usize) -> (c: Cell)
        requires
            self.wf(),
            row < ROWS,
            column < COLS,
        ensures
            c == self@.cells[row * COLS + column],
    {
        self.cells[row * COLS + column]
    }

    /// The contents of display memory: the word of every cell, row by row.
    pub fn image(&self) -> (words: Vec<u16>)
        requires
            self.wf(),
        ensures
            words@.len() == CELLS,
            forall|i: int| 0 <= i < CELLS ==> #[trigger] words@[i] == self@.cells[i].word(),
    {
        let mut words: Vec<u16> = Vec::new();
        let mut i: usize = 0;
        while i < CELLS
            invariant
                i <= CELLS,
                self.wf(),
                words@.len() == i,
                forall|j: int| 0 <= j < i ==> #[trigger] words@[j] == self@.cells[j].word(),
            decreases CELLS - i,
        {
            words.push(self.cells[i].encode());
            i += 1;
        }
        words
    }

    /// Moves every row up by one, clears the last row to blanks of the
    /// active color, and puts the cursor at the start of the cleared row.
    pub fn scroll(&mut self)
        requires
            old(self).wf(),
        ensures
            final(self).wf(),
            final(self)@ == old(self)@.scroll(),
    {
        let ghost before = self.cells@;
        let color = self.color;
        let mut i: usize = 0;
        while i < CELLS - COLS
            invariant
                i <= CELLS - COLS,
                self.cells@.len() == CELLS,
                self.row == old(self).row,
                self.col == old(self).col,
                self.color == color,
                color == old(self).color,
                before == old(self).cells@,
                forall|j: int| 0 <= j < i ==> self.cells@[j] == before[j + COLS],
                forall|j: int| i <= j < CELLS ==> self.cells@[j] == before[j],
            decreases CELLS - COLS - i,
        {
            let moved = self.cells[i + COLS];
            self.cells.set(i, moved);
            i += 1;
        }
        while i < CELLS
            invariant
                CELLS - COLS <= i <= CELLS,
                self.cells@.len() == CELLS,
                self.row == old(self).row,
                self.col == old(self).col,
                self.color == color,
                color == old(self).color,
                before == old(self).cells@,
                forall|j: int| 0 <= j < CELLS - COLS ==> self.cells@[j] == before[j + COLS],
                forall|j: int| CELLS - COLS <= j < i ==> self.cells@[j] == blank(color),
            decreases CELLS - i,
        {
            self.cells.set(i, Cell { glyph: BLANK, color });
            i += 1;
        }
        self.row = ROWS - 1;
        self.col = 0;
        assert(self.cells@ =~= scrolled(before, color));
    }

    /// Ends the current row. Returns whether the grid was scrolled.
    pub fn new_line(&mut self) -> (scrolled_now: bool)
        requires
            old(self).wf(),
        ensures
            final(self).wf(),
            final(self)@ == old(self)@.line_feed(),
            scrolled_now == old(self)@.feed_scrolls(),
    {
        if self.row + 1 >= ROWS {
            self.scroll();
            true
        } else {
            self.row = self.row + 1;
            self.col = 0;
            false
        }
    }

    /// Writes one byte at the cursor. Returns whether the grid was scrolled.
    pub fn write_byte(&mut self, b: u8) -> (scrolled_now: bool)
        requires
            old(self).wf(),
        ensures
            final(self).wf(),
            final(self)@ == old(self)@.put(b),
            scrolled_now == old(self)@.put_scrolls(b),
    {
        if b == NEWLINE {
            self.new_line()
        } else {
            let mut scrolled_now = false;
            if self.col >= COLS {
                scrolled_now = self.new_line();
            }
            let glyph: u8 = if 0x20 <= b && b <= 0x7e {
                b
            } else {
                PLACEHOLDER
            };
            let at: usize = self.row * COLS + self.col;
            self.cells.set(at, Cell { glyph, color: self.color });
            self.col = self.col + 1;
            scrolled_now
        }
    }

    /// Writes the bytes first to last. Returns the number of scrolls.
    pub fn write_bytes(&mut self, bytes: &[u8]) -> (count: usize)
        requires
            old(self).wf(),
        ensures
            final(self).wf(),
            final(self)@ == old(self)@.put_all(bytes@),
            count == old(self)@.scrolls(bytes@),
            count <= bytes@.len(),
    {
        let mut count: usize = 0;
        let mut i: usize = 0;
        while i < bytes.len()
            invariant
                i <= bytes@.len(),
                self.wf(),
                self@ == old(self)@.put_all(bytes@.take(i as int)),
                count == old(self)@.scrolls(bytes@.take(i as int)),
                count <= i,
            decreases bytes@.len() - i,
        {
            proof {
                assert(bytes@.take(i + 1).drop_last() =~= bytes@.take(i as int));
                assert(bytes@.take(i + 1).last() == bytes@[i as int]);
            }
            let scrolled_now = self.write_byte(bytes[i]);
            if scrolled_now {
                count += 1;
            }
            i += 1;
        }
        proof {
            assert(bytes@.take(i as int) =~= bytes@);
        }
        count
    }

    /// Writes the bytes of `text` first to last. Returns the number of
    /// scrolls.
    pub fn write_text(&mut self, text: &str) -> (count: usize)
        requires
            old(self).wf(),
        ensures
            final(self).wf(),
            final(self)@ == old(self)@.put_all(text.spec_bytes()),
            count == old(self)@.scrolls(text.spec_bytes()),
    {
        self.write_bytes(text.as_bytes())
    }

    /// Makes `color` the active color and writes the bytes of `text` with
    /// it. Returns the number of scrolls.
    pub fn write_colored(&mut self, text: &str, color: ColorCode) -> (count: usize)
        requires
            old(self).wf(),
        ensures
            final(self).wf(),
            final(self)@ == (Screen { color, ..old(self)@ }).put_all(text.spec_bytes()),
            count == (Screen { color, ..old(self)@ }).scrolls(text.spec_bytes()),
    {
        self.set_color(color);
        self.write_bytes(text.as_bytes())
    }
}

} // verus!
