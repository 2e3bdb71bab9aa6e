//! What holds of the display for every state and every text.

use vstd::prelude::*;
use crate::color::ColorCode;
use crate::display::{blank, glyph_for, is_printable, scrolled, scrolled_by, Cell, Screen, CELLS, COLS, NEWLINE, ROWS};

verus! {

/// Every byte of `bytes` is shown as itself (so none is the newline).
pub open spec fn all_printable(bytes: Seq<u8>) -> bool {
    forall|i: int| 0 <= i < bytes.len() ==> is_printable(#[trigger] bytes[i])
}

/// Every byte of `bytes` is the newline.
pub open spec fn all_newlines(bytes: Seq<u8>) -> bool {
    forall|i: int| 0 <= i < bytes.len() ==> #[trigger] bytes[i] == NEWLINE
}

/// The column after `n` glyphs written from column `col`: a full row wraps
/// only when the next glyph arrives.
pub open spec fn column_after(col: nat, n: nat) -> int {
    if col + n == 0 {
        0
    } else {
        (col + n - 1) % (COLS as int) + 1
    }
}

/// The number of row overflows when `n` glyphs are written with `offset`
/// cells before the cursor.
pub open spec fn overflows(offset: int, n: nat) -> int {
    if offset + n <= CELLS {
        0
    } else {
        (offset + n - CELLS - 1) / (COLS as int) + 1
    }
}

/// One byte keeps the cursor within the grid, never moves it to an earlier
/// row, and leaves the active color alone.
pub proof fn lemma_put_keeps_cursor_in_grid(s: Screen, b: u8)
    requires
        s.wf(),
    ensures
        s.put(b).wf(),
        s.put(b).row >= s.row,
        s.put(b).color == s.color,
{
}

/// Any text keeps the cursor within the grid, never moves it to an earlier
/// row, leaves the active color alone, and scrolls at most once per byte.
pub proof fn lemma_put_all_keeps_cursor_in_grid(s: Screen, bytes: Seq<u8>)
    requires
        s.wf(),
    ensures
        s.put_all(bytes).wf(),
        s.put_all(bytes).row >= s.row,
        s.put_all(bytes).color == s.color,
        s.scrolls(bytes) <= bytes.len(),
    decreases bytes.len(),
{
    if bytes.len() > 0 {
        lemma_put_all_keeps_cursor_in_grid(s, bytes.drop_last());
        lemma_put_keeps_cursor_in_grid(s.put_all(bytes.drop_last()), bytes.last());
    }
}

/// Writing printable bytes advances the column by their number, wrapping at
/// the end of a row, and scrolls exactly once for each row that overflows
/// the grid. While the text fits, the cursor's offset grows by its length;
/// once it does not, the cursor is on the last row.
pub proof fn lemma_printable_run(s: Screen, bytes: Seq<u8>)
    requires
        s.wf(),
        all_printable(bytes),
    ensures
        s.put_all(bytes).wf(),
        s.put_all(bytes).row >= s.row,
        s.put_all(bytes).col == column_after(s.col, bytes.len()),
        s.scrolls(bytes) == overflows(s.offset(), bytes.len()),
        s.offset() + bytes.len() <= CELLS ==> s.put_all(bytes).offset() == s.offset() + bytes.len(),
        s.offset() + bytes.len() > CELLS ==> s.put_all(bytes).row == ROWS - 1,
    decreases bytes.len(),
{
    if bytes.len() > 0 {
        let front = bytes.drop_last();
        assert(all_printable(front)) by {
            assert forall|i: int| 0 <= i < front.len() implies is_printable(#[trigger] front[i]) by {
                assert(front[i] == bytes[i]);
            }
        }
        lemma_printable_run(s, front);
        let t = s.put_all(front);
        let b = bytes.last();
        assert(is_printable(b));
        assert(b != NEWLINE);
        lemma_put_keeps_cursor_in_grid(t, b);
        let u = t.put(b);
        let v = s.offset() + front.len();
        assert(u == s.put_all(bytes));
        assert(t.col == column_after(s.col, front.len()));
        assert(s.offset() == s.row * 80 + s.col);
        if t.col >= COLS {
            assert(t.col == 80);
            if t.feed_scrolls() {
                assert(t.row == 24);
                assert(u.row == 24 && u.col == 1);
                assert(t.put_scrolls(b));
                assert(v >= 2000);
            } else {
                assert(u.row == t.row + 1 && u.col == 1);
                assert(!t.put_scrolls(b));
                assert(v <= 2000) by {
                    if v > 2000 {
                        assert(t.row == 24);
                    }
                }
                assert(t.offset() == v);
            }
        } else {
            assert(u.row == t.row && u.col == t.col + 1);
            assert(!t.put_scrolls(b));
        }
    }
}

/// Printable text that fits between the cursor and the end of the grid is
/// written in place: no scroll, each byte with the active color in its own
/// cell from the cursor on, and every other cell as it was.
pub proof fn lemma_printable_in_place(s: Screen, bytes: Seq<u8>)
    requires
        s.wf(),
        all_printable(bytes),
        s.offset() + bytes.len() <= CELLS,
    ensures
        s.scrolls(bytes) == 0,
        s.put_all(bytes).cells.len() == CELLS,
        s.put_all(bytes).offset() == s.offset() + bytes.len(),
        forall|k: int|
            0 <= k < bytes.len() ==> #[trigger] s.put_all(bytes).cells[s.offset() + k] == (Cell {
                glyph: bytes[k],
                color: s.color,
            }),
        forall|j: int|
            0 <= j < CELLS && !(s.offset() <= j < s.offset() + bytes.len())
                ==> #[trigger] s.put_all(bytes).cells[j] == s.cells[j],
    decreases bytes.len(),
{
    if bytes.len() > 0 {
        let front = bytes.drop_last();
        assert(all_printable(front)) by {
            assert forall|i: int| 0 <= i < front.len() implies is_printable(#[trigger] front[i]) by {
                assert(front[i] == bytes[i]);
            }
        }
        lemma_printable_in_place(s, front);
        lemma_printable_run(s, front);
        lemma_printable_run(s, bytes);
        lemma_put_all_keeps_cursor_in_grid(s, front);
        let t = s.put_all(front);
        let b = bytes.last();
        assert(is_printable(b));
        let u = t.put(b);
        assert(u == s.put_all(bytes));
        let at = s.offset() + front.len();
        assert(t.offset() == at);
        assert(u.cells == (if t.col >= COLS {
            t.line_feed()
        } else {
            t
        }).cells.update(at, Cell { glyph: b, color: s.color }));
        assert(!t.put_scrolls(b));
        assert forall|k: int| 0 <= k < bytes.len() implies #[trigger] u.cells[s.offset() + k] == (Cell {
            glyph: bytes[k],
            color: s.color,
        }) by {
            if k < front.len() {
                assert(t.cells[s.offset() + k] == (Cell { glyph: front[k], color: s.color }));
            }
        }
    }
}

/// One scroll moves every row up by one and leaves the last row blank in
/// the given color.
pub proof fn lemma_scrolled_rows(cells: Seq<Cell>, color: ColorCode)
    requires
        cells.len() == CELLS,
    ensures
        scrolled(cells, color).len() == CELLS,
        forall|r: int, c: int|
            0 <= r < ROWS - 1 && 0 <= c < COLS ==> #[trigger] scrolled(cells, color)[r * COLS + c]
                == cells[(r + 1) * COLS + c],
        forall|c: int|
            0 <= c < COLS ==> #[trigger] scrolled(cells, color)[(ROWS - 1) * COLS + c] == blank(
                color,
            ),
{
}

/// After `n` scrolls the `n` rows at the top are gone: what is left of the
/// grid stands `n` rows higher, and the `n` rows at the bottom are blank in
/// the given color.
pub proof fn lemma_scrolled_by_rows(cells: Seq<Cell>, color: ColorCode, n: nat)
    requires
        cells.len() == CELLS,
        n <= ROWS,
    ensures
        scrolled_by(cells, color, n).len() == CELLS,
        forall|i: int|
            0 <= i < CELLS - n * COLS ==> #[trigger] scrolled_by(cells, color, n)[i] == cells[i + n
                * COLS],
        forall|i: int|
            CELLS - n * COLS <= i < CELLS ==> #[trigger] scrolled_by(cells, color, n)[i] == blank(
                color,
            ),
    decreases n,
{
    if n > 0 {
        lemma_scrolled_by_rows(cells, color, (n - 1) as nat);
        let before = scrolled_by(cells, color, (n - 1) as nat);
        let after = scrolled(before, color);
        assert forall|i: int| 0 <= i < CELLS - n * COLS implies #[trigger] after[i] == cells[i + n
            * COLS] by {
            assert(after[i] == before[i + COLS]);
        }
        assert forall|i: int| CELLS - n * COLS <= i < CELLS implies #[trigger] after[i] == blank(
            color,
        ) by {
            if i < CELLS - COLS {
                assert(after[i] == before[i + COLS]);
            }
        }
    }
}

/// On the last row every newline scrolls once: after `n` of them the grid
/// is the old one scrolled `n` times, and the cursor is at the start of the
/// cleared last row.
pub proof fn lemma_newlines_on_last_row(s: Screen, bytes: Seq<u8>)
    requires
        s.wf(),
        s.row == ROWS - 1,
        all_newlines(bytes),
    ensures
        s.scrolls(bytes) == bytes.len(),
        s.put_all(bytes).cells == scrolled_by(s.cells, s.color, bytes.len()),
        s.put_all(bytes).row == ROWS - 1,
        bytes.len() > 0 ==> s.put_all(bytes).col == 0,
        s.put_all(bytes).color == s.color,
    decreases bytes.len(),
{
    if bytes.len() > 0 {
        let front = bytes.drop_last();
        assert(all_newlines(front)) by {
            assert forall|i: int| 0 <= i < front.len() implies #[trigger] front[i] == NEWLINE by {
                assert(front[i] == bytes[i]);
            }
        }
        lemma_newlines_on_last_row(s, front);
        assert(bytes.last() == NEWLINE);
    }
}

/// The last cell of the last row is written without a scroll, and the
/// cursor then stands behind the row's end. The next glyph scrolls the grid
/// exactly once and lands in the first cell of the cleared last row.
pub proof fn lemma_last_cell_boundary(s: Screen, b: u8, next: u8)
    requires
        s.wf(),
        s.row == ROWS - 1,
        s.col == COLS - 1,
        b != NEWLINE,
        next != NEWLINE,
    ensures
        !s.put_scrolls(b),
        s.put(b).cells == s.cells.update(CELLS - 1, Cell { glyph: glyph_for(b), color: s.color }),
        s.put(b).row == ROWS - 1,
        s.put(b).col == COLS,
        s.put(b).put_scrolls(next),
        s.put(b).put(next).cells == scrolled(s.put(b).cells, s.color).update(
            CELLS - COLS,
            Cell { glyph: glyph_for(next), color: s.color },
        ),
        s.put(b).put(next).row == ROWS - 1,
        s.put(b).put(next).col == 1,
        s.scrolls(seq![b, next]) == 1,
{
    let both = seq![b, next];
    assert(both.drop_last() =~= seq![b]);
    assert(seq![b].drop_last() =~= Seq::<u8>::empty());
    assert(s.put_all(Seq::<u8>::empty()) == s);
    assert(s.put_all(seq![b]) == s.put(b));
    assert(s.scrolls(Seq::<u8>::empty()) == 0);
    assert(s.scrolls(seq![b]) == 0);
}

/// Writing two texts one after the other is writing the two as one: the
/// same state, and the scrolls of both.
pub proof fn lemma_put_all_concat(s: Screen, a: Seq<u8>, b: Seq<u8>)
    ensures
        s.put_all(a).put_all(b) == s.put_all(a + b),
        s.scrolls(a) + s.put_all(a).scrolls(b) == s.scrolls(a + b),
    decreases b.len(),
{
    if b.len() == 0 {
        assert(a + b =~= a);
    } else {
        lemma_put_all_concat(s, a, b.drop_last());
        assert((a + b).drop_last() =~= a + b.drop_last());
        assert((a + b).last() == b.last());
    }
}

/// Each scroll moves what was on the display up by one row: when writing a
/// text has scrolled `n` times, every cell that stood before the cursor and
/// below the first `n` rows is found `n` rows higher, and the first `n` rows
/// are gone. The cursor never moves back behind what was written before.
pub proof fn lemma_scrolls_move_rows_up(s: Screen, bytes: Seq<u8>)
    requires
        s.wf(),
    ensures
        s.put_all(bytes).offset() + s.scrolls(bytes) * COLS >= s.offset(),
        forall|j: int|
            s.scrolls(bytes) * COLS <= j < s.offset() ==> s.put_all(bytes).cells[j - s.scrolls(
                bytes,
            ) * COLS] == #[trigger] s.cells[j],
    decreases bytes.len(),
{
    if bytes.len() > 0 {
        let front = bytes.drop_last();
        lemma_scrolls_move_rows_up(s, front);
        lemma_put_all_keeps_cursor_in_grid(s, front);
        let t = s.put_all(front);
        let n = s.scrolls(front);
        let b = bytes.last();
        let u = t.put(b);
        let m = s.scrolls(bytes);
        assert(u == s.put_all(bytes));
        assert forall|j: int| m * COLS <= j < s.offset() implies u.cells[j - m * COLS]
            == #[trigger] s.cells[j] by {
            assert(t.cells[j - n * COLS] == s.cells[j]);
            if t.put_scrolls(b) {
                assert(scrolled(t.cells, t.color)[j - m * COLS] == t.cells[j - m * COLS + COLS]);
            }
        }
    }
}

} // verus!
