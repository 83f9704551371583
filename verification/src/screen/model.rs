//! What a screen is, as mathematics: sequences of lines and of flags.
//!
//! The contracts of [`Screen`](crate::screen::Screen) describe every operation
//! by the functions of [`ScreenModel`].

use vstd::prelude::*;

use crate::screen::cell::{AttrState, Cell, CellFlags, Cursor, CursorShape, Rgb};

verus! {

/// The smaller of two integers.
pub open spec fn min(a: int, b: int) -> int {
    if a <= b {
        a
    } else {
        b
    }
}

/// The larger of two integers.
pub open spec fn max(a: int, b: int) -> int {
    if a >= b {
        a
    } else {
        b
    }
}

/// A difference that stops at zero.
pub open spec fn minus(a: int, b: int) -> int {
    if a >= b {
        a - b
    } else {
        0
    }
}

/// How many rows or columns a request for `n` affects when `room` are left: at
/// least one, at most all of them.
pub open spec fn effective(n: int, room: int) -> int {
    min(max(n, 1), room)
}

/// A line of erased cells.
pub open spec fn blank_line(cols: int) -> Seq<Cell> {
    Seq::new(cols as nat, |c: int| Cell::blank())
}

/// A page of erased lines.
pub open spec fn blank_lines(cols: int, rows: int) -> Seq<Seq<Cell>> {
    Seq::new(rows as nat, |r: int| blank_line(cols))
}

/// A tab stop in every eighth column.
pub open spec fn default_tabstops(cols: int) -> Seq<bool> {
    Seq::new(cols as nat, |c: int| c % 8 == 0)
}

/// `line` with the columns `from..to` erased.
pub open spec fn erased(line: Seq<Cell>, from: int, to: int) -> Seq<Cell> {
    Seq::new(
        line.len(),
        |c: int|
            if from <= c < to {
                Cell::blank()
            } else {
                line[c]
            },
    )
}

/// `line` with `count` erased cells put in at `col`; what is pushed past the
/// end is lost.
pub open spec fn opened_up(line: Seq<Cell>, col: int, count: int) -> Seq<Cell> {
    Seq::new(
        line.len(),
        |c: int|
            if c < col {
                line[c]
            } else if c < col + count {
                Cell::blank()
            } else {
                line[c - count]
            },
    )
}

/// `line` with `count` cells taken out at `col`; the rest moves left and erased
/// cells come in at the end.
pub open spec fn closed_up(line: Seq<Cell>, col: int, count: int) -> Seq<Cell> {
    Seq::new(
        line.len(),
        |c: int|
            if c < col {
                line[c]
            } else if c + count < line.len() {
                line[c + count]
            } else {
                Cell::blank()
            },
    )
}

/// `lines` with the rows `top..=bottom` moved up by `n`; blank lines come in
/// from below.
pub open spec fn shifted_up(
    lines: Seq<Seq<Cell>>,
    top: int,
    bottom: int,
    n: int,
    cols: int,
) -> Seq<Seq<Cell>> {
    Seq::new(
        lines.len(),
        |r: int|
            if r < top || bottom < r {
                lines[r]
            } else if r + n <= bottom {
                lines[r + n]
            } else {
                blank_line(cols)
            },
    )
}

/// `lines` with the rows `top..=bottom` moved down by `n`; blank lines come in
/// from above.
pub open spec fn shifted_down(
    lines: Seq<Seq<Cell>>,
    top: int,
    bottom: int,
    n: int,
    cols: int,
) -> Seq<Seq<Cell>> {
    Seq::new(
        lines.len(),
        |r: int|
            if r < top || bottom < r {
                lines[r]
            } else if top <= r - n {
                lines[r - n]
            } else {
                blank_line(cols)
            },
    )
}

/// `lines` with the rows `from..to` erased.
pub open spec fn erased_lines(
    lines: Seq<Seq<Cell>>,
    from: int,
    to: int,
    cols: int,
) -> Seq<Seq<Cell>> {
    Seq::new(
        lines.len(),
        |r: int|
            if from <= r < to {
                blank_line(cols)
            } else {
                lines[r]
            },
    )
}

/// `lines` cut or filled up with erased cells to another size.
pub open spec fn resized_lines(lines: Seq<Seq<Cell>>, cols: int, rows: int) -> Seq<Seq<Cell>> {
    Seq::new(
        rows as nat,
        |r: int|
            Seq::new(
                cols as nat,
                |c: int|
                    if r < lines.len() && c < lines[r].len() {
                        lines[r][c]
                    } else {
                        Cell::blank()
                    },
            ),
    )
}

/// The last `cap` entries.
pub open spec fn keep_last<T>(entries: Seq<T>, cap: int) -> Seq<T> {
    if entries.len() <= cap {
        entries
    } else {
        entries.skip(entries.len() - cap)
    }
}

/// The first column from `col` on that has a tab stop, or the number of columns
/// if there is none.
pub open spec fn next_tabstop(tabstops: Seq<bool>, col: int) -> int
    decreases tabstops.len() - col,
{
    if col < 0 || col >= tabstops.len() {
        tabstops.len() as int
    } else if tabstops[col] {
        col
    } else {
        next_tabstop(tabstops, col + 1)
    }
}

/// The flags of a character printed with these attributes.
pub open spec fn style_flags(attrs: AttrState) -> CellFlags {
    CellFlags {
        bits: (if attrs.bold {
            CellFlags::bold().bits
        } else {
            0
        }) | (if attrs.italic {
            CellFlags::italic().bits
        } else {
            0
        }) | (if attrs.underline {
            CellFlags::underline().bits
        } else {
            0
        }) | (if attrs.inverse {
            CellFlags::inverse().bits
        } else {
            0
        }),
    }
}

/// The cell that shows `ch` with these attributes; inverse video exchanges the
/// two colours.
pub open spec fn styled_cell(ch: char, attrs: AttrState) -> Cell {
    Cell {
        ch: ch,
        fg: if attrs.inverse {
            attrs.bg
        } else {
            attrs.fg
        },
        bg: if attrs.inverse {
            attrs.fg
        } else {
            attrs.bg
        },
        flags: style_flags(attrs),
    }
}

/// The right half of a wide character.
pub open spec fn continuation(cell: Cell) -> Cell {
    Cell { ch: ' ', flags: cell.flags.union(CellFlags::wide_cont()), ..cell }
}

/// One of the two pages of a screen.
#[verifier::ext_equal]
pub struct BufferModel {
    pub lines: Seq<Seq<Cell>>,
    pub tabstops: Seq<bool>,
    pub cursor: Cursor,
    pub saved_cursor: Cursor,
    pub attrs: AttrState,
    pub saved_attrs: AttrState,
    pub scroll_top: usize,
    pub scroll_bottom: usize,
}

impl BufferModel {
    /// A blank page.
    pub open spec fn fresh(cols: int, rows: int) -> BufferModel {
        BufferModel {
            lines: blank_lines(cols, rows),
            tabstops: default_tabstops(cols),
            cursor: Cursor::home(),
            saved_cursor: Cursor::home(),
            attrs: AttrState::plain(),
            saved_attrs: AttrState::plain(),
            scroll_top: 0,
            scroll_bottom: (rows - 1) as usize,
        }
    }

    pub open spec fn wf(self, cols: int, rows: int) -> bool {
        &&& self.lines.len() == rows
        &&& forall|r: int| 0 <= r < rows ==> (#[trigger] self.lines[r]).len() == cols
        &&& self.tabstops == default_tabstops(cols)
        &&& self.cursor.row < rows
        &&& self.cursor.col < cols
        &&& self.saved_cursor.row < rows
        &&& self.saved_cursor.col < cols
        &&& self.scroll_top <= self.scroll_bottom < rows
    }

    /// The line the cursor is in.
    pub open spec fn cursor_line(self) -> Seq<Cell> {
        self.lines[self.cursor.row as int]
    }

    /// The same page with another line under the cursor.
    pub open spec fn with_cursor_line(self, line: Seq<Cell>) -> BufferModel {
        BufferModel { lines: self.lines.update(self.cursor.row as int, line), ..self }
    }

    /// The page after its grid was given another size. The cursor and the saved
    /// cursor stay within it, the cursor becomes a visible block, and the
    /// scroll region becomes the whole page.
    pub open spec fn resized(self, cols: int, rows: int) -> BufferModel {
        BufferModel {
            lines: resized_lines(self.lines, cols, rows),
            tabstops: default_tabstops(cols),
            cursor: Cursor::home().at(
                min(self.cursor.row as int, rows - 1),
                min(self.cursor.col as int, cols - 1),
            ),
            saved_cursor: self.saved_cursor.at(
                min(self.saved_cursor.row as int, rows - 1),
                min(self.saved_cursor.col as int, cols - 1),
            ),
            scroll_top: 0,
            scroll_bottom: (rows - 1) as usize,
            ..self
        }
    }
}

/// A whole screen.
#[verifier::ext_equal]
pub struct ScreenModel {
    pub cols: usize,
    pub rows: usize,
    pub primary: BufferModel,
    pub alternate: BufferModel,
    pub use_alternate: bool,
    /// The lines that scrolled off the primary page, oldest first.
    pub scrollback: Seq<Seq<Cell>>,
    /// How many such lines are kept.
    pub scrollback_cap: usize,
    /// For each row, whether it has to be drawn again.
    pub dirty: Seq<bool>,
}

impl ScreenModel {
    /// A blank screen, to be drawn in full.
    pub open spec fn fresh(cols: int, rows: int, cap: int) -> ScreenModel {
        ScreenModel {
            cols: cols as usize,
            rows: rows as usize,
            primary: BufferModel::fresh(cols, rows),
            alternate: BufferModel::fresh(cols, rows),
            use_alternate: false,
            scrollback: Seq::empty(),
            scrollback_cap: cap as usize,
            dirty: Seq::new(rows as nat, |r: int| true),
        }
    }

    pub open spec fn wf(self) -> bool {
        &&& self.cols >= 1
        &&& self.rows >= 1
        &&& self.primary.wf(self.cols as int, self.rows as int)
        &&& self.alternate.wf(self.cols as int, self.rows as int)
        &&& self.scrollback_cap >= 1
        &&& self.scrollback.len() <= self.scrollback_cap
        &&& self.dirty.len() == self.rows
    }

    /// The page that is shown.
    pub open spec fn active(self) -> BufferModel {
        if self.use_alternate {
            self.alternate
        } else {
            self.primary
        }
    }

    /// The same screen with another page in the place of the shown one.
    pub open spec fn with_active(self, page: BufferModel) -> ScreenModel {
        if self.use_alternate {
            ScreenModel { alternate: page, ..self }
        } else {
            ScreenModel { primary: page, ..self }
        }
    }

    pub open spec fn cursor(self) -> Cursor {
        self.active().cursor
    }

    pub open spec fn with_cursor(self, cursor: Cursor) -> ScreenModel {
        self.with_active(BufferModel { cursor: cursor, ..self.active() })
    }

    pub open spec fn attrs(self) -> AttrState {
        self.active().attrs
    }

    pub open spec fn with_attrs(self, attrs: AttrState) -> ScreenModel {
        self.with_active(BufferModel { attrs: attrs, ..self.active() })
    }

    /// The same screen with the shown lines replaced.
    pub open spec fn with_lines(self, lines: Seq<Seq<Cell>>) -> ScreenModel {
        self.with_active(BufferModel { lines: lines, ..self.active() })
    }

    /// Marks the rows `from..to`, as far as there are any.
    pub open spec fn marked(self, from: int, to: int) -> ScreenModel {
        ScreenModel {
            dirty: Seq::new(self.dirty.len(), |r: int| self.dirty[r] || from <= r < to),
            ..self
        }
    }

    /// Marks one row.
    pub open spec fn marked_row(self, row: int) -> ScreenModel {
        self.marked(row, row + 1)
    }

    pub open spec fn marked_all(self) -> ScreenModel {
        self.marked(0, self.rows as int)
    }

    /// The cursor in another place; the row it comes to is marked.
    pub open spec fn moved_to(self, row: int, col: int) -> ScreenModel {
        self.with_cursor(self.cursor().at(row, col)).marked_row(row)
    }

    /// The cursor line replaced and its row marked.
    pub open spec fn with_edited_line(self, line: Seq<Cell>) -> ScreenModel {
        self.with_active(self.active().with_cursor_line(line)).marked_row(
            self.cursor().row as int,
        )
    }

    /// The screen in the size that was asked for, which is at least one by one; a
    /// screen that has this size already stays as it is.
    pub open spec fn with_size(self, cols: int, rows: int) -> ScreenModel {
        if max(cols, 1) == self.cols && max(rows, 1) == self.rows {
            self
        } else {
            self.resized(max(cols, 1), max(rows, 1))
        }
    }

    /// Both pages in another size, the scroll regions reset, everything marked.
    pub open spec fn resized(self, cols: int, rows: int) -> ScreenModel {
        ScreenModel {
            cols: cols as usize,
            rows: rows as usize,
            primary: self.primary.resized(cols, rows),
            alternate: self.alternate.resized(cols, rows),
            dirty: Seq::new(rows as nat, |r: int| true),
            ..self
        }
    }

    /// The other page shown. The alternate page is always entered blank, with
    /// its cursor, attributes and scroll region reset.
    pub open spec fn switched(self, enable: bool) -> ScreenModel {
        if self.use_alternate == enable {
            self
        } else if enable {
            ScreenModel {
                use_alternate: true,
                alternate: BufferModel {
                    lines: blank_lines(self.cols as int, self.rows as int),
                    cursor: Cursor::home(),
                    attrs: AttrState::plain(),
                    scroll_top: 0,
                    scroll_bottom: (self.rows - 1) as usize,
                    ..self.alternate
                },
                ..self
            }.marked_all()
        } else {
            ScreenModel { use_alternate: false, ..self }.marked_all()
        }
    }

    pub open spec fn with_saved_cursor(self) -> ScreenModel {
        let page = self.active();
        self.with_active(
            BufferModel { saved_cursor: page.cursor, saved_attrs: page.attrs, ..page },
        )
    }

    pub open spec fn with_restored_cursor(self) -> ScreenModel {
        let page = self.active();
        self.with_active(
            BufferModel { cursor: page.saved_cursor, attrs: page.saved_attrs, ..page },
        ).marked_row(page.saved_cursor.row as int)
    }

    /// The rows `top..=bottom` scrolled up. Lines that leave the whole primary
    /// page go to the scrollback, which keeps the latest ones.
    pub open spec fn scrolled_up(self, n: int, top: int, bottom: int) -> ScreenModel {
        let count = effective(n, bottom - top + 1);
        let lines = self.active().lines;
        let scrollback = if !self.use_alternate && top == 0 && bottom == self.rows - 1 {
            keep_last(self.scrollback + lines.take(count), self.scrollback_cap as int)
        } else {
            self.scrollback
        };
        ScreenModel {
            scrollback: scrollback,
            ..self.with_lines(shifted_up(lines, top, bottom, count, self.cols as int))
        }.marked(top, bottom + 1)
    }

    /// The rows `top..=bottom` scrolled down.
    pub open spec fn scrolled_down(self, n: int, top: int, bottom: int) -> ScreenModel {
        let count = effective(n, bottom - top + 1);
        self.with_lines(
            shifted_down(self.active().lines, top, bottom, count, self.cols as int),
        ).marked(top, bottom + 1)
    }

    /// One row further down: at the bottom of the scroll region the region
    /// scrolls, elsewhere the cursor moves, if it can.
    pub open spec fn line_fed(self) -> ScreenModel {
        let page = self.active();
        if page.cursor.row == page.scroll_bottom {
            self.scrolled_up(1, page.scroll_top as int, page.scroll_bottom as int)
        } else {
            self.moved_to(min(page.cursor.row + 1, self.rows - 1), page.cursor.col as int)
        }
    }

    /// One row further up: at the top of the scroll region the region scrolls,
    /// elsewhere the cursor moves, if it can.
    pub open spec fn reverse_indexed(self) -> ScreenModel {
        let page = self.active();
        if page.cursor.row == page.scroll_top {
            self.scrolled_down(1, page.scroll_top as int, page.scroll_bottom as int)
        } else {
            self.moved_to(minus(page.cursor.row as int, 1), page.cursor.col as int)
        }
    }

    pub open spec fn tabbed(self) -> ScreenModel {
        let page = self.active();
        self.moved_to(
            page.cursor.row as int,
            min(next_tabstop(page.tabstops, page.cursor.col + 1), self.cols - 1),
        )
    }

    /// A scroll region given by its first and last row, counted from one. A
    /// region of fewer than two rows is not taken.
    pub open spec fn with_scroll_region(self, top_1: int, bottom_1: int) -> ScreenModel {
        let top = min(minus(top_1, 1), self.rows - 1);
        let bottom = min(minus(bottom_1, 1), self.rows - 1);
        if top < bottom {
            self.with_active(
                BufferModel {
                    scroll_top: top as usize,
                    scroll_bottom: bottom as usize,
                    cursor: self.cursor().at(top, 0),
                    ..self.active()
                },
            ).marked_all()
        } else {
            self
        }
    }

    pub open spec fn with_full_scroll_region(self) -> ScreenModel {
        self.with_active(
            BufferModel {
                scroll_top: 0,
                scroll_bottom: (self.rows - 1) as usize,
                ..self.active()
            },
        )
    }

    /// Part of the cursor line erased: from the cursor on, up to and with the
    /// cursor, or all of it. Other modes erase nothing; the row is marked in
    /// any case.
    pub open spec fn line_erased(self, mode: int) -> ScreenModel {
        let line = self.active().cursor_line();
        let col = self.cursor().col as int;
        let cols = self.cols as int;
        self.with_edited_line(
            if mode == 0 {
                erased(line, col, cols)
            } else if mode == 1 {
                erased(line, 0, col + 1)
            } else if mode == 2 {
                erased(line, 0, cols)
            } else {
                line
            },
        )
    }

    /// The rows `from..to` erased and marked.
    pub open spec fn rows_erased(self, from: int, to: int) -> ScreenModel {
        self.with_lines(erased_lines(self.active().lines, from, to, self.cols as int)).marked(
            from,
            to,
        )
    }

    /// Part of the page erased: from the cursor on, up to and with the cursor,
    /// or all of it. Other modes do nothing.
    pub open spec fn display_erased(self, mode: int) -> ScreenModel {
        let row = self.cursor().row as int;
        if mode == 0 {
            self.line_erased(0).rows_erased(row + 1, self.rows as int)
        } else if mode == 1 {
            self.line_erased(1).rows_erased(0, row)
        } else if mode == 2 || mode == 3 {
            self.rows_erased(0, self.rows as int)
        } else {
            self
        }
    }

    /// Blank lines put in at the cursor row, within the scroll region; outside
    /// of it nothing happens.
    pub open spec fn lines_inserted(self, n: int) -> ScreenModel {
        let page = self.active();
        if page.scroll_top <= page.cursor.row <= page.scroll_bottom {
            self.scrolled_down(n, page.cursor.row as int, page.scroll_bottom as int)
        } else {
            self
        }
    }

    /// Lines taken out at the cursor row, within the scroll region; outside of
    /// it nothing happens. Nothing goes to the scrollback.
    pub open spec fn lines_deleted(self, n: int) -> ScreenModel {
        let page = self.active();
        let row = page.cursor.row as int;
        let bottom = page.scroll_bottom as int;
        if page.scroll_top <= row <= bottom {
            let count = effective(n, bottom - row + 1);
            self.with_lines(shifted_up(page.lines, row, bottom, count, self.cols as int)).marked(
                row,
                bottom + 1,
            )
        } else {
            self
        }
    }

    pub open spec fn blanks_inserted(self, n: int) -> ScreenModel {
        let col = self.cursor().col as int;
        self.with_edited_line(
            opened_up(self.active().cursor_line(), col, effective(n, self.cols - col)),
        )
    }

    pub open spec fn chars_deleted(self, n: int) -> ScreenModel {
        let col = self.cursor().col as int;
        self.with_edited_line(
            closed_up(self.active().cursor_line(), col, effective(n, self.cols - col)),
        )
    }

    pub open spec fn chars_erased(self, n: int) -> ScreenModel {
        let col = self.cursor().col as int;
        self.with_edited_line(
            erased(self.active().cursor_line(), col, col + effective(n, self.cols - col)),
        )
    }

    /// The cursor at the start of the next row, which scrolls the region if the
    /// cursor was in its last row.
    pub open spec fn wrapped(self) -> ScreenModel {
        let page = self.active();
        let start = self.with_cursor(page.cursor.at(page.cursor.row as int, 0));
        if page.cursor.row == page.scroll_bottom {
            start.scrolled_up(1, page.scroll_top as int, page.scroll_bottom as int)
        } else {
            start.with_cursor(page.cursor.at(min(page.cursor.row + 1, self.rows - 1), 0))
        }
    }

    /// Whether a character of this width does not fit in the cursor row.
    pub open spec fn needs_wrap(self, width: int) -> bool {
        width == 2 && self.cursor().col + 1 >= self.cols
    }

    /// The character written at the cursor, over two cells if it is wide and
    /// both exist.
    pub open spec fn stamped(self, ch: char, width: int) -> ScreenModel {
        let page = self.active();
        let col = page.cursor.col as int;
        let cell = styled_cell(ch, page.attrs);
        let line = page.cursor_line().update(col, cell);
        self.with_active(
            page.with_cursor_line(
                if width == 2 && col + 1 < self.cols {
                    line.update(col + 1, continuation(cell))
                } else {
                    line
                },
            ),
        )
    }

    /// The cursor behind the character just written. A wide character leaves it
    /// in the last column at most; any other character in the last column
    /// wraps.
    pub open spec fn advanced(self, width: int) -> ScreenModel {
        let cursor = self.cursor();
        if width == 2 && cursor.col + 1 < self.cols {
            self.with_cursor(
                cursor.at(cursor.row as int, min(cursor.col + 2, self.cols - 1)),
            )
        } else if cursor.col + 1 < self.cols {
            self.with_cursor(cursor.at(cursor.row as int, cursor.col + 1))
        } else {
            self.wrapped()
        }
    }

    /// A character of the given width printed. The row it was written to and the
    /// row the cursor ends in are marked.
    pub open spec fn printed(self, ch: char, width: int) -> ScreenModel {
        let start = if self.needs_wrap(width) {
            self.wrapped()
        } else {
            self
        };
        let done = start.stamped(ch, width).advanced(width);
        done.marked_row(done.cursor().row as int).marked_row(start.cursor().row as int)
    }

    /// Both pages blank and the primary one shown; the scrollback stays.
    pub open spec fn reset(self) -> ScreenModel {
        ScreenModel {
            primary: BufferModel::fresh(self.cols as int, self.rows as int),
            alternate: BufferModel::fresh(self.cols as int, self.rows as int),
            use_alternate: false,
            ..self
        }.marked_all()
    }

    pub open spec fn with_cursor_visible(self, visible: bool) -> ScreenModel {
        self.with_cursor(Cursor { visible: visible, ..self.cursor() }).marked_row(
            self.cursor().row as int,
        )
    }

    pub open spec fn with_cursor_shape(self, shape: CursorShape) -> ScreenModel {
        self.with_cursor(Cursor { shape: shape, ..self.cursor() }).marked_row(
            self.cursor().row as int,
        )
    }

    pub open spec fn with_fg(self, color: Rgb) -> ScreenModel {
        self.with_attrs(AttrState { fg: color, ..self.attrs() })
    }

    pub open spec fn with_bg(self, color: Rgb) -> ScreenModel {
        self.with_attrs(AttrState { bg: color, ..self.attrs() })
    }
}

} // verus!
