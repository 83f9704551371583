//! The screen and everything a terminal program can do to it.

use vstd::prelude::*;
use vstd::slice::slice_to_vec;

use crate::screen::buffer::Buffer;
use crate::screen::cell::{AttrState, Cell, CellFlags, Cursor, CursorShape, Rgb};
use crate::screen::model::{
    blank_line, erased_lines, keep_last, max, min, minus, next_tabstop, shifted_down, shifted_up,
    styled_cell, ScreenModel,
};
use crate::screen::scrollback::ScrollbackRing;
use crate::screen::width::{char_columns, columns, is_printable_ascii, unicode_char_width};

verus! {

/// A grid that can be stored can be stored with at least one row and column.
proof fn lemma_at_least_one_cell(rows: int, cols: int)
    requires
        0 <= rows <= usize::MAX,
        0 <= cols <= usize::MAX,
        rows * cols <= usize::MAX,
    ensures
        max(rows, 1) * max(cols, 1) <= usize::MAX,
{
    if rows == 0 {
        assert(max(rows, 1) * max(cols, 1) == max(cols, 1)) by (nonlinear_arith)
            requires
                max(rows, 1) == 1,
        ;
    } else if cols == 0 {
        assert(max(rows, 1) * max(cols, 1) == max(rows, 1)) by (nonlinear_arith)
            requires
                max(cols, 1) == 1,
        ;
    }
}

/// A primary page with scrollback, an alternate page, and a mark for every row
/// that has to be drawn again.
pub struct Screen {
    cols: usize,
    rows: usize,
    primary: Buffer,
    alternate: Buffer,
    use_alternate: bool,
    pub scrollback: ScrollbackRing,
    dirty_rows: Vec<bool>,
}

impl View for Screen {
    type V = ScreenModel;

    closed spec fn view(&self) -> ScreenModel {
        ScreenModel {
            cols: self.cols,
            rows: self.rows,
            primary: self.primary@,
            alternate: self.alternate@,
            use_alternate: self.use_alternate,
            scrollback: self.scrollback@,
            scrollback_cap: self.scrollback.capacity(),
            dirty: self.dirty_rows@,
        }
    }
}

impl Screen {
    /// The storage of both pages fits the size of the screen.
    pub closed spec fn inv(&self) -> bool {
        &&& self.primary.storage_ok()
        &&& self.primary.cols == self.cols
        &&& self.primary.rows == self.rows
        &&& self.alternate.storage_ok()
        &&& self.alternate.cols == self.cols
        &&& self.alternate.rows == self.rows
        &&& self.scrollback.wf()
    }

    /// The screen is valid, and its cells can be counted.
    pub open spec fn wf(&self) -> bool {
        &&& self.inv()
        &&& self@.wf()
        &&& self@.rows * self@.cols <= usize::MAX
    }

    /// A screen of at least one row and one column that keeps at least one line
    /// of scrollback.
    pub fn new(cols: usize, rows: usize, scrollback_lines: usize) -> (screen: Self)
        requires
            rows * cols <= usize::MAX,
        ensures
            screen.wf(),
            screen@ == ScreenModel::fresh(
                max(cols as int, 1),
                max(rows as int, 1),
                max(scrollback_lines as int, 1),
            ),
    {
        proof {
            lemma_at_least_one_cell(rows as int, cols as int);
        }
        let rows: usize = rows.max(1);
        let cols: usize = cols.max(1);
        let screen = Screen {
            cols,
            rows,
            primary: Buffer::new(cols, rows),
            alternate: Buffer::new(cols, rows),
            use_alternate: false,
            scrollback: ScrollbackRing::new(scrollback_lines),
            dirty_rows: vec![true; rows],
        };
        proof {
            assert(screen.dirty_rows@ =~= Seq::new(rows as nat, |r: int| true));
        }
        screen
    }

    fn active(&self) -> (page: &Buffer)
        requires
            self.wf(),
        ensures
            page.wf(),
            page.cols == self.cols,
            page.rows == self.rows,
            page@ == self@.active(),
    {
        if self.use_alternate {
            &self.alternate
        } else {
            &self.primary
        }
    }

    fn active_mut(&mut self) -> (page: &mut Buffer)
        requires
            old(self).wf(),
        ensures
            page.wf(),
            page.cols == old(self).cols,
            page.rows == old(self).rows,
            page@ == old(self)@.active(),
            *final(self) == (if old(self).use_alternate {
                Screen { alternate: *final(page), ..*old(self) }
            } else {
                Screen { primary: *final(page), ..*old(self) }
            }),
    {
        if self.use_alternate {
            &mut self.alternate
        } else {
            &mut self.primary
        }
    }

    pub fn cols(&self) -> (cols: usize)
        ensures
            cols == self@.cols,
    {
        self.cols
    }

    pub fn rows(&self) -> (rows: usize)
        ensures
            rows == self@.rows,
    {
        self.rows
    }

    pub fn cursor(&self) -> (cursor: Cursor)
        requires
            self.wf(),
        ensures
            cursor == self@.cursor(),
    {
        self.active().cursor
    }

    pub fn set_cursor_visible(&mut self, visible: bool)
        requires
            old(self).wf(),
        ensures
            final(self).wf(),
            final(self)@ == old(self)@.with_cursor_visible(visible),
    {
        self.active_mut().cursor.visible = visible;
        self.mark_cursor_row_dirty();
    }

    pub fn set_cursor_shape(&mut self, shape: CursorShape)
        requires
            old(self).wf(),
        ensures
            final(self).wf(),
            final(self)@ == old(self)@.with_cursor_shape(shape),
    {
        self.active_mut().cursor.shape = shape;
        self.mark_cursor_row_dirty();
    }

    fn mark_cursor_row_dirty(&mut self)
        requires
            old(self).wf(),
        ensures
            final(self).wf(),
            final(self)@ == old(self)@.marked_row(old(self)@.cursor().row as int),
    {
        let row: usize = self.active().cursor.row.min(self.rows.saturating_sub(1));
        self.mark_dirty(row);
    }

    /// Marks a row to be drawn again; a row that does not exist is ignored.
    pub fn mark_dirty(&mut self, row: usize)
        requires
            old(self).wf(),
        ensures
            final(self).wf(),
            final(self)@ == old(self)@.marked_row(row as int),
    {
        if row < self.dirty_rows.len() {
            self.dirty_rows[row] = true;
        }
        assert(self@ =~= old(self)@.marked_row(row as int));
    }

    /// Marks the rows `from..to`.
    fn mark_rows(&mut self, from: usize, to: usize)
        requires
            old(self).wf(),
        ensures
            final(self).wf(),
            final(self)@ == old(self)@.marked(from as int, to as int),
    {
        let mut row: usize = from;
        assert(self@ =~= old(self)@.marked(from as int, from as int));
        while row < to
            invariant
                self.wf(),
                from <= row,
                row <= to || row == from,
                self@ == old(self)@.marked(from as int, row as int),
            decreases to - row,
        {
            self.mark_dirty(row);
            row = row + 1;
            assert(self@ =~= old(self)@.marked(from as int, row as int));
        }
        assert(self@ =~= old(self)@.marked(from as int, to as int));
    }

    pub fn mark_all_dirty(&mut self)
        requires
            old(self).wf(),
        ensures
            final(self).wf(),
            final(self)@ == old(self)@.marked_all(),
    {
        let rows: usize = self.rows;
        self.mark_rows(0, rows);
    }

    /// The marked rows in ascending order; afterwards none is marked.
    pub fn take_dirty_rows(&mut self) -> (rows: Vec<usize>)
        requires
            old(self).wf(),
        ensures
            final(self).wf(),
            final(self)@ == (ScreenModel {
                dirty: Seq::new(old(self)@.dirty.len(), |r: int| false),
                ..old(self)@
            }),
            forall|i: int, j: int| 0 <= i < j < rows@.len() ==> rows@[i] < rows@[j],
            forall|r: usize|
                #[trigger] rows@.contains(r) <==> (r < old(self)@.dirty.len()
                    && old(self)@.dirty[r as int]),
    {
        let mut rows: Vec<usize> = Vec::with_capacity(self.rows);
        let len: usize = self.dirty_rows.len();
        let mut row: usize = 0;
        while row < len
            invariant
                row <= len,
                len == self.dirty_rows@.len(),
                len == old(self).dirty_rows@.len(),
                *self == (Screen { dirty_rows: self.dirty_rows, ..*old(self) }),
                forall|r: int| 0 <= r < row ==> !#[trigger] self.dirty_rows@[r],
                forall|r: int|
                    row <= r < len ==> #[trigger] self.dirty_rows@[r] == old(self).dirty_rows@[r],
                forall|i: int| 0 <= i < rows@.len() ==> #[trigger] rows@[i] < row,
                forall|i: int, j: int| 0 <= i < j < rows@.len() ==> rows@[i] < rows@[j],
                forall|r: usize|
                    #[trigger] rows@.contains(r) <==> (r < row && old(self).dirty_rows@[r as int]),
            decreases len - row,
        {
            if self.dirty_rows[row] {
                let ghost before = rows@;
                rows.push(row);
                self.dirty_rows[row] = false;
                assert forall|r: usize| #[trigger] rows@.contains(r) <==> (r < row + 1
                    && old(self).dirty_rows@[r as int]) by {
                    if before.contains(r) {
                        let i = before.index_of(r);
                        assert(rows@[i] == r);
                    }
                    if r == row {
                        assert(rows@[rows@.len() - 1] == r);
                    }
                    if rows@.contains(r) && r != row {
                        let i = rows@.index_of(r);
                        assert(before[i] == r);
                    }
                }
            }
            row = row + 1;
        }
        assert(self.dirty_rows@ =~= Seq::new(old(self)@.dirty.len(), |r: int| false));
        rows
    }

    pub fn line(&self, row: usize) -> (line: &[Cell])
        requires
            self.wf(),
            row < self@.rows,
        ensures
            line@ == self@.active().lines[row as int],
    {
        self.active().line(row)
    }

    pub fn scroll_region(&self) -> (region: (usize, usize))
        requires
            self.wf(),
        ensures
            region == (self@.active().scroll_top, self@.active().scroll_bottom),
    {
        let active = self.active();
        (active.scroll_top, active.scroll_bottom)
    }

    /// Changes the size of both pages. A change to the size the screen already
    /// has does nothing.
    pub fn resize(&mut self, cols: usize, rows: usize)
        requires
            old(self).wf(),
            rows * cols <= usize::MAX,
        ensures
            final(self).wf(),
            final(self)@ == old(self)@.with_size(cols as int, rows as int),
    {
        proof {
            lemma_at_least_one_cell(rows as int, cols as int);
        }
        let cols: usize = cols.max(1);
        let rows: usize = rows.max(1);
        if cols == self.cols && rows == self.rows {
            return;
        }
        self.cols = cols;
        self.rows = rows;
        self.primary.resize(cols, rows);
        self.alternate.resize(cols, rows);
        self.primary.reset_tabstops();
        self.alternate.reset_tabstops();
        self.primary.scroll_top = 0;
        self.primary.scroll_bottom = rows.saturating_sub(1);
        self.alternate.scroll_top = 0;
        self.alternate.scroll_bottom = rows.saturating_sub(1);
        self.dirty_rows = vec![true; rows];
        assert(self.dirty_rows@ =~= Seq::new(rows as nat, |r: int| true));
    }

    /// Shows the alternate or the primary page.
    pub fn set_alt_screen(&mut self, enable: bool)
        requires
            old(self).wf(),
        ensures
            final(self).wf(),
            final(self)@ == old(self)@.switched(enable),
    {
        if self.use_alternate == enable {
            return;
        }
        self.use_alternate = enable;
        if enable {
            self.alternate.clear_all();
            self.alternate.cursor = Cursor::default();
            self.alternate.attrs = AttrState::default();
            self.alternate.scroll_top = 0;
            self.alternate.scroll_bottom = self.rows.saturating_sub(1);
        }
        self.mark_all_dirty();
    }

    pub fn save_cursor(&mut self)
        requires
            old(self).wf(),
        ensures
            final(self).wf(),
            final(self)@ == old(self)@.with_saved_cursor(),
    {
        let active = self.active_mut();
        active.saved_cursor = active.cursor;
        active.saved_attrs = active.attrs;
    }

    pub fn restore_cursor(&mut self)
        requires
            old(self).wf(),
        ensures
            final(self).wf(),
            final(self)@ == old(self)@.with_restored_cursor(),
    {
        let active = self.active_mut();
        active.cursor = active.saved_cursor;
        active.attrs = active.saved_attrs;
        active.clamp_cursor();
        self.mark_cursor_row_dirty();
    }

    /// Moves the cursor, as far as the screen reaches.
    pub fn set_cursor(&mut self, row: usize, col: usize)
        requires
            old(self).wf(),
        ensures
            final(self).wf(),
            final(self)@ == old(self)@.moved_to(
                min(row as int, old(self)@.rows - 1),
                min(col as int, old(self)@.cols - 1),
            ),
    {
        let max_row: usize = self.rows.saturating_sub(1);
        let max_col: usize = self.cols.saturating_sub(1);
        let active = self.active_mut();
        active.cursor.row = row.min(max_row);
        active.cursor.col = col.min(max_col);
        self.mark_cursor_row_dirty();
    }

    pub fn cursor_up(&mut self, n: usize)
        requires
            old(self).wf(),
        ensures
            final(self).wf(),
            final(self)@ == old(self)@.moved_to(
                minus(old(self)@.cursor().row as int, n as int),
                old(self)@.cursor().col as int,
            ),
    {
        let active = self.active_mut();
        active.cursor.row = active.cursor.row.saturating_sub(n);
        self.mark_cursor_row_dirty();
    }

    pub fn cursor_down(&mut self, n: usize)
        requires
            old(self).wf(),
        ensures
            final(self).wf(),
            final(self)@ == old(self)@.moved_to(
                min(old(self)@.cursor().row + n, old(self)@.rows - 1),
                old(self)@.cursor().col as int,
            ),
    {
        let max_row: usize = self.rows.saturating_sub(1);
        let active = self.active_mut();
        active.cursor.row = active.cursor.row.saturating_add(n).min(max_row);
        self.mark_cursor_row_dirty();
    }

    pub fn cursor_forward(&mut self, n: usize)
        requires
            old(self).wf(),
        ensures
            final(self).wf(),
            final(self)@ == old(self)@.moved_to(
                old(self)@.cursor().row as int,
                min(old(self)@.cursor().col + n, old(self)@.cols - 1),
            ),
    {
        let max_col: usize = self.cols.saturating_sub(1);
        let active = self.active_mut();
        active.cursor.col = active.cursor.col.saturating_add(n).min(max_col);
        self.mark_cursor_row_dirty();
    }

    pub fn cursor_back(&mut self, n: usize)
        requires
            old(self).wf(),
        ensures
            final(self).wf(),
            final(self)@ == old(self)@.moved_to(
                old(self)@.cursor().row as int,
                minus(old(self)@.cursor().col as int, n as int),
            ),
    {
        let active = self.active_mut();
        active.cursor.col = active.cursor.col.saturating_sub(n);
        self.mark_cursor_row_dirty();
    }

    pub fn carriage_return(&mut self)
        requires
            old(self).wf(),
        ensures
            final(self).wf(),
            final(self)@ == old(self)@.moved_to(old(self)@.cursor().row as int, 0),
    {
        self.active_mut().cursor.col = 0;
        self.mark_cursor_row_dirty();
    }

    pub fn backspace(&mut self)
        requires
            old(self).wf(),
        ensures
            final(self).wf(),
            final(self)@ == old(self)@.moved_to(
                old(self)@.cursor().row as int,
                minus(old(self)@.cursor().col as int, 1),
            ),
    {
        let active = self.active_mut();
        active.cursor.col = active.cursor.col.saturating_sub(1);
        self.mark_cursor_row_dirty();
    }

    pub fn line_feed(&mut self)
        requires
            old(self).wf(),
        ensures
            final(self).wf(),
            final(self)@ == old(self)@.line_fed(),
    {
        let active = self.active();
        let row: usize = active.cursor.row;
        let scroll_top: usize = active.scroll_top;
        let scroll_bottom: usize = active.scroll_bottom;
        if row == scroll_bottom {
            self.scroll_up(1, scroll_top, scroll_bottom);
        } else {
            let max_row: usize = self.rows.saturating_sub(1);
            self.active_mut().cursor.row = (row + 1).min(max_row);
            self.mark_cursor_row_dirty();
        }
    }

    pub fn reverse_index(&mut self)
        requires
            old(self).wf(),
        ensures
            final(self).wf(),
            final(self)@ == old(self)@.reverse_indexed(),
    {
        let active = self.active();
        let row: usize = active.cursor.row;
        let scroll_top: usize = active.scroll_top;
        let scroll_bottom: usize = active.scroll_bottom;
        if row == scroll_top {
            self.scroll_down(1, scroll_top, scroll_bottom);
        } else {
            self.active_mut().cursor.row = row.saturating_sub(1);
            self.mark_cursor_row_dirty();
        }
    }

    pub fn tab(&mut self)
        requires
            old(self).wf(),
        ensures
            final(self).wf(),
            final(self)@ == old(self)@.tabbed(),
    {
        let active = self.active();
        let start: usize = active.cursor.col + 1;
        let mut col: usize = start;
        while col < self.cols && !active.tabstops[col]
            invariant
                start <= col <= self.cols,
                active@.tabstops.len() == self.cols,
                next_tabstop(active@.tabstops, start as int) == next_tabstop(
                    active@.tabstops,
                    col as int,
                ),
            decreases self.cols - col,
        {
            col = col + 1;
        }
        let next_col: usize = col.min(self.cols.saturating_sub(1));
        self.active_mut().cursor.col = next_col;
        self.mark_cursor_row_dirty();
    }

    /// Confines scrolling to the rows `top_1` to `bottom_1`, counted from one,
    /// and moves the cursor to the start of the first of them. A region of
    /// fewer than two rows is ignored.
    pub fn set_scroll_region(&mut self, top_1: usize, bottom_1: usize)
        requires
            old(self).wf(),
        ensures
            final(self).wf(),
            final(self)@ == old(self)@.with_scroll_region(top_1 as int, bottom_1 as int),
    {
        let top: usize = top_1.saturating_sub(1).min(self.rows.saturating_sub(1));
        let bottom: usize = bottom_1.saturating_sub(1).min(self.rows.saturating_sub(1));
        if top < bottom {
            let active = self.active_mut();
            active.scroll_top = top;
            active.scroll_bottom = bottom;
            active.cursor.row = top;
            active.cursor.col = 0;
            self.mark_all_dirty();
        }
    }

    pub fn reset_scroll_region(&mut self)
        requires
            old(self).wf(),
        ensures
            final(self).wf(),
            final(self)@ == old(self)@.with_full_scroll_region(),
    {
        let bottom: usize = self.rows.saturating_sub(1);
        let active = self.active_mut();
        active.scroll_top = 0;
        active.scroll_bottom = bottom;
    }

    /// Scrolls the rows `top..=bottom` up by `n`, at least by one. When that is
    /// the whole primary page, the lines that leave go to the scrollback.
    pub fn scroll_up(&mut self, n: usize, top: usize, bottom: usize)
        requires
            old(self).wf(),
            top <= bottom < old(self)@.rows,
        ensures
            final(self).wf(),
            final(self)@ == old(self)@.scrolled_up(n as int, top as int, bottom as int),
    {
        let count: usize = n.max(1).min(bottom.saturating_sub(top) + 1);
        let push_to_scrollback: bool = !self.use_alternate && top == 0 && bottom
            == self.rows.saturating_sub(1);
        let ghost before = self@;
        let ghost lines = self@.active().lines;
        let ghost cap = self@.scrollback_cap as int;
        let cols: usize = self.cols;
        let mut done: usize = 0;
        proof {
            assert(lines =~= shifted_up(lines, top as int, bottom as int, 0, cols as int));
            assert(before.scrollback + lines.take(0) =~= before.scrollback);
            assert(before =~= before.with_lines(lines));
        }
        while done < count
            invariant
                self.wf(),
                before.wf(),
                before == old(self)@,
                lines == before.active().lines,
                cap == before.scrollback_cap,
                cols == before.cols,
                top <= bottom < before.rows,
                done <= count <= bottom - top + 1,
                push_to_scrollback == (!before.use_alternate && top == 0 && bottom == before.rows
                    - 1),
                self@ == (ScreenModel {
                    scrollback: if push_to_scrollback {
                        keep_last(before.scrollback + lines.take(done as int), cap)
                    } else {
                        before.scrollback
                    },
                    ..before.with_lines(
                        shifted_up(lines, top as int, bottom as int, done as int, cols as int),
                    )
                }),
            decreases count - done,
        {
            let ghost now = self@.active().lines;
            if push_to_scrollback {
                let removed: Vec<Cell> = slice_to_vec(self.active().line(top));
                self.active_mut().shift_up(top, bottom);
                self.scrollback.push(removed);
                proof {
                    self.scrollback.lemma_bounds();
                    assert(removed@ == lines[done as int]);
                    let all = before.scrollback + lines.take(done as int);
                    assert(all.push(removed@) =~= before.scrollback + lines.take(done + 1));
                    assert(keep_last(keep_last(all, cap).push(removed@), cap) =~= keep_last(
                        all.push(removed@),
                        cap,
                    ));
                }
            } else {
                self.active_mut().shift_up(top, bottom);
            }
            done = done + 1;
            proof {
                assert(shifted_up(now, top as int, bottom as int, 1, cols as int) =~= shifted_up(
                    lines,
                    top as int,
                    bottom as int,
                    done as int,
                    cols as int,
                ));
                assert(self@.active().lines =~= shifted_up(
                    lines,
                    top as int,
                    bottom as int,
                    done as int,
                    cols as int,
                ));
            }
        }
        self.mark_rows(top, bottom + 1);
    }

    /// Scrolls the rows `top..=bottom` down by `n`, at least by one.
    pub fn scroll_down(&mut self, n: usize, top: usize, bottom: usize)
        requires
            old(self).wf(),
            top <= bottom < old(self)@.rows,
        ensures
            final(self).wf(),
            final(self)@ == old(self)@.scrolled_down(n as int, top as int, bottom as int),
    {
        let count: usize = n.max(1).min(bottom.saturating_sub(top) + 1);
        let ghost before = self@;
        let ghost lines = self@.active().lines;
        let cols: usize = self.cols;
        let mut done: usize = 0;
        proof {
            assert(lines =~= shifted_down(lines, top as int, bottom as int, 0, cols as int));
            assert(before =~= before.with_lines(lines));
        }
        while done < count
            invariant
                self.wf(),
                before.wf(),
                before == old(self)@,
                lines == before.active().lines,
                cols == before.cols,
                top <= bottom < before.rows,
                done <= count <= bottom - top + 1,
                self@ == before.with_lines(
                    shifted_down(lines, top as int, bottom as int, done as int, cols as int),
                ),
            decreases count - done,
        {
            let ghost now = self@.active().lines;
            self.active_mut().shift_down(top, bottom);
            done = done + 1;
            proof {
                assert(shifted_down(now, top as int, bottom as int, 1, cols as int)
                    =~= shifted_down(lines, top as int, bottom as int, done as int, cols as int));
            }
        }
        self.mark_rows(top, bottom + 1);
    }

    /// Erases the rows `from..to` and marks them.
    fn erase_rows(&mut self, from: usize, to: usize)
        requires
            old(self).wf(),
            to <= old(self)@.rows,
        ensures
            final(self).wf(),
            final(self)@ == old(self)@.rows_erased(from as int, to as int),
    {
        let ghost before = self@;
        let ghost lines = self@.active().lines;
        let cols: usize = self.cols;
        let mut row: usize = from;
        proof {
            assert(lines =~= erased_lines(lines, from as int, from as int, cols as int));
            assert(before =~= before.with_lines(lines));
        }
        while row < to
            invariant
                self.wf(),
                before.wf(),
                before == old(self)@,
                lines == before.active().lines,
                cols == before.cols,
                to <= before.rows,
                from <= row,
                row <= to || row == from,
                self@ == before.with_lines(
                    erased_lines(lines, from as int, row as int, cols as int),
                ),
            decreases to - row,
        {
            let ghost now = self@.active().lines;
            self.active_mut().clear_row(row);
            row = row + 1;
            proof {
                assert(now.update(row - 1, blank_line(cols as int)) =~= erased_lines(
                    lines,
                    from as int,
                    row as int,
                    cols as int,
                ));
            }
        }
        assert(erased_lines(lines, from as int, row as int, cols as int) =~= erased_lines(
            lines,
            from as int,
            to as int,
            cols as int,
        ));
        self.mark_rows(from, to);
    }

    pub fn erase_in_display(&mut self, mode: usize)
        requires
            old(self).wf(),
        ensures
            final(self).wf(),
            final(self)@ == old(self)@.display_erased(mode as int),
    {
        let cursor_row: usize = self.active().cursor.row;
        let rows: usize = self.rows;
        match mode {
            0 => {
                self.erase_in_line(0);
                self.erase_rows(cursor_row + 1, rows);
            },
            1 => {
                self.erase_in_line(1);
                self.erase_rows(0, cursor_row);
            },
            2 | 3 => {
                self.erase_rows(0, rows);
            },
            _ => {},
        }
    }

    pub fn erase_in_line(&mut self, mode: usize)
        requires
            old(self).wf(),
        ensures
            final(self).wf(),
            final(self)@ == old(self)@.line_erased(mode as int),
    {
        let row: usize = self.active().cursor.row;
        let col: usize = self.active().cursor.col;
        let cols: usize = self.cols;
        match mode {
            0 => self.active_mut().erase_cells(row, col, cols),
            1 => self.active_mut().erase_cells(row, 0, col + 1),
            2 => self.active_mut().erase_cells(row, 0, cols),
            _ => {
                proof {
                    let page = self@.active();
                    assert(page.lines.update(row as int, page.cursor_line()) =~= page.lines);
                    assert(self@ =~= self@.with_active(page.with_cursor_line(page.cursor_line())));
                }
            },
        }
        self.mark_dirty(row);
    }

    /// Puts blank lines in at the cursor; lines below move down within the
    /// scroll region.
    pub fn insert_lines(&mut self, n: usize)
        requires
            old(self).wf(),
        ensures
            final(self).wf(),
            final(self)@ == old(self)@.lines_inserted(n as int),
    {
        let active = self.active();
        let top: usize = active.scroll_top;
        let bottom: usize = active.scroll_bottom;
        let row: usize = active.cursor.row;
        if row < top || row > bottom {
            return;
        }
        self.scroll_down(n, row, bottom);
    }

    /// Takes lines out at the cursor; lines below move up within the scroll
    /// region.
    pub fn delete_lines(&mut self, n: usize)
        requires
            old(self).wf(),
        ensures
            final(self).wf(),
            final(self)@ == old(self)@.lines_deleted(n as int),
    {
        let active = self.active();
        let top: usize = active.scroll_top;
        let bottom: usize = active.scroll_bottom;
        let row: usize = active.cursor.row;
        if row < top || row > bottom {
            return;
        }
        let count: usize = n.max(1).min(bottom - row + 1);
        let ghost before = self@;
        let ghost lines = self@.active().lines;
        let cols: usize = self.cols;
        let mut done: usize = 0;
        proof {
            assert(lines =~= shifted_up(lines, row as int, bottom as int, 0, cols as int));
            assert(before =~= before.with_lines(lines));
        }
        while done < count
            invariant
                self.wf(),
                before.wf(),
                before == old(self)@,
                lines == before.active().lines,
                cols == before.cols,
                row <= bottom < before.rows,
                done <= count <= bottom - row + 1,
                self@ == before.with_lines(
                    shifted_up(lines, row as int, bottom as int, done as int, cols as int),
                ),
            decreases count - done,
        {
            let ghost now = self@.active().lines;
            self.active_mut().shift_up(row, bottom);
            done = done + 1;
            proof {
                assert(shifted_up(now, row as int, bottom as int, 1, cols as int) =~= shifted_up(
                    lines,
                    row as int,
                    bottom as int,
                    done as int,
                    cols as int,
                ));
            }
        }
        self.mark_rows(row, bottom + 1);
    }

    /// Puts blank cells in at the cursor.
    pub fn insert_blank_chars(&mut self, n: usize)
        requires
            old(self).wf(),
        ensures
            final(self).wf(),
            final(self)@ == old(self)@.blanks_inserted(n as int),
    {
        let row: usize = self.active().cursor.row;
        let col: usize = self.active().cursor.col;
        let count: usize = n.max(1).min(self.cols - col);
        self.active_mut().open_up(row, col, count);
        self.mark_dirty(row);
    }

    /// Takes cells out at the cursor.
    pub fn delete_chars(&mut self, n: usize)
        requires
            old(self).wf(),
        ensures
            final(self).wf(),
            final(self)@ == old(self)@.chars_deleted(n as int),
    {
        let row: usize = self.active().cursor.row;
        let col: usize = self.active().cursor.col;
        let count: usize = n.max(1).min(self.cols - col);
        self.active_mut().close_up(row, col, count);
        self.mark_dirty(row);
    }

    /// Erases cells from the cursor on.
    pub fn erase_chars(&mut self, n: usize)
        requires
            old(self).wf(),
        ensures
            final(self).wf(),
            final(self)@ == old(self)@.chars_erased(n as int),
    {
        let row: usize = self.active().cursor.row;
        let col: usize = self.active().cursor.col;
        let count: usize = n.max(1).min(self.cols - col);
        self.active_mut().erase_cells(row, col, col + count);
        self.mark_dirty(row);
    }

    /// The blank that the current attributes print.
    fn current_cell_template(&self) -> (cell: Cell)
        requires
            self.wf(),
        ensures
            cell == styled_cell(' ', self@.attrs()),
    {
        let attrs: AttrState = self.active().attrs;
        let bold: u8 = if attrs.bold {
            CellFlags::bold().bits
        } else {
            0
        };
        let italic: u8 = if attrs.italic {
            CellFlags::italic().bits
        } else {
            0
        };
        let underline: u8 = if attrs.underline {
            CellFlags::underline().bits
        } else {
            0
        };
        let inverse: u8 = if attrs.inverse {
            CellFlags::inverse().bits
        } else {
            0
        };
        let flags = CellFlags { bits: bold | italic | underline | inverse };
        if attrs.inverse {
            Cell { ch: ' ', fg: attrs.bg, bg: attrs.fg, flags }
        } else {
            Cell { ch: ' ', fg: attrs.fg, bg: attrs.bg, flags }
        }
    }

    /// Moves the cursor to the start of the next row and scrolls if it was in
    /// the last row of the scroll region.
    fn wrap_line(&mut self)
        requires
            old(self).wf(),
        ensures
            final(self).wf(),
            final(self)@ == old(self)@.wrapped(),
    {
        let row: usize = self.active().cursor.row;
        let scroll_top: usize = self.active().scroll_top;
        let scroll_bottom: usize = self.active().scroll_bottom;
        self.active_mut().cursor.col = 0;
        if row == scroll_bottom {
            self.scroll_up(1, scroll_top, scroll_bottom);
        } else {
            let max_row: usize = self.rows.saturating_sub(1);
            self.active_mut().cursor.row = (row + 1).min(max_row);
        }
    }

    /// Prints a character at the cursor with the current attributes, in as many
    /// columns as it takes.
    pub fn put_char(&mut self, ch: char)
        requires
            old(self).wf(),
        ensures
            final(self).wf(),
            final(self)@ == old(self)@.printed(ch, columns(unicode_char_width(ch))),
            is_printable_ascii(ch) ==> final(self)@ == old(self)@.printed(ch, 1),
    {
        let width: usize = char_columns(ch);
        self.put_char_of_width(ch, width);
    }

    /// Writes a character at the cursor.
    fn stamp(&mut self, ch: char, width: usize)
        requires
            old(self).wf(),
        ensures
            final(self).wf(),
            final(self)@ == old(self)@.stamped(ch, width as int),
    {
        let mut cell: Cell = self.current_cell_template();
        cell.ch = ch;
        let row: usize = self.active().cursor.row;
        let col: usize = self.active().cursor.col;
        self.active_mut().set_cell(row, col, cell);
        if width == 2 && col + 1 < self.cols {
            let cont = Cell {
                ch: ' ',
                fg: cell.fg,
                bg: cell.bg,
                flags: cell.flags.union(CellFlags::wide_cont()),
            };
            self.active_mut().set_cell(row, col + 1, cont);
        }
        proof {
            assert(self@.active().lines =~= old(self)@.stamped(ch, width as int).active().lines);
        }
    }

    /// Moves the cursor behind the character just written.
    fn advance_cursor(&mut self, width: usize)
        requires
            old(self).wf(),
        ensures
            final(self).wf(),
            final(self)@ == old(self)@.advanced(width as int),
    {
        let col: usize = self.active().cursor.col;
        if width == 2 && col + 1 < self.cols {
            let next_col: usize = (col + 2).min(self.cols.saturating_sub(1));
            self.active_mut().cursor.col = next_col;
        } else if col + 1 < self.cols {
            self.active_mut().cursor.col = col + 1;
        } else {
            self.wrap_line();
        }
    }

    /// Prints a character of the given width.
    pub fn put_char_of_width(&mut self, ch: char, width: usize)
        requires
            old(self).wf(),
        ensures
            final(self).wf(),
            final(self)@ == old(self)@.printed(ch, width as int),
    {
        if width == 2 && self.active().cursor.col + 1 >= self.cols {
            self.wrap_line();
        }
        let row: usize = self.active().cursor.row;
        self.stamp(ch, width);
        self.advance_cursor(width);
        let cursor_row: usize = self.active().cursor.row;
        self.mark_dirty(cursor_row);
        self.mark_dirty(row);
    }

    pub fn set_fg(&mut self, color: Rgb)
        requires
            old(self).wf(),
        ensures
            final(self).wf(),
            final(self)@ == old(self)@.with_fg(color),
    {
        self.active_mut().attrs.fg = color;
    }

    pub fn set_bg(&mut self, color: Rgb)
        requires
            old(self).wf(),
        ensures
            final(self).wf(),
            final(self)@ == old(self)@.with_bg(color),
    {
        self.active_mut().attrs.bg = color;
    }

    pub fn reset_attrs(&mut self)
        requires
            old(self).wf(),
        ensures
            final(self).wf(),
            final(self)@ == old(self)@.with_attrs(AttrState::plain()),
    {
        self.active_mut().attrs = AttrState::default();
    }

    /// The current attributes, to be changed in place.
    pub fn attrs_mut(&mut self) -> (attrs: &mut AttrState)
        requires
            old(self).wf(),
        ensures
            *attrs == old(self)@.attrs(),
            final(self).wf(),
            final(self)@ == old(self)@.with_attrs(*final(attrs)),
    {
        &mut self.active_mut().attrs
    }

    /// Blanks both pages and shows the primary one.
    pub fn reset(&mut self)
        requires
            old(self).wf(),
        ensures
            final(self).wf(),
            final(self)@ == old(self)@.reset(),
    {
        assert(self.primary.cells.len() == self.rows * self.cols);
        self.primary = Buffer::new(self.cols, self.rows);
        self.alternate = Buffer::new(self.cols, self.rows);
        self.use_alternate = false;
        self.mark_all_dirty();
    }
}

} // verus!
