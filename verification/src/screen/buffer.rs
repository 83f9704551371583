//! One page of the screen: flat cell storage behind a map of rows.

use vstd::arithmetic::mul::{lemma_mul_inequality, lemma_mul_is_distributive_add_other_way};
use vstd::prelude::*;

use crate::screen::cell::{AttrState, Cell, Cursor};
use crate::screen::model::{
    blank_line, blank_lines, closed_up, default_tabstops, erased, min, opened_up, resized_lines,
    shifted_down, shifted_up, BufferModel,
};

verus! {

/// Where a physical row starts in the flat storage.
pub open spec fn row_start(physical_row: int, cols: int) -> int {
    physical_row * cols
}

/// The lines that the flat storage holds, in the order of the row map.
pub open spec fn grid(cells: Seq<Cell>, row_map: Seq<usize>, cols: int) -> Seq<Seq<Cell>> {
    Seq::new(
        row_map.len(),
        |r: int|
            cells.subrange(
                row_start(row_map[r] as int, cols),
                row_start(row_map[r] as int, cols) + cols,
            ),
    )
}

/// Every logical row has a physical row of its own.
pub open spec fn row_map_ok(row_map: Seq<usize>, rows: int) -> bool {
    &&& row_map.len() == rows
    &&& forall|r: int| 0 <= r < rows ==> 0 <= #[trigger] row_map[r] < rows
    &&& forall|r: int, s: int|
        0 <= r < rows && 0 <= s < rows && r != s ==> #[trigger] row_map[r] != #[trigger] row_map[s]
}

proof fn lemma_row_bounds(physical_row: int, cols: int, rows: int)
    requires
        0 <= physical_row < rows,
        0 <= cols,
    ensures
        0 <= row_start(physical_row, cols),
        row_start(physical_row, cols) + cols <= rows * cols,
{
    lemma_mul_inequality(0, physical_row, cols);
    lemma_mul_inequality(physical_row + 1, rows, cols);
    lemma_mul_is_distributive_add_other_way(cols, physical_row, 1);
}

proof fn lemma_rows_apart(p: int, q: int, cols: int)
    requires
        p != q,
        0 <= cols,
    ensures
        row_start(p, cols) + cols <= row_start(q, cols) || row_start(q, cols) + cols <= row_start(
            p,
            cols,
        ),
{
    if p < q {
        lemma_mul_inequality(p + 1, q, cols);
        lemma_mul_is_distributive_add_other_way(cols, p, 1);
    } else {
        lemma_mul_inequality(q + 1, p, cols);
        lemma_mul_is_distributive_add_other_way(cols, q, 1);
    }
}

/// A change within one physical row changes one line of the grid.
proof fn lemma_grid_frame(
    before: Seq<Cell>,
    after: Seq<Cell>,
    row_map: Seq<usize>,
    cols: int,
    rows: int,
    row: int,
)
    requires
        row_map_ok(row_map, rows),
        0 <= row < rows,
        0 <= cols,
        before.len() == rows * cols,
        after.len() == before.len(),
        forall|i: int|
            0 <= i < before.len() && !(row_start(row_map[row] as int, cols) <= i < row_start(
                row_map[row] as int,
                cols,
            ) + cols) ==> after[i] == before[i],
    ensures
        grid(after, row_map, cols) == grid(before, row_map, cols).update(
            row,
            after.subrange(
                row_start(row_map[row] as int, cols),
                row_start(row_map[row] as int, cols) + cols,
            ),
        ),
{
    let lhs = grid(after, row_map, cols);
    let rhs = grid(before, row_map, cols).update(
        row,
        after.subrange(
            row_start(row_map[row] as int, cols),
            row_start(row_map[row] as int, cols) + cols,
        ),
    );
    assert forall|r: int| 0 <= r < rows implies lhs[r] == rhs[r] by {
        lemma_row_bounds(row_map[r] as int, cols, rows);
        if r != row {
            lemma_rows_apart(row_map[r] as int, row_map[row] as int, cols);
            assert(lhs[r] =~= rhs[r]);
        }
    }
    assert(lhs =~= rhs);
}

/// `rows` with the entries `top..=bottom` moved up by one, the first one behind
/// the others.
pub open spec fn rotated_up<T>(rows: Seq<T>, top: int, bottom: int) -> Seq<T> {
    Seq::new(
        rows.len(),
        |r: int|
            if top <= r < bottom {
                rows[r + 1]
            } else if r == bottom {
                rows[top]
            } else {
                rows[r]
            },
    )
}

/// `rows` with the entries `top..=bottom` moved down by one, the last one before
/// the others.
pub open spec fn rotated_down<T>(rows: Seq<T>, top: int, bottom: int) -> Seq<T> {
    Seq::new(
        rows.len(),
        |r: int|
            if top < r <= bottom {
                rows[r - 1]
            } else if r == top {
                rows[bottom]
            } else {
                rows[r]
            },
    )
}

/// A page: cells in one flat vector, and for each row its place there.
pub struct Buffer {
    pub cols: usize,
    pub rows: usize,
    pub cells: Vec<Cell>,
    pub row_map: Vec<usize>,
    pub tabstops: Vec<bool>,
    pub cursor: Cursor,
    pub saved_cursor: Cursor,
    pub attrs: AttrState,
    pub saved_attrs: AttrState,
    pub scroll_top: usize,
    pub scroll_bottom: usize,
}

impl View for Buffer {
    type V = BufferModel;

    open spec fn view(&self) -> BufferModel {
        BufferModel {
            lines: grid(self.cells@, self.row_map@, self.cols as int),
            tabstops: self.tabstops@,
            cursor: self.cursor,
            saved_cursor: self.saved_cursor,
            attrs: self.attrs,
            saved_attrs: self.saved_attrs,
            scroll_top: self.scroll_top,
            scroll_bottom: self.scroll_bottom,
        }
    }
}

impl Buffer {
    /// The storage has the right size and the row map is one to one.
    pub open spec fn storage_ok(&self) -> bool {
        &&& self.cols >= 1
        &&& self.rows >= 1
        &&& self.cells@.len() == self.rows * self.cols
        &&& row_map_ok(self.row_map@, self.rows as int)
    }

    pub open spec fn wf(&self) -> bool {
        &&& self.storage_ok()
        &&& self@.wf(self.cols as int, self.rows as int)
    }

    pub fn new(cols: usize, rows: usize) -> (page: Self)
        requires
            cols >= 1,
            rows >= 1,
            rows * cols <= usize::MAX,
        ensures
            page.wf(),
            page.cols == cols,
            page.rows == rows,
            page@ == BufferModel::fresh(cols as int, rows as int),
    {
        let mut tabstops: Vec<bool> = Vec::with_capacity(cols);
        let mut col: usize = 0;
        while col < cols
            invariant
                col <= cols,
                tabstops@ =~= default_tabstops(cols as int).take(col as int),
            decreases cols - col,
        {
            tabstops.push(col % 8 == 0);
            col = col + 1;
        }
        let mut row_map: Vec<usize> = Vec::with_capacity(rows);
        let mut row: usize = 0;
        while row < rows
            invariant
                row <= rows,
                row_map@.len() == row,
                forall|r: int| 0 <= r < row ==> #[trigger] row_map@[r] == r,
            decreases rows - row,
        {
            row_map.push(row);
            row = row + 1;
        }
        let cells: Vec<Cell> = vec![Cell::blank(); rows * cols];
        let page = Buffer {
            cols,
            rows,
            cells,
            row_map,
            tabstops,
            cursor: Cursor::default(),
            saved_cursor: Cursor::default(),
            attrs: AttrState::default(),
            saved_attrs: AttrState::default(),
            scroll_top: 0,
            scroll_bottom: rows.saturating_sub(1),
        };
        proof {
            assert(tabstops@ =~= default_tabstops(cols as int));
            assert forall|r: int| 0 <= r < rows implies page@.lines[r] == blank_line(
                cols as int,
            ) by {
                lemma_row_bounds(r, cols as int, rows as int);
                assert(page@.lines[r] =~= blank_line(cols as int));
            }
            assert(page@.lines =~= blank_lines(cols as int, rows as int));
        }
        page
    }

    /// Puts a tab stop in every eighth column.
    pub fn reset_tabstops(&mut self)
        requires
            old(self).tabstops@.len() == old(self).cols,
        ensures
            final(self).tabstops@ == default_tabstops(old(self).cols as int),
            *final(self) == (Buffer { tabstops: final(self).tabstops, ..*old(self) }),
    {
        let mut col: usize = 0;
        while col < self.cols
            invariant
                col <= self.cols,
                self.tabstops@.len() == self.cols,
                *self == (Buffer { tabstops: self.tabstops, ..*old(self) }),
                forall|c: int| 0 <= c < col ==> #[trigger] self.tabstops@[c] == (c % 8 == 0),
            decreases self.cols - col,
        {
            self.tabstops[col] = col % 8 == 0;
            col = col + 1;
        }
        assert(self.tabstops@ =~= default_tabstops(self.cols as int));
    }

    /// The index of a cell in the flat storage.
    pub fn cell_index(&self, row: usize, col: usize) -> (index: usize)
        requires
            self.storage_ok(),
            row < self.rows,
            col < self.cols,
        ensures
            index == row_start(self.row_map@[row as int] as int, self.cols as int) + col,
            index < self.cells@.len(),
    {
        let physical_row: usize = self.row_map[row];
        proof {
            assert(self.cells.len() <= usize::MAX);
            lemma_row_bounds(physical_row as int, self.cols as int, self.rows as int);
        }
        physical_row * self.cols + col
    }

    pub fn line(&self, row: usize) -> (line: &[Cell])
        requires
            self.wf(),
            row < self.rows,
        ensures
            line@ == self@.lines[row as int],
    {
        let start: usize = self.cell_index(row, 0);
        proof {
            assert(self.cells.len() <= usize::MAX);
            lemma_row_bounds(
                self.row_map@[row as int] as int,
                self.cols as int,
                self.rows as int,
            );
        }
        &self.cells[start..start + self.cols]
    }

    pub fn cell(&self, row: usize, col: usize) -> (cell: Cell)
        requires
            self.wf(),
            row < self.rows,
            col < self.cols,
        ensures
            cell == self@.lines[row as int][col as int],
    {
        let index: usize = self.cell_index(row, col);
        proof {
            lemma_row_bounds(
                self.row_map@[row as int] as int,
                self.cols as int,
                self.rows as int,
            );
        }
        self.cells[index]
    }

    pub fn set_cell(&mut self, row: usize, col: usize, cell: Cell)
        requires
            old(self).wf(),
            row < old(self).rows,
            col < old(self).cols,
        ensures
            final(self).wf(),
            final(self).cols == old(self).cols,
            final(self).rows == old(self).rows,
            final(self)@ == (BufferModel {
                lines: old(self)@.lines.update(
                    row as int,
                    old(self)@.lines[row as int].update(col as int, cell),
                ),
                ..old(self)@
            }),
    {
        let index: usize = self.cell_index(row, col);
        self.cells[index] = cell;
        proof {
            let cols = self.cols as int;
            let start = row_start(self.row_map@[row as int] as int, cols);
            lemma_row_bounds(self.row_map@[row as int] as int, cols, self.rows as int);
            lemma_grid_frame(
                old(self).cells@,
                self.cells@,
                self.row_map@,
                cols,
                self.rows as int,
                row as int,
            );
            assert(self.cells@.subrange(start, start + cols)
                =~= old(self)@.lines[row as int].update(col as int, cell));
        }
    }

    /// Erases the columns `from..to` of a row.
    pub fn erase_cells(&mut self, row: usize, from: usize, to: usize)
        requires
            old(self).wf(),
            row < old(self).rows,
            to <= old(self).cols,
        ensures
            final(self).wf(),
            final(self).cols == old(self).cols,
            final(self).rows == old(self).rows,
            final(self)@ == (BufferModel {
                lines: old(self)@.lines.update(
                    row as int,
                    erased(old(self)@.lines[row as int], from as int, to as int),
                ),
                ..old(self)@
            }),
    {
        let ghost lines = self@.lines;
        let ghost line = lines[row as int];
        let mut col: usize = from;
        assert(lines =~= lines.update(row as int, erased(line, from as int, from as int))) by {
            assert(line =~= erased(line, from as int, from as int));
        }
        while col < to
            invariant
                self.wf(),
                self.cols == old(self).cols,
                self.rows == old(self).rows,
                row < self.rows,
                to <= self.cols,
                from <= col,
                col <= to || col == from,
                lines == old(self)@.lines,
                lines.len() == self.rows,
                line == lines[row as int],
                line.len() == self.cols,
                self@ == (BufferModel {
                    lines: lines.update(row as int, erased(line, from as int, col as int)),
                    ..old(self)@
                }),
            decreases to - col,
        {
            self.set_cell(row, col, Cell::blank());
            col = col + 1;
            proof {
                assert(erased(line, from as int, col as int) =~= erased(
                    line,
                    from as int,
                    col - 1,
                ).update(col - 1, Cell::blank()));
                assert(self@.lines =~= lines.update(
                    row as int,
                    erased(line, from as int, col as int),
                ));
            }
        }
        assert(erased(line, from as int, col as int) =~= erased(line, from as int, to as int));
    }

    /// Puts `count` erased cells in at `col`.
    pub fn open_up(&mut self, row: usize, col: usize, count: usize)
        requires
            old(self).wf(),
            row < old(self).rows,
            col + count <= old(self).cols,
        ensures
            final(self).wf(),
            final(self).cols == old(self).cols,
            final(self).rows == old(self).rows,
            final(self)@ == (BufferModel {
                lines: old(self)@.lines.update(
                    row as int,
                    opened_up(old(self)@.lines[row as int], col as int, count as int),
                ),
                ..old(self)@
            }),
    {
        let ghost lines = self@.lines;
        let ghost line = lines[row as int];
        let mut next: usize = self.cols;
        assert(lines.update(row as int, line) =~= lines);
        while next > col + count
            invariant
                self.wf(),
                self.cols == old(self).cols,
                self.rows == old(self).rows,
                row < self.rows,
                col + count <= next <= self.cols,
                lines == old(self)@.lines,
                lines.len() == self.rows,
                line == lines[row as int],
                line.len() == self.cols,
                self@ == (BufferModel { lines: self@.lines, ..old(self)@ }),
                self@.lines == lines.update(row as int, self@.lines[row as int]),
                forall|c: int|
                    0 <= c < self.cols ==> #[trigger] self@.lines[row as int][c] == (if c < next {
                        line[c]
                    } else {
                        line[c - count]
                    }),
            decreases next,
        {
            next = next - 1;
            let moved: Cell = self.cell(row, next - count);
            self.set_cell(row, next, moved);
            assert(self@.lines =~= lines.update(row as int, self@.lines[row as int]));
        }
        let ghost shifted = self@.lines[row as int];
        self.erase_cells(row, col, col + count);
        proof {
            assert(erased(shifted, col as int, col + count) =~= opened_up(
                line,
                col as int,
                count as int,
            ));
            assert(self@.lines =~= lines.update(
                row as int,
                opened_up(line, col as int, count as int),
            ));
        }
    }

    /// Takes `count` cells out at `col`.
    pub fn close_up(&mut self, row: usize, col: usize, count: usize)
        requires
            old(self).wf(),
            row < old(self).rows,
            col + count <= old(self).cols,
        ensures
            final(self).wf(),
            final(self).cols == old(self).cols,
            final(self).rows == old(self).rows,
            final(self)@ == (BufferModel {
                lines: old(self)@.lines.update(
                    row as int,
                    closed_up(old(self)@.lines[row as int], col as int, count as int),
                ),
                ..old(self)@
            }),
    {
        let ghost lines = self@.lines;
        let ghost line = lines[row as int];
        let cols: usize = self.cols;
        let mut next: usize = col;
        assert(lines.update(row as int, line) =~= lines);
        while next < cols - count
            invariant
                self.wf(),
                self.cols == old(self).cols,
                self.rows == old(self).rows,
                cols == self.cols,
                row < self.rows,
                col + count <= cols,
                col <= next <= cols - count,
                lines == old(self)@.lines,
                lines.len() == self.rows,
                line == lines[row as int],
                line.len() == self.cols,
                self@ == (BufferModel { lines: self@.lines, ..old(self)@ }),
                self@.lines == lines.update(row as int, self@.lines[row as int]),
                forall|c: int|
                    0 <= c < self.cols ==> #[trigger] self@.lines[row as int][c] == (if col <= c
                        < next {
                        line[c + count]
                    } else {
                        line[c]
                    }),
            decreases cols - next,
        {
            let moved: Cell = self.cell(row, next + count);
            self.set_cell(row, next, moved);
            next = next + 1;
            assert(self@.lines =~= lines.update(row as int, self@.lines[row as int]));
        }
        let ghost shifted = self@.lines[row as int];
        self.erase_cells(row, cols - count, cols);
        proof {
            assert(erased(shifted, cols - count, cols as int) =~= closed_up(
                line,
                col as int,
                count as int,
            ));
            assert(self@.lines =~= lines.update(
                row as int,
                closed_up(line, col as int, count as int),
            ));
        }
    }

    pub fn clear_all(&mut self)
        requires
            old(self).wf(),
        ensures
            final(self).wf(),
            final(self).cols == old(self).cols,
            final(self).rows == old(self).rows,
            final(self)@ == (BufferModel {
                lines: blank_lines(old(self).cols as int, old(self).rows as int),
                ..old(self)@
            }),
    {
        let len: usize = self.cells.len();
        let mut index: usize = 0;
        while index < len
            invariant
                index <= len,
                len == self.cells@.len(),
                len == old(self).cells@.len(),
                *self == (Buffer { cells: self.cells, ..*old(self) }),
                forall|i: int| 0 <= i < index ==> #[trigger] self.cells@[i] == Cell::blank(),
            decreases len - index,
        {
            self.cells[index] = Cell::blank();
            index = index + 1;
        }
        proof {
            let cols = self.cols as int;
            let rows = self.rows as int;
            assert forall|r: int| 0 <= r < rows implies self@.lines[r] == blank_line(cols) by {
                lemma_row_bounds(self.row_map@[r] as int, cols, rows);
                assert(self@.lines[r] =~= blank_line(cols));
            }
            assert(self@.lines =~= blank_lines(cols, rows));
        }
    }

    /// Erases the line that a row shows.
    pub fn clear_row(&mut self, row: usize)
        requires
            old(self).wf(),
            row < old(self).rows,
        ensures
            final(self).wf(),
            final(self).cols == old(self).cols,
            final(self).rows == old(self).rows,
            final(self)@ == (BufferModel {
                lines: old(self)@.lines.update(row as int, blank_line(old(self).cols as int)),
                ..old(self)@
            }),
    {
        let ghost line = self@.lines[row as int];
        let cols: usize = self.cols;
        self.erase_cells(row, 0, cols);
        assert(erased(line, 0, cols as int) =~= blank_line(cols as int));
    }

    /// Moves the rows below `top` up by one, as far as `bottom`, which gets the
    /// line that was at `top`.
    pub fn rotate_up(&mut self, top: usize, bottom: usize)
        requires
            old(self).wf(),
            top <= bottom < old(self).rows,
        ensures
            final(self).wf(),
            final(self).cols == old(self).cols,
            final(self).rows == old(self).rows,
            final(self)@ == (BufferModel {
                lines: rotated_up(old(self)@.lines, top as int, bottom as int),
                ..old(self)@
            }),
    {
        let removed: usize = self.row_map[top];
        let mut row: usize = top;
        while row < bottom
            invariant
                top <= row <= bottom,
                bottom < self.rows,
                *self == (Buffer { row_map: self.row_map, ..*old(self) }),
                self.row_map@.len() == self.rows,
                old(self).row_map@.len() == self.rows,
                forall|r: int|
                    0 <= r < self.rows ==> #[trigger] self.row_map@[r] == (if top <= r < row {
                        old(self).row_map@[r + 1]
                    } else {
                        old(self).row_map@[r]
                    }),
            decreases bottom - row,
        {
            self.row_map[row] = self.row_map[row + 1];
            row = row + 1;
        }
        self.row_map[bottom] = removed;
        proof {
            let turned = rotated_up(old(self).row_map@, top as int, bottom as int);
            assert(self.row_map@ =~= turned);
            assert(row_map_ok(self.row_map@, self.rows as int)) by {
                assert forall|r: int, s: int|
                    0 <= r < self.rows && 0 <= s < self.rows && r != s implies #[trigger] turned[r]
                    != #[trigger] turned[s] by {}
            }
            assert(self@.lines =~= rotated_up(old(self)@.lines, top as int, bottom as int));
        }
    }

    /// Moves the rows above `bottom` down by one, as far as `top`, which gets
    /// the line that was at `bottom`.
    pub fn rotate_down(&mut self, top: usize, bottom: usize)
        requires
            old(self).wf(),
            top <= bottom < old(self).rows,
        ensures
            final(self).wf(),
            final(self).cols == old(self).cols,
            final(self).rows == old(self).rows,
            final(self)@ == (BufferModel {
                lines: rotated_down(old(self)@.lines, top as int, bottom as int),
                ..old(self)@
            }),
    {
        let inserted: usize = self.row_map[bottom];
        let mut row: usize = bottom;
        while row > top
            invariant
                top <= row <= bottom,
                bottom < self.rows,
                *self == (Buffer { row_map: self.row_map, ..*old(self) }),
                self.row_map@.len() == self.rows,
                old(self).row_map@.len() == self.rows,
                forall|r: int|
                    0 <= r < self.rows ==> #[trigger] self.row_map@[r] == (if row < r <= bottom {
                        old(self).row_map@[r - 1]
                    } else {
                        old(self).row_map@[r]
                    }),
            decreases row,
        {
            self.row_map[row] = self.row_map[row - 1];
            row = row - 1;
        }
        self.row_map[top] = inserted;
        proof {
            let turned = rotated_down(old(self).row_map@, top as int, bottom as int);
            assert(self.row_map@ =~= turned);
            assert(row_map_ok(self.row_map@, self.rows as int)) by {
                assert forall|r: int, s: int|
                    0 <= r < self.rows && 0 <= s < self.rows && r != s implies #[trigger] turned[r]
                    != #[trigger] turned[s] by {}
            }
            assert(self@.lines =~= rotated_down(old(self)@.lines, top as int, bottom as int));
        }
    }

    /// Moves the rows `top..=bottom` up by one; a blank line comes in.
    pub fn shift_up(&mut self, top: usize, bottom: usize)
        requires
            old(self).wf(),
            top <= bottom < old(self).rows,
        ensures
            final(self).wf(),
            final(self).cols == old(self).cols,
            final(self).rows == old(self).rows,
            final(self)@ == (BufferModel {
                lines: shifted_up(
                    old(self)@.lines,
                    top as int,
                    bottom as int,
                    1,
                    old(self).cols as int,
                ),
                ..old(self)@
            }),
    {
        self.rotate_up(top, bottom);
        self.clear_row(bottom);
        assert(self@.lines =~= shifted_up(
            old(self)@.lines,
            top as int,
            bottom as int,
            1,
            self.cols as int,
        ));
    }

    /// Moves the rows `top..=bottom` down by one; a blank line comes in.
    pub fn shift_down(&mut self, top: usize, bottom: usize)
        requires
            old(self).wf(),
            top <= bottom < old(self).rows,
        ensures
            final(self).wf(),
            final(self).cols == old(self).cols,
            final(self).rows == old(self).rows,
            final(self)@ == (BufferModel {
                lines: shifted_down(
                    old(self)@.lines,
                    top as int,
                    bottom as int,
                    1,
                    old(self).cols as int,
                ),
                ..old(self)@
            }),
    {
        self.rotate_down(top, bottom);
        self.clear_row(top);
        assert(self@.lines =~= shifted_down(
            old(self)@.lines,
            top as int,
            bottom as int,
            1,
            self.cols as int,
        ));
    }

    /// Gives the page another size. What fits is kept.
    pub fn resize(&mut self, cols: usize, rows: usize)
        requires
            old(self).wf(),
            cols >= 1,
            rows >= 1,
            rows * cols <= usize::MAX,
        ensures
            final(self).wf(),
            final(self).cols == cols,
            final(self).rows == rows,
            final(self)@ == old(self)@.resized(cols as int, rows as int),
    {
        let mut next = Buffer::new(cols, rows);
        let copy_rows: usize = rows.min(self.rows);
        let copy_cols: usize = cols.min(self.cols);
        let ghost target = resized_lines(self@.lines, cols as int, rows as int);
        let ghost fresh = next@;
        let mut row: usize = 0;
        while row < copy_rows
            invariant
                self.wf(),
                *self == *old(self),
                next.wf(),
                next.cols == cols,
                next.rows == rows,
                row <= copy_rows,
                copy_rows == min(rows as int, self.rows as int),
                copy_cols == min(cols as int, self.cols as int),
                target == resized_lines(self@.lines, cols as int, rows as int),
                next@ == (BufferModel { lines: next@.lines, ..fresh }),
                forall|r: int|
                    0 <= r < rows ==> #[trigger] next@.lines[r] == (if r < row {
                        target[r]
                    } else {
                        blank_line(cols as int)
                    }),
            decreases copy_rows - row,
        {
            let mut col: usize = 0;
            while col < copy_cols
                invariant
                    self.wf(),
                    *self == *old(self),
                    next.wf(),
                    next.cols == cols,
                    next.rows == rows,
                    row < copy_rows,
                    col <= copy_cols,
                    copy_rows == min(rows as int, self.rows as int),
                    copy_cols == min(cols as int, self.cols as int),
                    target == resized_lines(self@.lines, cols as int, rows as int),
                    next@ == (BufferModel { lines: next@.lines, ..fresh }),
                    forall|r: int|
                        0 <= r < rows && r != row ==> #[trigger] next@.lines[r] == (if r < row {
                            target[r]
                        } else {
                            blank_line(cols as int)
                        }),
                    forall|c: int|
                        0 <= c < cols ==> #[trigger] next@.lines[row as int][c] == (if c < col {
                            self@.lines[row as int][c]
                        } else {
                            Cell::blank()
                        }),
                decreases copy_cols - col,
            {
                let cell: Cell = self.cell(row, col);
                next.set_cell(row, col, cell);
                col = col + 1;
            }
            assert(next@.lines[row as int] =~= target[row as int]);
            row = row + 1;
        }
        proof {
            assert forall|r: int| 0 <= r < rows implies next@.lines[r] == target[r] by {
                assert(next@.lines[r] =~= target[r]);
            }
            assert(next@.lines =~= target);
        }
        next.cursor.row = self.cursor.row.min(rows.saturating_sub(1));
        next.cursor.col = self.cursor.col.min(cols.saturating_sub(1));
        next.saved_cursor = self.saved_cursor;
        next.saved_cursor.row = next.saved_cursor.row.min(rows.saturating_sub(1));
        next.saved_cursor.col = next.saved_cursor.col.min(cols.saturating_sub(1));
        next.attrs = self.attrs;
        next.saved_attrs = self.saved_attrs;
        *self = next;
    }

    /// Brings the cursor back onto the page.
    pub fn clamp_cursor(&mut self)
        requires
            old(self).rows >= 1,
            old(self).cols >= 1,
        ensures
            *final(self) == (Buffer {
                cursor: old(self).cursor.at(
                    min(old(self).cursor.row as int, old(self).rows - 1),
                    min(old(self).cursor.col as int, old(self).cols - 1),
                ),
                ..*old(self)
            }),
    {
        self.cursor.row = self.cursor.row.min(self.rows.saturating_sub(1));
        self.cursor.col = self.cursor.col.min(self.cols.saturating_sub(1));
    }
}

} // verus!
