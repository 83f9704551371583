//! The screen as text: copied selections and plain dumps.

use vstd::prelude::*;

use crate::screen::cell::{Cell, CellFlags};
use crate::screen::model::{min, ScreenModel};
use crate::screen::terminal_screen::Screen;

verus! {

/// `String::push` appends one character.
pub assume_specification[ String::push ](s: &mut String, ch: char)
    ensures
        final(s)@ == old(s)@.push(ch),
;

/// The text without the spaces at its end.
pub open spec fn trim_end_blanks(text: Seq<char>) -> Seq<char>
    decreases text.len(),
{
    if text.len() > 0 && text.last() == ' ' {
        trim_end_blanks(text.drop_last())
    } else {
        text
    }
}

/// The characters of some cells, in order.
pub open spec fn chars_of(cells: Seq<Cell>) -> Seq<char> {
    cells.map_values(|cell: Cell| cell.ch)
}

/// The cells without the right halves of wide characters.
pub open spec fn without_halves(cells: Seq<Cell>) -> Seq<Cell> {
    cells.filter(|cell: Cell| !cell.flags.contains(CellFlags::wide_cont()))
}

/// What a selection copies of one line: the columns `from..=to`, with the
/// spaces at the end left off.
pub open spec fn copied_text(line: Seq<Cell>, from: int, to: int) -> Seq<char> {
    trim_end_blanks(chars_of(without_halves(line.subrange(from, to + 1))))
}

/// Whether the position `a` comes before `b` or is the same, in reading order.
pub open spec fn in_order(a: (usize, usize), b: (usize, usize)) -> bool {
    a.0 < b.0 || (a.0 == b.0 && a.1 <= b.1)
}

/// The first and the last column that a selection from `start` to `end` covers
/// in a row.
pub open spec fn covered(
    start: (usize, usize),
    end: (usize, usize),
    row: int,
    cols: int,
) -> (int, int) {
    (
        if row == start.0 {
            min(start.1 as int, cols - 1)
        } else {
            0
        },
        if row == end.0 {
            min(end.1 as int, cols - 1)
        } else {
            cols - 1
        },
    )
}

impl ScreenModel {
    /// The text of the rows from `start` to before `row`, each with a line break.
    pub open spec fn selected_rows(
        self,
        start: (usize, usize),
        end: (usize, usize),
        row: int,
    ) -> Seq<char>
        decreases row,
    {
        if row <= start.0 {
            Seq::empty()
        } else {
            let (from, to) = covered(start, end, row - 1, self.cols as int);
            (self.selected_rows(start, end, row - 1) + copied_text(
                self.active().lines[row - 1],
                from,
                to,
            )).push('\n')
        }
    }

    /// The text of a selection whose ends are in order: its rows with line
    /// breaks between them.
    pub open spec fn ordered_selection(
        self,
        start: (usize, usize),
        end: (usize, usize),
    ) -> Seq<char> {
        let (from, to) = covered(start, end, end.0 as int, self.cols as int);
        self.selected_rows(start, end, end.0 as int) + copied_text(
            self.active().lines[end.0 as int],
            from,
            to,
        )
    }

    /// The text between two positions, which may come in either order.
    pub open spec fn selection(self, start: (usize, usize), end: (usize, usize)) -> Seq<char> {
        if in_order(start, end) {
            self.ordered_selection(start, end)
        } else {
            self.ordered_selection(end, start)
        }
    }

    /// The text of the rows before `row`, each with a line break.
    pub open spec fn dumped_rows(self, row: int) -> Seq<char>
        decreases row,
    {
        if row <= 0 {
            Seq::empty()
        } else {
            (self.dumped_rows(row - 1) + trim_end_blanks(
                chars_of(self.active().lines[row - 1]),
            )).push('\n')
        }
    }

    /// The whole page as text.
    pub open spec fn dumped(self) -> Seq<char> {
        self.dumped_rows(self.rows as int)
    }
}

/// Appends text without the spaces at its end.
fn push_trimmed(out: &mut String, text: Vec<char>)
    ensures
        final(out)@ == old(out)@ + trim_end_blanks(text@),
{
    let mut end: usize = text.len();
    assert(text@.take(end as int) =~= text@);
    while end > 0 && text[end - 1] == ' '
        invariant
            end <= text@.len(),
            trim_end_blanks(text@) == trim_end_blanks(text@.take(end as int)),
        decreases end,
    {
        assert(text@.take(end as int).drop_last() =~= text@.take(end - 1));
        end = end - 1;
    }
    let mut i: usize = 0;
    let ghost before = out@;
    assert(before + text@.take(0) =~= before);
    while i < end
        invariant
            i <= end <= text@.len(),
            out@ == before + text@.take(i as int),
        decreases end - i,
    {
        out.push(text[i]);
        i = i + 1;
        assert(before + text@.take(i as int) =~= (before + text@.take(i - 1)).push(text@[i - 1]));
    }
}

/// The characters of a line in the columns `from..=to`, without right halves.
fn selected_chars(line: &[Cell], from: usize, to: usize) -> (text: Vec<char>)
    requires
        from <= to < line@.len(),
    ensures
        text@ == chars_of(without_halves(line@.subrange(from as int, to + 1))),
{
    let mut text: Vec<char> = Vec::new();
    let mut col: usize = from;
    let ghost whole = |cell: Cell| !cell.flags.contains(CellFlags::wide_cont());
    proof {
        assert(line@.subrange(from as int, from as int) =~= Seq::<Cell>::empty());
        reveal(Seq::filter);
        assert(text@ =~= chars_of(without_halves(line@.subrange(from as int, from as int))));
    }
    while col <= to
        invariant
            from <= col <= to + 1,
            to < line@.len(),
            text@ == chars_of(without_halves(line@.subrange(from as int, col as int))),
        decreases to + 1 - col,
    {
        let cell: Cell = line[col];
        let ghost seen = line@.subrange(from as int, col as int);
        if !cell.flags.contains(CellFlags::wide_cont()) {
            text.push(cell.ch);
        }
        proof {
            reveal(Seq::filter);
            let next = line@.subrange(from as int, col + 1);
            assert(next.drop_last() =~= seen);
            assert(next.last() == cell);
            assert(text@ =~= chars_of(without_halves(next)));
        }
        col = col + 1;
    }
    text
}

impl Screen {
    /// The text between two positions given as row and column, as it is copied
    /// to the clipboard. Columns past the end of a row mean its last column.
    pub fn extract_selection_text(&self, start: (usize, usize), end: (usize, usize)) -> (text:
        String)
        requires
            self.wf(),
            start.0 < self@.rows,
            end.0 < self@.rows,
        ensures
            text@ == self@.selection(start, end),
    {
        let ordered: bool = start.0 < end.0 || (start.0 == end.0 && start.1 <= end.1);
        let first: (usize, usize) = if ordered {
            start
        } else {
            end
        };
        let last: (usize, usize) = if ordered {
            end
        } else {
            start
        };
        let cols: usize = self.cols();
        let mut out: String = String::new();
        let mut row: usize = first.0;
        while row <= last.0
            invariant
                self.wf(),
                cols == self@.cols,
                in_order(first, last),
                last.0 < self@.rows,
                first.0 <= row <= last.0 + 1,
                row <= last.0 ==> out@ == self@.selected_rows(first, last, row as int),
                row == last.0 + 1 ==> out@ == self@.ordered_selection(first, last),
            decreases last.0 + 1 - row,
        {
            let line: &[Cell] = self.line(row);
            let mut from: usize = 0;
            let mut to: usize = cols.saturating_sub(1);
            if row == first.0 {
                from = first.1.min(cols.saturating_sub(1));
            }
            if row == last.0 {
                to = last.1.min(cols.saturating_sub(1));
            }
            let row_text: Vec<char> = selected_chars(line, from, to);
            push_trimmed(&mut out, row_text);
            if row != last.0 {
                out.push('\n');
            }
            row = row + 1;
        }
        out
    }

    /// The page as text: every row without the spaces at its end, with a line
    /// break after each.
    pub fn dump(&self) -> (text: String)
        requires
            self.wf(),
        ensures
            text@ == self@.dumped(),
    {
        let mut out: String = String::new();
        let mut row: usize = 0;
        while row < self.rows()
            invariant
                self.wf(),
                row <= self@.rows,
                out@ == self@.dumped_rows(row as int),
            decreases self@.rows - row,
        {
            let line: &[Cell] = self.line(row);
            let mut row_text: Vec<char> = Vec::new();
            let mut col: usize = 0;
            while col < line.len()
                invariant
                    col <= line@.len(),
                    row_text@ =~= chars_of(line@.take(col as int)),
                decreases line@.len() - col,
            {
                row_text.push(line[col].ch);
                col = col + 1;
            }
            assert(line@.take(col as int) =~= line@);
            push_trimmed(&mut out, row_text);
            out.push('\n');
            row = row + 1;
        }
        out
    }
}

} // verus!
