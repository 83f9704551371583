//! What is highlighted is what is copied, and the text that is drawn is the
//! text of the page.

use vstd::prelude::*;

use crate::draw::{cell_items, cursor_items, items_of_row, line_items, DrawItem, GlyphKey};
use crate::headless::{occurs_in, stands_at};
use crate::screen::cell::{default_bg, Cell, CellFlags};
use crate::screen::model::ScreenModel;
use crate::screen::text::{copied_text, covered, in_order};
use crate::selection::{spans_of, text_of_spans, SelectionRange};

verus! {

/// It does not matter at which end a selection was begun.
pub proof fn law_selection_has_no_direction(
    screen: ScreenModel,
    start: (usize, usize),
    end: (usize, usize),
)
    ensures
        screen.selection(start, end) == screen.selection(end, start),
{
    assert(in_order(start, end) && in_order(end, start) ==> start == end);
}

proof fn lemma_text_of_first_rows(screen: ScreenModel, range: SelectionRange, row: int)
    requires
        screen.wf(),
        range.first().0 < row <= range.last().0 < screen.rows,
    ensures
        screen.selected_rows(range.first(), range.last(), row) == text_of_spans(
            screen,
            spans_of(range, screen.cols as int, screen.rows as int).take(row - range.first().0),
        ).push('\n'),
    decreases row,
{
    let first = range.first();
    let last = range.last();
    let spans = spans_of(range, screen.cols as int, screen.rows as int);
    let some = spans.take(row - first.0);
    let (from, to) = covered(first, last, row - 1, screen.cols as int);
    let text = copied_text(screen.active().lines[row - 1], from, to);
    assert(some.last() == spans[row - 1 - first.0]);
    if row - 1 == first.0 {
        assert(screen.selected_rows(first, last, first.0 as int) =~= Seq::<char>::empty());
        assert(screen.selected_rows(first, last, row) =~= text.push('\n'));
    } else {
        lemma_text_of_first_rows(screen, range, row - 1);
        assert(some.drop_last() =~= spans.take(row - 1 - first.0));
    }
}

/// What a selection copies is the text of the highlighted parts of the screen,
/// from top to bottom, with line breaks between them.
pub proof fn law_highlighted_text_is_copied(screen: ScreenModel, range: SelectionRange)
    requires
        screen.wf(),
        range.start.0 < screen.rows,
        range.end.0 < screen.rows,
    ensures
        screen.selection(range.start, range.end) == text_of_spans(
            screen,
            spans_of(range, screen.cols as int, screen.rows as int),
        ),
{
    let first = range.first();
    let last = range.last();
    let spans = spans_of(range, screen.cols as int, screen.rows as int);
    let (from, to) = covered(first, last, last.0 as int, screen.cols as int);
    let text = copied_text(screen.active().lines[last.0 as int], from, to);
    assert(spans.last() == spans[last.0 - first.0]);
    if first.0 < last.0 {
        lemma_text_of_first_rows(screen, range, last.0 as int);
        assert(spans.drop_last() =~= spans.take(last.0 - first.0));
    } else {
        assert(screen.selected_rows(first, last, last.0 as int) =~= Seq::<char>::empty());
    }
    assert(screen.ordered_selection(first, last) =~= text_of_spans(screen, spans));
}

/// Each highlighted part lies in the grid and is not empty.
pub proof fn law_highlight_stays_in_grid(screen: ScreenModel, range: SelectionRange, i: int)
    requires
        screen.wf(),
        0 <= i < spans_of(range, screen.cols as int, screen.rows as int).len(),
    ensures
        ({
            let span = spans_of(range, screen.cols as int, screen.rows as int)[i];
            span.row < screen.rows && span.from <= span.to < screen.cols
        }),
{
}

/// The glyph that shows a cell.
pub open spec fn glyph_of(cell: Cell, col: int) -> DrawItem {
    DrawItem::Glyph {
        col: col as usize,
        key: GlyphKey {
            ch: cell.ch,
            bold: cell.flags.contains(CellFlags::bold()),
            italic: cell.flags.contains(CellFlags::italic()),
        },
        color: cell.fg,
    }
}

/// The fill behind a cell.
pub open spec fn fill_of(cell: Cell, col: int) -> DrawItem {
    DrawItem::Background { col: col as usize, color: cell.bg }
}

proof fn lemma_cells_are_drawn(line: Seq<Cell>, count: int, col: int)
    requires
        0 <= col < count <= line.len(),
    ensures
        line[col].ch != ' ' && !line[col].flags.contains(CellFlags::wide_cont()) ==> line_items(
            line,
            count,
        ).contains(glyph_of(line[col], col)),
        line[col].bg != default_bg() ==> line_items(line, count).contains(
            fill_of(line[col], col),
        ),
    decreases count,
{
    let before = line_items(line, count - 1);
    let own = cell_items(line[count - 1], count - 1);
    let all = line_items(line, count);
    let glyph = glyph_of(line[col], col);
    let fill = fill_of(line[col], col);
    if col == count - 1 {
        if line[col].bg != default_bg() {
            assert(own[0] == fill);
            assert(all[before.len() as int] == fill);
        }
        if line[col].ch != ' ' && !line[col].flags.contains(CellFlags::wide_cont()) {
            assert(own.last() == glyph);
            assert(all[all.len() - 1] == glyph);
        }
    } else {
        lemma_cells_are_drawn(line, count - 1, col);
        if before.contains(glyph) {
            assert(all[before.index_of(glyph)] == glyph);
        }
        if before.contains(fill) {
            assert(all[before.index_of(fill)] == fill);
        }
    }
}

/// Every visible character of a row is drawn in its colour, every background
/// that is not the default one is filled, and a visible cursor is drawn in its
/// row.
pub proof fn law_row_is_drawn_in_full(screen: ScreenModel, row: int, col: int)
    requires
        screen.wf(),
        0 <= row < screen.rows,
        0 <= col < screen.cols,
    ensures
        ({
            let cell = screen.active().lines[row][col];
            let items = items_of_row(screen, row);
            let cursor = screen.cursor();
            &&& cell.ch != ' ' && !cell.flags.contains(CellFlags::wide_cont())
                ==> items.contains(glyph_of(cell, col))
            &&& cell.bg != default_bg() ==> items.contains(fill_of(cell, col))
            &&& cursor.visible && cursor.row == row ==> items.contains(
                DrawItem::Cursor { col: cursor.col, shape: cursor.shape },
            )
        }),
{
    let line = screen.active().lines[row];
    let cells = line_items(line, screen.cols as int);
    let items = items_of_row(screen, row);
    let glyph = glyph_of(line[col], col);
    let fill = fill_of(line[col], col);
    lemma_cells_are_drawn(line, screen.cols as int, col);
    if cells.contains(glyph) {
        assert(items[cells.index_of(glyph)] == glyph);
    }
    if cells.contains(fill) {
        assert(items[cells.index_of(fill)] == fill);
    }
    if cursor_items(screen.cursor(), row).len() > 0 {
        assert(items[items.len() - 1] == cursor_items(screen.cursor(), row)[0]);
    }
}

/// Whether an item shows what the line holds in its column.
pub open spec fn shows_cell(line: Seq<Cell>, item: DrawItem) -> bool {
    match item {
        DrawItem::Background { col, .. } => col < line.len() && item == fill_of(
            line[col as int],
            col as int,
        ),
        DrawItem::Glyph { col, .. } => col < line.len() && item == glyph_of(
            line[col as int],
            col as int,
        ),
        DrawItem::Cursor { .. } => false,
    }
}

proof fn lemma_only_cells_are_drawn(line: Seq<Cell>, count: int, i: int)
    requires
        0 <= count <= line.len() <= usize::MAX,
        0 <= i < line_items(line, count).len(),
    ensures
        shows_cell(line, line_items(line, count)[i]),
    decreases count,
{
    let before = line_items(line, count - 1);
    if i < before.len() {
        lemma_only_cells_are_drawn(line, count - 1, i);
    } else {
        let own = cell_items(line[count - 1], count - 1);
        assert(line_items(line, count)[i] == own[i - before.len()]);
    }
}

/// Nothing is drawn in a row that is not there: each item shows the cell in its
/// column, or it is the visible cursor of this row.
pub proof fn law_only_the_row_is_drawn(screen: ScreenModel, row: int, i: int)
    requires
        screen.wf(),
        0 <= row < screen.rows,
        0 <= i < items_of_row(screen, row).len(),
    ensures
        ({
            let item = items_of_row(screen, row)[i];
            let cursor = screen.cursor();
            ||| shows_cell(screen.active().lines[row], item)
            ||| cursor.visible && cursor.row == row && item == (DrawItem::Cursor {
                col: cursor.col,
                shape: cursor.shape,
            })
        }),
{
    let line = screen.active().lines[row];
    if i < line_items(line, screen.cols as int).len() {
        lemma_only_cells_are_drawn(line, screen.cols as int, i);
    }
}

/// A text that has arrived stays in the transcript, whatever arrives later.
pub proof fn law_received_text_stays(transcript: Seq<u8>, chunk: Seq<u8>, needle: Seq<u8>)
    requires
        occurs_in(transcript, needle),
    ensures
        occurs_in(transcript + chunk, needle),
{
    let at = choose|at: int| #[trigger] stands_at(transcript, needle, at);
    assert((transcript + chunk).subrange(at, at + needle.len()) =~= transcript.subrange(
        at,
        at + needle.len(),
    ));
    assert(stands_at(transcript + chunk, needle, at));
}

} // verus!
