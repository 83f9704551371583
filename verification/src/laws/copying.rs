//! What a selection covers and copies, and what the text of the page is.

use vstd::prelude::*;

use crate::laws::typing::lemma_no_halves;
use crate::screen::cell::{Cell, CellFlags};
use crate::screen::model::{keep_last, ScreenModel};
use crate::screen::text::{
    chars_of, copied_text, covered, in_order, trim_end_blanks, without_halves,
};
use crate::selection::{spans_of, SelectionRange};

verus! {

/// Whether a text is another one without the spaces at its end.
pub open spec fn is_trimmed(text: Seq<char>, whole: Seq<char>) -> bool {
    &&& text.len() <= whole.len()
    &&& forall|i: int| 0 <= i < text.len() ==> #[trigger] text[i] == whole[i]
    &&& forall|i: int| text.len() <= i < whole.len() ==> #[trigger] whole[i] == ' '
    &&& text.len() > 0 ==> text[text.len() - 1] != ' '
}

/// Trimming takes away the spaces at the end, all of them, and nothing else.
pub proof fn law_trimming_takes_spaces_at_the_end(whole: Seq<char>)
    ensures
        is_trimmed(trim_end_blanks(whole), whole),
    decreases whole.len(),
{
    if whole.len() > 0 && whole.last() == ' ' {
        law_trimming_takes_spaces_at_the_end(whole.drop_last());
        let text = trim_end_blanks(whole);
        assert forall|i: int| text.len() <= i < whole.len() implies #[trigger] whole[i] == ' ' by {
            if i < whole.len() - 1 {
                assert(whole.drop_last()[i] == ' ');
            }
        }
    }
}

/// Whether a line has no right halves of wide characters between two columns.
pub open spec fn has_no_halves(line: Seq<Cell>, from: int, to: int) -> bool {
    forall|c: int|
        from <= c <= to ==> !(#[trigger] line[c]).flags.contains(CellFlags::wide_cont())
}

/// Selecting within a row copies the characters from the one column to the other, both
/// included, without the spaces at the end. A column behind the last one is the last one.
pub proof fn law_selection_in_a_row(
    screen: ScreenModel,
    row: usize,
    from: usize,
    to: usize,
    last: int,
)
    requires
        screen.wf(),
        row < screen.rows,
        from <= to,
        from < screen.cols,
        (to < screen.cols && last == to) || (to >= screen.cols && last == screen.cols - 1),
        has_no_halves(screen.active().lines[row as int], from as int, last),
    ensures
        ({
            let line = screen.active().lines[row as int];
            is_trimmed(
                screen.selection((row, from), (row, to)),
                Seq::new((last - from + 1) as nat, |i: int| line[from + i].ch),
            )
        }),
{
    let line = screen.active().lines[row as int];
    let part = line.subrange(from as int, last + 1);
    let whole = Seq::new((last - from + 1) as nat, |i: int| line[from + i].ch);
    assert forall|i: int| 0 <= i < part.len() implies !(
    #[trigger] part[i]).flags.contains(CellFlags::wide_cont()) by {
        assert(part[i] == line[from + i]);
    }
    lemma_no_halves(part);
    assert(chars_of(part) =~= whole);
    law_trimming_takes_spaces_at_the_end(whole);
    assert(screen.selected_rows((row, from), (row, to), row as int) =~= Seq::<char>::empty());
    assert(screen.selection((row, from), (row, to)) =~= copied_text(line, from as int, last));
}

/// A selection that begins behind the last column begins in the last column.
pub proof fn law_selection_from_behind_the_row(
    screen: ScreenModel,
    row: usize,
    from: usize,
    to: usize,
)
    requires
        screen.wf(),
        row < screen.rows,
        screen.cols <= from <= to,
    ensures
        screen.selection((row, from), (row, to)) == screen.selection(
            (row, (screen.cols - 1) as usize),
            (row, (screen.cols - 1) as usize),
        ),
{
    let last = (row, (screen.cols - 1) as usize);
    assert(screen.selected_rows((row, from), (row, to), row as int) =~= Seq::<char>::empty());
    assert(screen.selected_rows(last, last, row as int) =~= Seq::<char>::empty());
}

/// Copied text has the character of each cell in turn, but nothing for the right half of
/// a wide character.
pub proof fn law_right_halves_are_not_copied(cells: Seq<Cell>, cell: Cell)
    ensures
        chars_of(without_halves(Seq::<Cell>::empty())).len() == 0,
        cell.flags.contains(CellFlags::wide_cont()) ==> chars_of(without_halves(cells.push(cell)))
            == chars_of(without_halves(cells)),
        !cell.flags.contains(CellFlags::wide_cont()) ==> chars_of(without_halves(cells.push(cell)))
            == chars_of(without_halves(cells)).push(cell.ch),
{
    reveal(Seq::filter);
    assert(cells.push(cell).drop_last() =~= cells);
    assert(chars_of(without_halves(cells.push(cell))) =~= (if cell.flags.contains(
        CellFlags::wide_cont(),
    ) {
        chars_of(without_halves(cells))
    } else {
        chars_of(without_halves(cells)).push(cell.ch)
    }));
}

proof fn lemma_rows_of_rest(
    screen: ScreenModel,
    start: (usize, usize),
    end: (usize, usize),
    row: int,
)
    requires
        screen.cols >= 1,
        start.0 < row <= end.0,
    ensures
        ({
            let (from, to) = covered(start, end, start.0 as int, screen.cols as int);
            let next = ((start.0 + 1) as usize, 0usize);
            screen.selected_rows(start, end, row) == copied_text(
                screen.active().lines[start.0 as int],
                from,
                to,
            ).push('\n') + screen.selected_rows(next, end, row)
        }),
    decreases row,
{
    let (from, to) = covered(start, end, start.0 as int, screen.cols as int);
    let next = ((start.0 + 1) as usize, 0usize);
    let first = copied_text(screen.active().lines[start.0 as int], from, to).push('\n');
    if row == start.0 + 1 {
        assert(screen.selected_rows(start, end, start.0 as int) =~= Seq::<char>::empty());
        assert(screen.selected_rows(next, end, row) =~= Seq::<char>::empty());
        assert(screen.selected_rows(start, end, row) =~= first + screen.selected_rows(
            next,
            end,
            row,
        ));
    } else {
        lemma_rows_of_rest(screen, start, end, row - 1);
        assert(covered(start, end, row - 1, screen.cols as int) == covered(
            next,
            end,
            row - 1,
            screen.cols as int,
        ));
        assert(screen.selected_rows(start, end, row) =~= first + screen.selected_rows(
            next,
            end,
            row,
        ));
    }
}

/// A selection over several rows copies the rest of its first row, a line break, and what
/// is selected from the start of the next row on.
pub proof fn law_selection_over_rows(
    screen: ScreenModel,
    start: (usize, usize),
    end: (usize, usize),
)
    requires
        screen.wf(),
        start.0 < end.0 < screen.rows,
    ensures
        screen.selection(start, end) == screen.selection(
            start,
            (start.0, usize::MAX),
        ) + seq!['\n'] + screen.selection(((start.0 + 1) as usize, 0), end),
{
    let next = ((start.0 + 1) as usize, 0usize);
    let edge = (start.0, usize::MAX);
    lemma_rows_of_rest(screen, start, end, end.0 as int);
    assert(screen.selected_rows(start, edge, start.0 as int) =~= Seq::<char>::empty());
    assert(in_order(start, end) && in_order(start, edge) && in_order(next, end));
    assert(covered(start, end, end.0 as int, screen.cols as int) == covered(
        next,
        end,
        end.0 as int,
        screen.cols as int,
    ));
    assert(covered(start, end, start.0 as int, screen.cols as int) == covered(
        start,
        edge,
        start.0 as int,
        screen.cols as int,
    ));
    assert(screen.selection(start, end) =~= screen.selection(start, edge) + seq!['\n']
        + screen.selection(next, end));
}

/// Whether a position comes no later than another in reading order.
pub open spec fn not_after(a: (usize, usize), b: (usize, usize)) -> bool {
    a.0 < b.0 || (a.0 == b.0 && a.1 <= b.1)
}

/// What is highlighted: one part for each row of the page from the row of the first end
/// to that of the last, in this order. It begins in the first column but for the first
/// end, and ends in the last column but for the last end.
pub proof fn law_highlight_lies_between_the_ends(
    range: SelectionRange,
    cols: int,
    rows: int,
    i: int,
)
    requires
        1 <= cols <= usize::MAX,
        1 <= rows <= usize::MAX,
        0 <= i < spans_of(range, cols, rows).len(),
    ensures
        ({
            let spans = spans_of(range, cols, rows);
            let span = spans[i];
            let (first, last) = if not_after(range.start, range.end) {
                (range.start, range.end)
            } else {
                (range.end, range.start)
            };
            &&& span.row == first.0 + i
            &&& span.row < rows
            &&& span.row <= last.0
            &&& spans.len() == last.0 - first.0 + 1 || first.0 + spans.len() == rows
            &&& span.row > first.0 ==> span.from == 0
            &&& span.row == first.0 && first.1 < cols ==> span.from == first.1
            &&& span.row == first.0 && first.1 >= cols ==> span.from == cols - 1
            &&& span.row < last.0 ==> span.to == cols - 1
            &&& span.row == last.0 && last.1 < cols ==> span.to == last.1
            &&& span.row == last.0 && last.1 >= cols ==> span.to == cols - 1
        }),
{
}

/// A selection that begins on the page is highlighted.
pub proof fn law_highlight_is_there(range: SelectionRange, cols: int, rows: int)
    requires
        1 <= rows,
        range.start.0 < rows || range.end.0 < rows,
    ensures
        spans_of(range, cols, rows).len() >= 1,
{
}

/// The text of the page has the characters of each row, without the spaces at its end and
/// with a line break behind them, and the rows follow each other.
pub proof fn law_dump_has_every_row(screen: ScreenModel, row: int)
    requires
        screen.wf(),
        0 <= row < screen.rows,
    ensures
        ({
            let before = screen.dumped_rows(row);
            let with = screen.dumped_rows(row + 1);
            let line = screen.active().lines[row];
            &&& with.len() > before.len()
            &&& with.take(before.len() as int) == before
            &&& with.last() == '\n'
            &&& is_trimmed(
                with.subrange(before.len() as int, with.len() - 1),
                Seq::new(line.len(), |c: int| line[c].ch),
            )
            &&& screen.dumped_rows(0).len() == 0
            &&& screen.dumped() == screen.dumped_rows(screen.rows as int)
        }),
{
    let before = screen.dumped_rows(row);
    let with = screen.dumped_rows(row + 1);
    let line = screen.active().lines[row];
    let whole = Seq::new(line.len(), |c: int| line[c].ch);
    assert(chars_of(line) =~= whole);
    law_trimming_takes_spaces_at_the_end(whole);
    assert(with.take(before.len() as int) =~= before);
    assert(with.subrange(before.len() as int, with.len() - 1) =~= trim_end_blanks(whole));
}

/// Keeping the last entries keeps as many as there are or as are wanted, from the end and
/// in their order.
pub proof fn law_last_entries_are_kept<T>(entries: Seq<T>, cap: int)
    requires
        0 <= cap,
    ensures
        ({
            let kept = keep_last(entries, cap);
            &&& entries.len() <= cap ==> kept.len() == entries.len()
            &&& entries.len() > cap ==> kept.len() == cap
            &&& forall|i: int|
                0 <= i < kept.len() ==> #[trigger] kept[i] == entries[entries.len() - kept.len()
                    + i]
        }),
{
}

} // verus!
