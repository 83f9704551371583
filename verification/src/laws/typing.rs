//! What is printed can be seen and copied.

use vstd::prelude::*;
use vstd::utf8::encode_utf8;

use crate::headless::{occurs_in, stands_at};
use crate::laws::evolution::{law_printing_marks_changed_rows, stays_valid};
use crate::parser::{typed, typed_byte};
use crate::screen::cell::{AttrState, Cell, CellFlags};
use crate::screen::model::{continuation, min, style_flags, styled_cell, ScreenModel};
use crate::screen::text::{chars_of, copied_text, trim_end_blanks, without_halves};
use crate::vt::is_text_byte;

verus! {

/// The flags of a printed character say which attributes were on, and nothing
/// else.
pub proof fn law_flags_show_attributes(attrs: AttrState)
    ensures
        style_flags(attrs).contains(CellFlags::bold()) == attrs.bold,
        style_flags(attrs).contains(CellFlags::italic()) == attrs.italic,
        style_flags(attrs).contains(CellFlags::underline()) == attrs.underline,
        style_flags(attrs).contains(CellFlags::inverse()) == attrs.inverse,
        !style_flags(attrs).contains(CellFlags::wide()),
        !style_flags(attrs).contains(CellFlags::wide_cont()),
{
    let b: u8 = if attrs.bold {
        1
    } else {
        0
    };
    let i: u8 = if attrs.italic {
        2
    } else {
        0
    };
    let u: u8 = if attrs.underline {
        4
    } else {
        0
    };
    let v: u8 = if attrs.inverse {
        8
    } else {
        0
    };
    assert((b == 0 || b == 1) && (i == 0 || i == 2) && (u == 0 || u == 4) && (v == 0 || v == 8)
        ==> {
        let bits = b | i | u | v;
        &&& (bits & 1 == 1) == (b == 1)
        &&& (bits & 2 == 2) == (i == 2)
        &&& (bits & 4 == 4) == (u == 4)
        &&& (bits & 8 == 8) == (v == 8)
        &&& bits & 16 != 16
        &&& bits & 32 != 32
    }) by (bit_vector);
}

/// The right half of a wide character is known by its flag.
pub proof fn law_continuation_is_flagged(cell: Cell)
    ensures
        continuation(cell).flags.contains(CellFlags::wide_cont()),
        continuation(cell).ch == ' ',
        continuation(cell).fg == cell.fg,
        continuation(cell).bg == cell.bg,
{
    let bits = cell.flags.bits;
    assert((bits | 32) & 32 == 32) by (bit_vector);
}

/// The cells that show some text.
pub open spec fn text_cells(text: Seq<u8>, attrs: AttrState) -> Seq<Cell> {
    text.map_values(|byte: u8| styled_cell(byte as char, attrs))
}

/// A line with some cells written over it from a column on.
pub open spec fn overwritten(line: Seq<Cell>, col: int, cells: Seq<Cell>) -> Seq<Cell> {
    Seq::new(
        line.len(),
        |c: int|
            if col <= c < col + cells.len() {
                cells[c - col]
            } else {
                line[c]
            },
    )
}

/// One byte of text, with a column to spare behind it.
proof fn lemma_typed_byte(screen: ScreenModel, byte: u8)
    requires
        screen.wf(),
        is_text_byte(byte),
        screen.cursor().col + 1 < screen.cols,
    ensures
        ({
            let row = screen.cursor().row as int;
            let col = screen.cursor().col as int;
            let after = typed_byte(screen, byte);
            &&& after.wf()
            &&& after.cols == screen.cols
            &&& after.rows == screen.rows
            &&& after.active().lines == screen.active().lines.update(
                row,
                screen.active().cursor_line().update(
                    col,
                    styled_cell(byte as char, screen.attrs()),
                ),
            )
            &&& after.cursor() == screen.cursor().at(row, col + 1)
            &&& after.attrs() == screen.attrs()
        }),
{
    reveal(typed_byte);
}

/// Printable text that fits in the row with a column to spare is shown at the
/// cursor, in the current attributes, and the cursor ends up behind it; no other
/// cell of the page changes.
pub proof fn law_typed_text_is_shown(screen: ScreenModel, text: Seq<u8>)
    requires
        screen.wf(),
        forall|i: int| 0 <= i < text.len() ==> is_text_byte(#[trigger] text[i]),
        screen.cursor().col + text.len() < screen.cols,
    ensures
        ({
            let row = screen.cursor().row as int;
            let col = screen.cursor().col as int;
            let after = typed(screen, text);
            &&& after.wf()
            &&& after.cols == screen.cols
            &&& after.rows == screen.rows
            &&& after.active().lines == screen.active().lines.update(
                row,
                overwritten(screen.active().cursor_line(), col, text_cells(text, screen.attrs())),
            )
            &&& after.cursor() == screen.cursor().at(row, col + text.len())
            &&& after.attrs() == screen.attrs()
        }),
    decreases text.len(),
{
    let row = screen.cursor().row as int;
    let col = screen.cursor().col as int;
    let line = screen.active().cursor_line();
    let cells = text_cells(text, screen.attrs());
    if text.len() == 0 {
        assert(overwritten(line, col, cells) =~= line);
        assert(screen.active().lines.update(row, line) =~= screen.active().lines);
    } else {
        let fewer = text.drop_last();
        assert forall|i: int| 0 <= i < fewer.len() implies is_text_byte(#[trigger] fewer[i]) by {
            assert(fewer[i] == text[i]);
        }
        law_typed_text_is_shown(screen, fewer);
        let before = typed(screen, fewer);
        let after = typed(screen, text);
        assert(text[text.len() - 1] == text.last());
        lemma_typed_byte(before, text.last());
        let old_cells = text_cells(fewer, screen.attrs());
        assert(overwritten(line, col, old_cells).update(
            col + fewer.len(),
            styled_cell(text.last() as char, screen.attrs()),
        ) =~= overwritten(line, col, cells));
        assert(after.active().lines =~= screen.active().lines.update(
            row,
            overwritten(line, col, cells),
        ));
    }
}

/// A line without right halves loses none.
pub(crate) proof fn lemma_no_halves(cells: Seq<Cell>)
    requires
        forall|i: int|
            0 <= i < cells.len() ==> !(#[trigger] cells[i]).flags.contains(CellFlags::wide_cont()),
    ensures
        without_halves(cells) == cells,
    decreases cells.len(),
{
    reveal(Seq::filter);
    if cells.len() > 0 {
        let fewer = cells.drop_last();
        assert forall|i: int| 0 <= i < fewer.len() implies !(
        #[trigger] fewer[i]).flags.contains(CellFlags::wide_cont()) by {
            assert(fewer[i] == cells[i]);
        }
        lemma_no_halves(fewer);
        assert(!cells[cells.len() - 1].flags.contains(CellFlags::wide_cont()));
        assert(fewer.push(cells.last()) =~= cells);
    }
}

/// Whether text of this length fits in the cursor row, and can still be seen there or
/// in the row above: text that fills the last row of a scroll region of one row
/// scrolls out of it.
pub open spec fn text_stays(screen: ScreenModel, len: nat) -> bool {
    &&& screen.cursor().col + len <= screen.cols
    &&& text_scrolls(screen, len) ==> screen.active().scroll_top < screen.active().scroll_bottom
}

/// Whether text of this length fills the last row of the scroll region, which then
/// moves up.
pub open spec fn text_scrolls(screen: ScreenModel, len: nat) -> bool {
    &&& screen.cursor().col + len == screen.cols
    &&& screen.cursor().row == screen.active().scroll_bottom
}

/// The row that text of this length is in after it was typed.
pub open spec fn text_row(screen: ScreenModel, len: nat) -> int {
    if text_scrolls(screen, len) {
        screen.cursor().row - 1
    } else {
        screen.cursor().row as int
    }
}

/// Printable text that fits in its row is then in it, or in the row above if the
/// region has scrolled.
proof fn lemma_text_row(screen: ScreenModel, text: Seq<u8>)
    requires
        screen.wf(),
        forall|i: int| 0 <= i < text.len() ==> is_text_byte(#[trigger] text[i]),
        text_stays(screen, text.len()),
        text.len() > 0,
    ensures
        ({
            let after = typed(screen, text);
            &&& after.wf()
            &&& after.cols == screen.cols
            &&& after.rows == screen.rows
            &&& 0 <= text_row(screen, text.len()) < screen.rows
            &&& after.active().lines[text_row(screen, text.len())] == overwritten(
                screen.active().cursor_line(),
                screen.cursor().col as int,
                text_cells(text, screen.attrs()),
            )
        }),
{
    if screen.cursor().col + text.len() == screen.cols {
        law_typed_text_fills_the_row(screen, text);
    } else {
        law_typed_text_is_shown(screen, text);
    }
}

/// Printable text that was just typed can be copied: selecting the cells it was
/// typed into gives the text back, but for spaces at its end.
pub proof fn law_typed_text_can_be_copied(screen: ScreenModel, text: Seq<u8>)
    requires
        screen.wf(),
        forall|i: int| 0 <= i < text.len() ==> is_text_byte(#[trigger] text[i]),
        text_stays(screen, text.len()),
        text.len() > 0,
    ensures
        ({
            let row = text_row(screen, text.len()) as usize;
            let col = screen.cursor().col;
            let last = (col + text.len() - 1) as usize;
            typed(screen, text).selection((row, col), (row, last)) == trim_end_blanks(
                text.map_values(|byte: u8| byte as char),
            )
        }),
{
    let row = text_row(screen, text.len()) as usize;
    let col = screen.cursor().col;
    let last = (col + text.len() - 1) as usize;
    let after = typed(screen, text);
    lemma_text_row(screen, text);
    law_flags_show_attributes(screen.attrs());
    let line = after.active().lines[row as int];
    let part = line.subrange(col as int, last + 1);
    assert(part =~= text_cells(text, screen.attrs()));
    lemma_no_halves(part);
    assert(chars_of(part) =~= text.map_values(|byte: u8| byte as char));
    assert(after.selected_rows((row, col), (row, last), row as int) =~= Seq::<char>::empty());
    assert(after.selection((row, col), (row, last)) =~= copied_text(
        line,
        col as int,
        last as int,
    ));
}

/// A wide character takes two cells, on the next row if there is only one left, and
/// copying them gives it once.
pub proof fn law_wide_character_is_copied_once(screen: ScreenModel, ch: char)
    requires
        screen.wf(),
        ch != ' ',
        screen.cols >= 2,
    ensures
        ({
            let start = if screen.needs_wrap(2) {
                screen.wrapped()
            } else {
                screen
            };
            let row = start.cursor().row;
            let col = start.cursor().col;
            let after = screen.printed(ch, 2);
            let line = after.active().lines[row as int];
            &&& col + 1 < screen.cols
            &&& line[col as int] == styled_cell(ch, screen.attrs())
            &&& line[col + 1] == continuation(styled_cell(ch, screen.attrs()))
            &&& after.selection((row, col), (row, (col + 1) as usize)) == seq![ch]
        }),
{
    let start = if screen.needs_wrap(2) {
        screen.wrapped()
    } else {
        screen
    };
    let row = start.cursor().row;
    let col = start.cursor().col;
    let next = (col + 1) as usize;
    let after = screen.printed(ch, 2);
    let line = after.active().lines[row as int];
    let cell = styled_cell(ch, screen.attrs());
    law_printing_marks_changed_rows(screen, ch, 2);
    assert(start.attrs() == screen.attrs());
    assert(start.active().cursor_line().len() == screen.cols);
    assert(line == start.active().cursor_line().update(col as int, cell).update(
        col + 1,
        continuation(cell),
    ));
    law_flags_show_attributes(screen.attrs());
    law_continuation_is_flagged(cell);
    let part = line.subrange(col as int, next + 1);
    assert(part =~= seq![cell, continuation(cell)]);
    reveal(Seq::filter);
    assert(part.drop_last() =~= seq![cell]);
    assert(seq![cell].drop_last() =~= Seq::<Cell>::empty());
    assert(without_halves(seq![cell]) =~= seq![cell]);
    assert(without_halves(part) =~= seq![cell]);
    assert(chars_of(seq![cell]) =~= seq![ch]);
    assert(trim_end_blanks(seq![ch]) =~= seq![ch]);
    assert(after.selected_rows((row, col), (row, next), row as int) =~= Seq::<char>::empty());
    assert(after.selection((row, col), (row, next)) =~= seq![ch]);
}

/// Without the spaces at its end, a text still has everything up to its last
/// other character.
proof fn lemma_trimmed(text: Seq<char>, i: int)
    requires
        0 <= i < text.len(),
        text[i] != ' ',
    ensures
        i < trim_end_blanks(text).len() <= text.len(),
        trim_end_blanks(text) == text.take(trim_end_blanks(text).len() as int),
    decreases text.len(),
{
    if text.last() == ' ' {
        lemma_trimmed(text.drop_last(), i);
        let len = trim_end_blanks(text).len() as int;
        assert(text.drop_last().take(len) =~= text.take(len));
    } else {
        assert(text.take(text.len() as int) =~= text);
    }
}

/// A dump of more rows begins with the dump of fewer.
proof fn lemma_dump_grows(screen: ScreenModel, row: int, rows: int)
    requires
        0 <= row <= rows,
    ensures
        screen.dumped_rows(row).len() <= screen.dumped_rows(rows).len(),
        screen.dumped_rows(rows).take(screen.dumped_rows(row).len() as int)
            == screen.dumped_rows(row),
    decreases rows,
{
    let whole = screen.dumped_rows(rows);
    let part = screen.dumped_rows(row);
    if row == rows {
        assert(whole.take(part.len() as int) =~= part);
    } else {
        lemma_dump_grows(screen, row, rows - 1);
        assert(whole.take(part.len() as int) =~= screen.dumped_rows(rows - 1).take(
            part.len() as int,
        ));
    }
}

/// The encoding of two texts in a row.
proof fn lemma_encoded_in_turn(first: Seq<char>, second: Seq<char>)
    ensures
        encode_utf8(first + second) == encode_utf8(first) + encode_utf8(second),
    decreases first.len(),
{
    if first.len() == 0 {
        assert(first + second =~= second);
        assert(encode_utf8(first) + encode_utf8(second) =~= encode_utf8(second));
    } else {
        lemma_encoded_in_turn(first.drop_first(), second);
        assert((first + second).drop_first() =~= first.drop_first() + second);
        assert(encode_utf8(first + second) =~= encode_utf8(first) + encode_utf8(second));
    }
}

/// A text that stands in another one stands in its encoding as well.
proof fn lemma_encoded_part(text: Seq<char>, from: int, to: int)
    requires
        0 <= from <= to <= text.len(),
    ensures
        occurs_in(encode_utf8(text), encode_utf8(text.subrange(from, to))),
{
    let before = text.take(from);
    let part = text.subrange(from, to);
    let behind = text.skip(to);
    assert(text =~= before + part + behind);
    lemma_encoded_in_turn(before + part, behind);
    lemma_encoded_in_turn(before, part);
    let at = encode_utf8(before).len() as int;
    let bytes = encode_utf8(text);
    assert(bytes.subrange(at, at + encode_utf8(part).len()) =~= encode_utf8(part));
    assert(stands_at(bytes, encode_utf8(part), at));
}

/// Text that stands in a line of the page is found in the text of the screen.
proof fn lemma_shown_text_is_found(screen: ScreenModel, row: int, col: int, text: Seq<char>)
    requires
        screen.wf(),
        0 <= row < screen.rows,
        0 <= col,
        0 < text.len() <= screen.cols - col,
        text.last() != ' ',
        chars_of(screen.active().lines[row]).subrange(col, col + text.len()) == text,
    ensures
        occurs_in(encode_utf8(screen.dumped()), encode_utf8(text)),
{
    let line = chars_of(screen.active().lines[row]);
    let end = col + text.len();
    assert(line.subrange(col, end)[text.len() - 1] == line[end - 1]);
    lemma_trimmed(line, end - 1);
    let shown = trim_end_blanks(line);
    lemma_dump_grows(screen, row + 1, screen.rows as int);
    let start = screen.dumped_rows(row).len() as int;
    let next = screen.dumped_rows(row + 1);
    let dump = screen.dumped();
    assert(next == (screen.dumped_rows(row) + shown).push('\n'));
    assert forall|i: int| 0 <= i < text.len() implies dump[start + col + i] == text[i] by {
        assert(dump[start + col + i] == next[start + col + i]);
        assert(next[start + col + i] == shown[col + i]);
        assert(shown[col + i] == line[col + i]);
        assert(line.subrange(col, end)[i] == text[i]);
    }
    assert(dump.subrange(start + col, start + end) =~= text);
    lemma_encoded_part(dump, start + col, start + end);
}

/// Printable text that fills the rest of its row is shown there, and the cursor
/// goes to the start of the next row. In the last row of the scroll region the
/// text moves up by one row instead.
pub proof fn law_typed_text_fills_the_row(screen: ScreenModel, text: Seq<u8>)
    requires
        screen.wf(),
        forall|i: int| 0 <= i < text.len() ==> is_text_byte(#[trigger] text[i]),
        screen.cursor().col + text.len() == screen.cols,
        screen.cursor().row == screen.active().scroll_bottom ==> screen.active().scroll_top
            < screen.active().scroll_bottom,
    ensures
        ({
            let row = screen.cursor().row as int;
            let col = screen.cursor().col as int;
            let scrolls = screen.cursor().row == screen.active().scroll_bottom;
            let after = typed(screen, text);
            let line = overwritten(
                screen.active().cursor_line(),
                col,
                text_cells(text, screen.attrs()),
            );
            &&& after.wf()
            &&& after.cols == screen.cols
            &&& after.rows == screen.rows
            &&& after.active().lines[if scrolls {
                row - 1
            } else {
                row
            }] == line
            &&& after.cursor() == screen.cursor().at(
                if scrolls {
                    row
                } else {
                    min(row + 1, screen.rows - 1)
                },
                0,
            )
        }),
{
    let fewer = text.drop_last();
    let row = screen.cursor().row as int;
    let col = screen.cursor().col as int;
    let line = screen.active().cursor_line();
    assert forall|i: int| 0 <= i < fewer.len() implies is_text_byte(#[trigger] fewer[i]) by {
        assert(fewer[i] == text[i]);
    }
    law_typed_text_is_shown(screen, fewer);
    lemma_typed_keeps_region(screen, fewer);
    let before = typed(screen, fewer);
    assert(text[text.len() - 1] == text.last());
    lemma_typed_last_byte(before, text.last());
    assert(overwritten(line, col, text_cells(fewer, screen.attrs())).update(
        col + fewer.len(),
        styled_cell(text.last() as char, screen.attrs()),
    ) =~= overwritten(line, col, text_cells(text, screen.attrs())));
}

/// A byte of text in the last column.
proof fn lemma_typed_last_byte(screen: ScreenModel, byte: u8)
    requires
        screen.wf(),
        is_text_byte(byte),
        screen.cursor().col + 1 == screen.cols,
        screen.cursor().row == screen.active().scroll_bottom ==> screen.active().scroll_top
            < screen.active().scroll_bottom,
    ensures
        ({
            let row = screen.cursor().row as int;
            let col = screen.cursor().col as int;
            let scrolls = screen.cursor().row == screen.active().scroll_bottom;
            let after = typed_byte(screen, byte);
            &&& after.wf()
            &&& after.cols == screen.cols
            &&& after.rows == screen.rows
            &&& after.active().lines[if scrolls {
                row - 1
            } else {
                row
            }] == screen.active().cursor_line().update(
                col,
                styled_cell(byte as char, screen.attrs()),
            )
            &&& after.cursor() == screen.cursor().at(
                if scrolls {
                    row
                } else {
                    min(row + 1, screen.rows - 1)
                },
                0,
            )
        }),
{
    reveal(typed_byte);
    lemma_typed_is_valid(screen, byte);
    let written = screen.stamped(byte as char, 1);
    assert(written.active().cursor_line() == screen.active().cursor_line().update(
        screen.cursor().col as int,
        styled_cell(byte as char, screen.attrs()),
    ));
}

/// A byte of text keeps the screen valid.
proof fn lemma_typed_is_valid(screen: ScreenModel, byte: u8)
    requires
        screen.wf(),
        is_text_byte(byte),
    ensures
        stays_valid(screen, typed_byte(screen, byte)),
{
    reveal(typed_byte);
    law_printing_marks_changed_rows(screen, byte as char, 1);
}

/// Text that does not wrap keeps the scroll region.
proof fn lemma_typed_keeps_region(screen: ScreenModel, text: Seq<u8>)
    requires
        screen.wf(),
        forall|i: int| 0 <= i < text.len() ==> is_text_byte(#[trigger] text[i]),
        screen.cursor().col + text.len() < screen.cols,
    ensures
        typed(screen, text).active().scroll_top == screen.active().scroll_top,
        typed(screen, text).active().scroll_bottom == screen.active().scroll_bottom,
    decreases text.len(),
{
    if text.len() > 0 {
        let fewer = text.drop_last();
        assert forall|i: int| 0 <= i < fewer.len() implies is_text_byte(#[trigger] fewer[i]) by {
            assert(fewer[i] == text[i]);
        }
        lemma_typed_keeps_region(screen, fewer);
        law_typed_text_is_shown(screen, fewer);
        assert(text[text.len() - 1] == text.last());
        reveal(typed_byte);
    }
}

/// Printable text that fits in its row and does not end in a space is found in
/// the text of the screen, unless it scrolls out of a scroll region of one row.
pub proof fn law_typed_text_is_found_on_screen(screen: ScreenModel, text: Seq<u8>)
    requires
        screen.wf(),
        forall|i: int| 0 <= i < text.len() ==> is_text_byte(#[trigger] text[i]),
        text_stays(screen, text.len()),
        text.len() > 0,
        text.last() != 0x20,
    ensures
        occurs_in(
            encode_utf8(typed(screen, text).dumped()),
            encode_utf8(text.map_values(|byte: u8| byte as char)),
        ),
{
    let col = screen.cursor().col as int;
    let after = typed(screen, text);
    let chars = text.map_values(|byte: u8| byte as char);
    let row = text_row(screen, text.len());
    lemma_text_row(screen, text);
    let line = after.active().lines[row];
    assert(chars_of(line).subrange(col, col + text.len()) =~= chars);
    lemma_shown_text_is_found(after, row, col, chars);
}

} // verus!
