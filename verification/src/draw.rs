//! What is drawn: backgrounds, glyphs and the cursor of each row, the overlay
//! text, and how large the buffers for it have to be.

use vstd::arithmetic::power2::{
    lemma2_to64, lemma2_to64_rest, lemma_pow2_pos, lemma_pow2_strictly_increases, lemma_pow2_unfold,
    pow2,
};
use vstd::prelude::*;
use vstd::string::StrSliceExecFns;

use crate::screen::cell::{default_bg, Cell, CellFlags, Cursor, CursorShape, Rgb};
use crate::screen::model::{max, ScreenModel};
use crate::screen::terminal_screen::Screen;

verus! {

/// What tells one glyph image from another.
#[derive(Clone, Copy, Debug, PartialEq, Eq, Hash, Structural)]
pub struct GlyphKey {
    pub ch: char,
    pub bold: bool,
    pub italic: bool,
}

/// One thing to draw in a row.
#[derive(Clone, Copy, Debug, PartialEq, Eq, Structural)]
pub enum DrawItem {
    /// A cell filled with a colour.
    Background { col: usize, color: Rgb },
    /// A glyph in a colour.
    Glyph { col: usize, key: GlyphKey, color: Rgb },
    Cursor { col: usize, shape: CursorShape },
}

/// The items of one cell: its background unless that is the default one, and its
/// glyph unless it is a space or the right half of a wide character.
pub open spec fn cell_items(cell: Cell, col: int) -> Seq<DrawItem> {
    let background = DrawItem::Background { col: col as usize, color: cell.bg };
    let glyph = DrawItem::Glyph {
        col: col as usize,
        key: GlyphKey {
            ch: cell.ch,
            bold: cell.flags.contains(CellFlags::bold()),
            italic: cell.flags.contains(CellFlags::italic()),
        },
        color: cell.fg,
    };
    (if cell.bg == default_bg() {
        Seq::empty()
    } else {
        seq![background]
    }) + (if cell.ch == ' ' || cell.flags.contains(CellFlags::wide_cont()) {
        Seq::empty()
    } else {
        seq![glyph]
    })
}

/// The items of the first `count` cells of a line.
pub open spec fn line_items(line: Seq<Cell>, count: int) -> Seq<DrawItem>
    decreases count,
{
    if count <= 0 {
        Seq::empty()
    } else {
        line_items(line, count - 1) + cell_items(line[count - 1], count - 1)
    }
}

/// The cursor, if it is visible and in this row.
pub open spec fn cursor_items(cursor: Cursor, row: int) -> Seq<DrawItem> {
    if cursor.visible && cursor.row == row {
        seq![DrawItem::Cursor { col: cursor.col, shape: cursor.shape }]
    } else {
        Seq::empty()
    }
}

/// The items of a row, in the order they are drawn.
pub open spec fn items_of_row(screen: ScreenModel, row: int) -> Seq<DrawItem> {
    line_items(screen.active().lines[row], screen.cols as int) + cursor_items(
        screen.cursor(),
        row,
    )
}

fn push_cell(items: &mut Vec<DrawItem>, cell: Cell, col: usize)
    ensures
        final(items)@ == old(items)@ + cell_items(cell, col as int),
{
    if cell.bg != default_bg() {
        items.push(DrawItem::Background { col, color: cell.bg });
    }
    if cell.ch != ' ' && !cell.flags.contains(CellFlags::wide_cont()) {
        let key = GlyphKey {
            ch: cell.ch,
            bold: cell.flags.contains(CellFlags::bold()),
            italic: cell.flags.contains(CellFlags::italic()),
        };
        items.push(DrawItem::Glyph { col, key, color: cell.fg });
    }
    assert(items@ =~= old(items)@ + cell_items(cell, col as int));
}

/// The items of a row, in the order they are drawn.
pub fn row_items(screen: &Screen, row: usize) -> (items: Vec<DrawItem>)
    requires
        screen.wf(),
        row < screen@.rows,
    ensures
        items@ == items_of_row(screen@, row as int),
{
    let line: &[Cell] = screen.line(row);
    let mut items: Vec<DrawItem> = Vec::new();
    let mut col: usize = 0;
    while col < line.len()
        invariant
            col <= line@.len(),
            items@ == line_items(line@, col as int),
        decreases line@.len() - col,
    {
        push_cell(&mut items, line[col], col);
        col = col + 1;
    }
    let cursor: Cursor = screen.cursor();
    if cursor.visible && cursor.row == row {
        items.push(DrawItem::Cursor { col: cursor.col, shape: cursor.shape });
    }
    assert(items@ =~= items_of_row(screen@, row as int));
    items
}

/// The new items of a row.
pub struct RowUpdate {
    pub row: usize,
    pub items: Vec<DrawItem>,
}

/// A row update as a mathematical value.
pub open spec fn update_model(update: RowUpdate) -> (int, Seq<DrawItem>) {
    (update.row as int, update.items@)
}

/// The updates for the first `count` of some rows, without rows that the screen
/// or the buffers do not have.
pub open spec fn updates_of(
    screen: ScreenModel,
    rows: Seq<usize>,
    buffers: int,
    count: int,
) -> Seq<(int, Seq<DrawItem>)>
    decreases count,
{
    if count <= 0 {
        Seq::empty()
    } else {
        let row = rows[count - 1] as int;
        let before = updates_of(screen, rows, buffers, count - 1);
        if row < screen.rows && row < buffers {
            before.push((row, items_of_row(screen, row)))
        } else {
            before
        }
    }
}

/// The updates for the rows that have to be drawn again, given how many row
/// buffers there are.
pub fn row_updates(screen: &Screen, dirty_rows: &Vec<usize>, buffers: usize) -> (updates: Vec<
    RowUpdate,
>)
    requires
        screen.wf(),
    ensures
        updates@.map_values(|update: RowUpdate| update_model(update)) == updates_of(
            screen@,
            dirty_rows@,
            buffers as int,
            dirty_rows@.len() as int,
        ),
{
    let mut updates: Vec<RowUpdate> = Vec::new();
    let mut i: usize = 0;
    assert(updates@.map_values(|update: RowUpdate| update_model(update)) =~= updates_of(
        screen@,
        dirty_rows@,
        buffers as int,
        0,
    ));
    while i < dirty_rows.len()
        invariant
            screen.wf(),
            i <= dirty_rows@.len(),
            updates@.map_values(|update: RowUpdate| update_model(update)) == updates_of(
                screen@,
                dirty_rows@,
                buffers as int,
                i as int,
            ),
        decreases dirty_rows@.len() - i,
    {
        let row: usize = dirty_rows[i];
        if row < screen.rows() && row < buffers {
            let items: Vec<DrawItem> = row_items(screen, row);
            updates.push(RowUpdate { row, items });
        }
        i = i + 1;
        assert(updates@.map_values(|update: RowUpdate| update_model(update)) =~= updates_of(
            screen@,
            dirty_rows@,
            buffers as int,
            i as int,
        ));
    }
    updates
}

/// Every row of the screen, from top to bottom.
pub fn all_rows(screen: &Screen) -> (rows: Vec<usize>)
    ensures
        rows@ == Seq::new(screen@.rows as nat, |r: int| r as usize),
{
    let mut rows: Vec<usize> = Vec::new();
    let count: usize = screen.rows();
    let mut row: usize = 0;
    while row < count
        invariant
            row <= count,
            rows@ =~= Seq::new(row as nat, |r: int| r as usize),
        decreases count - row,
    {
        rows.push(row);
        row = row + 1;
    }
    rows
}

/// The largest size whose next power of two can be told.
pub const MAX_BUFFER_SIZE: u64 = 0x8000_0000_0000_0000;

/// Whether `size` is the smallest power of two that is not below `needed`.
pub open spec fn is_next_power(size: int, needed: int) -> bool {
    exists|k: nat| #[trigger]
        pow2(k) == size && needed <= size && (k > 0 ==> pow2((k - 1) as nat) < needed)
}

/// The smallest power of two that is not below `needed`.
fn next_power(needed: u64) -> (size: u64)
    requires
        needed <= MAX_BUFFER_SIZE,
    ensures
        is_next_power(size as int, needed as int),
{
    let mut size: u64 = 1;
    let ghost mut k: nat = 0;
    proof {
        lemma2_to64();
        lemma2_to64_rest();
    }
    while size < needed
        invariant
            needed <= MAX_BUFFER_SIZE,
            size == pow2(k),
            size <= MAX_BUFFER_SIZE,
            k <= 63,
            MAX_BUFFER_SIZE == pow2(63),
            k > 0 ==> pow2((k - 1) as nat) < needed,
        decreases MAX_BUFFER_SIZE - size,
    {
        proof {
            lemma_pow2_unfold(k + 1);
            if k == 63 {
                assert(false);
            }
            if k + 1 < 63 {
                lemma_pow2_strictly_increases(k + 1, 63);
            }
            lemma_pow2_pos(k);
        }
        size = size * 2;
        proof {
            k = k + 1;
        }
    }
    size
}

/// The size that a buffer has to be replaced with to hold `needed` bytes: a power
/// of two that is not below `floor`. Nothing if the buffer is large enough.
pub fn grown_capacity(capacity: u64, needed: u64, floor: u64) -> (grown: Option<u64>)
    requires
        needed <= MAX_BUFFER_SIZE,
    ensures
        grown is None <==> needed <= capacity,
        grown is Some ==> exists|power: u64| #[trigger]
            is_next_power(power as int, needed as int) && grown->0 == max(
                power as int,
                floor as int,
            ),
{
    if needed <= capacity {
        return None;
    }
    let power: u64 = next_power(needed);
    Some(power.max(floor))
}

/// A character of the overlay text and where it stands.
#[derive(Clone, Copy, Debug, PartialEq, Eq, Structural)]
pub struct OverlayGlyph {
    pub line: usize,
    pub col: usize,
    pub ch: char,
}

/// The length of the longest of the first `count` lines.
pub open spec fn longest(lines: Seq<String>, count: int) -> int
    decreases count,
{
    if count <= 0 {
        0
    } else {
        max(longest(lines, count - 1), lines[count - 1]@.len() as int)
    }
}

/// The glyphs of the first `count` characters of a line; spaces have none.
pub open spec fn glyphs_of_line(text: Seq<char>, line: int, count: int) -> Seq<OverlayGlyph>
    decreases count,
{
    if count <= 0 {
        Seq::empty()
    } else {
        let before = glyphs_of_line(text, line, count - 1);
        let ch = text[count - 1];
        if ch == ' ' {
            before
        } else {
            before.push(OverlayGlyph { line: line as usize, col: (count - 1) as usize, ch: ch })
        }
    }
}

/// The glyphs of the first `count` lines.
pub open spec fn glyphs_of_lines(lines: Seq<String>, count: int) -> Seq<OverlayGlyph>
    decreases count,
{
    if count <= 0 {
        Seq::empty()
    } else {
        glyphs_of_lines(lines, count - 1) + glyphs_of_line(
            lines[count - 1]@,
            count - 1,
            lines[count - 1]@.len() as int,
        )
    }
}

/// The overlay text: how many columns and lines it takes, and its glyphs.
pub struct OverlayLayout {
    pub max_chars: usize,
    pub line_count: usize,
    pub glyphs: Vec<OverlayGlyph>,
}

fn push_overlay_line(glyphs: &mut Vec<OverlayGlyph>, text: &str, line: usize)
    ensures
        final(glyphs)@ == old(glyphs)@ + glyphs_of_line(
            text@,
            line as int,
            text@.len() as int,
        ),
{
    let len: usize = text.unicode_len();
    let ghost before = glyphs@;
    let mut col: usize = 0;
    assert(before + glyphs_of_line(text@, line as int, 0) =~= before);
    while col < len
        invariant
            col <= len,
            len == text@.len(),
            glyphs@ == before + glyphs_of_line(text@, line as int, col as int),
        decreases len - col,
    {
        let ch: char = text.get_char(col);
        if ch != ' ' {
            glyphs.push(OverlayGlyph { line, col, ch });
        }
        col = col + 1;
        assert(glyphs@ =~= before + glyphs_of_line(text@, line as int, col as int));
    }
}

/// Lays out the lines of the overlay.
pub fn overlay_layout(lines: &Vec<String>) -> (layout: OverlayLayout)
    ensures
        layout.max_chars == longest(lines@, lines@.len() as int),
        layout.line_count == lines@.len(),
        layout.glyphs@ == glyphs_of_lines(lines@, lines@.len() as int),
{
    let mut glyphs: Vec<OverlayGlyph> = Vec::new();
    let mut max_chars: usize = 0;
    let mut i: usize = 0;
    while i < lines.len()
        invariant
            i <= lines@.len(),
            max_chars == longest(lines@, i as int),
            glyphs@ == glyphs_of_lines(lines@, i as int),
        decreases lines@.len() - i,
    {
        let text: &str = lines[i].as_str();
        max_chars = max_chars.max(text.unicode_len());
        push_overlay_line(&mut glyphs, text, i);
        i = i + 1;
    }
    OverlayLayout { max_chars, line_count: lines.len(), glyphs }
}

} // verus!
