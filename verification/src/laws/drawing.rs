//! What is drawn, in which order, and where glyphs are kept.

use vstd::arithmetic::power2::{lemma2_to64, lemma_pow2_unfold, pow2};
use vstd::prelude::*;

use crate::atlas::{
    glyph_code, law_glyph_codes_differ, upload_of, AtlasPacker, CacheModel, CachedGlyph,
    DrawnGlyph,
};
use crate::draw::{
    cell_items, glyphs_of_line, glyphs_of_lines, is_next_power, items_of_row, line_items, longest,
    updates_of, DrawItem, GlyphKey, OverlayGlyph,
};
use crate::screen::cell::{Cell, CellFlags, Rgb};
use crate::screen::model::ScreenModel;

verus! {

/// The column of an item.
pub open spec fn column_of(item: DrawItem) -> int {
    match item {
        DrawItem::Background { col, .. } => col as int,
        DrawItem::Glyph { col, .. } => col as int,
        DrawItem::Cursor { col, .. } => col as int,
    }
}

proof fn lemma_items_are_ordered(line: Seq<Cell>, count: int, i: int, j: int)
    requires
        0 <= count <= line.len() <= usize::MAX,
        0 <= i < line_items(line, count).len(),
        i < j ==> j < line_items(line, count).len(),
    ensures
        0 <= column_of(line_items(line, count)[i]) < count,
        !(line_items(line, count)[i] is Cursor),
        i < j ==> {
            let a = line_items(line, count)[i];
            let b = line_items(line, count)[j];
            column_of(a) < column_of(b) || (column_of(a) == column_of(b) && a is Background
                && b is Glyph)
        },
    decreases count,
{
    let before = line_items(line, count - 1);
    let own = cell_items(line[count - 1], count - 1);
    let all = line_items(line, count);
    if i < before.len() {
        lemma_items_are_ordered(
            line,
            count - 1,
            i,
            if j < before.len() {
                j
            } else {
                i
            },
        );
        assert(all[i] == before[i]);
        if i < j && j < before.len() {
            assert(all[j] == before[j]);
        } else if i < j {
            assert(all[j] == own[j - before.len()]);
        }
    } else {
        assert(all[i] == own[i - before.len()]);
        if i < j {
            assert(all[j] == own[j - before.len()]);
        }
    }
}

proof fn lemma_items_are_needed(line: Seq<Cell>, count: int, i: int)
    requires
        0 <= count <= line.len() <= usize::MAX,
        0 <= i < line_items(line, count).len(),
    ensures
        is_needed(line, line_items(line, count)[i]),
    decreases count,
{
    let before = line_items(line, count - 1);
    if i < before.len() {
        lemma_items_are_needed(line, count - 1, i);
    } else {
        let own = cell_items(line[count - 1], count - 1);
        assert(line_items(line, count)[i] == own[i - before.len()]);
    }
}

/// Whether an item would be missed: a background that is not the default one, a glyph
/// that is neither a space nor the right half of a wide character, or the cursor.
pub open spec fn is_needed(line: Seq<Cell>, item: DrawItem) -> bool {
    match item {
        DrawItem::Background { color, .. } => color != (Rgb { r: 12, g: 12, b: 12 }),
        DrawItem::Glyph { col, key, .. } => key.ch != ' ' && !line[col as int].flags.contains(
            CellFlags::wide_cont(),
        ),
        DrawItem::Cursor { .. } => true,
    }
}

/// Nothing is drawn that cannot be seen.
pub proof fn law_only_needed_items_are_drawn(screen: ScreenModel, row: int, i: int)
    requires
        screen.wf(),
        0 <= row < screen.rows,
        0 <= i < items_of_row(screen, row).len(),
    ensures
        is_needed(screen.active().lines[row], items_of_row(screen, row)[i]),
{
    let line = screen.active().lines[row];
    if i < line_items(line, screen.cols as int).len() {
        lemma_items_are_needed(line, screen.cols as int, i);
    }
}

/// The items of a row come from left to right, the background of a cell before its glyph,
/// and the cursor at the very end.
pub proof fn law_items_are_in_order(screen: ScreenModel, row: int, i: int, j: int)
    requires
        screen.wf(),
        0 <= row < screen.rows,
        0 <= i < j < items_of_row(screen, row).len(),
    ensures
        ({
            let a = items_of_row(screen, row)[i];
            let b = items_of_row(screen, row)[j];
            &&& !(a is Cursor)
            &&& b is Cursor || column_of(a) < column_of(b) || (column_of(a) == column_of(b)
                && a is Background && b is Glyph)
        }),
{
    let line = screen.active().lines[row];
    let cells = line_items(line, screen.cols as int);
    let items = items_of_row(screen, row);
    assert(i < cells.len());
    assert(items[i] == cells[i]);
    if j < cells.len() {
        assert(items[j] == cells[j]);
        lemma_items_are_ordered(line, screen.cols as int, i, j);
    } else {
        lemma_items_are_ordered(line, screen.cols as int, i, i);
    }
}

/// Each row that has to be drawn again, that the screen has and that there is a buffer
/// for, gets an update with the items of that row.
pub proof fn law_dirty_rows_are_updated(
    screen: ScreenModel,
    rows: Seq<usize>,
    buffers: int,
    count: int,
    i: int,
)
    requires
        0 <= i < count <= rows.len(),
        rows[i] < screen.rows,
        rows[i] < buffers,
    ensures
        updates_of(screen, rows, buffers, count).contains(
            (rows[i] as int, items_of_row(screen, rows[i] as int)),
        ),
    decreases count,
{
    let update = (rows[i] as int, items_of_row(screen, rows[i] as int));
    let all = updates_of(screen, rows, buffers, count);
    if i == count - 1 {
        assert(all.last() == update);
    } else {
        law_dirty_rows_are_updated(screen, rows, buffers, count - 1, i);
        let before = updates_of(screen, rows, buffers, count - 1);
        assert(all[before.index_of(update)] == update);
    }
}

/// Only rows that have to be drawn again, that the screen has and that there is a buffer
/// for, get an update, and it has the items of that row.
pub proof fn law_only_dirty_rows_are_updated(
    screen: ScreenModel,
    rows: Seq<usize>,
    buffers: int,
    count: int,
    j: int,
)
    requires
        0 <= count <= rows.len(),
        0 <= j < updates_of(screen, rows, buffers, count).len(),
    ensures
        ({
            let update = updates_of(screen, rows, buffers, count)[j];
            &&& rows.contains(update.0 as usize)
            &&& 0 <= update.0 < screen.rows
            &&& update.0 < buffers
            &&& update.1 == items_of_row(screen, update.0)
        }),
    decreases count,
{
    let before = updates_of(screen, rows, buffers, count - 1);
    if j < before.len() {
        law_only_dirty_rows_are_updated(screen, rows, buffers, count - 1, j);
    } else {
        assert(rows[count - 1] == updates_of(screen, rows, buffers, count)[j].0);
    }
}

/// Every character is a Unicode scalar value.
proof fn lemma_scalar_value(ch: char)
    ensures
        0 <= ch as int <= 0xd7ff || 0xe000 <= ch as int <= 0x10ffff,
{
}

proof fn lemma_glyphs_of_line(text: Seq<char>, line: int, count: int, col: int)
    requires
        0 <= col < count <= text.len() <= usize::MAX,
        text[col] != ' ',
    ensures
        glyphs_of_line(text, line, count).contains(
            OverlayGlyph { line: line as usize, col: col as usize, ch: text[col] },
        ),
    decreases count,
{
    let glyph = OverlayGlyph { line: line as usize, col: col as usize, ch: text[col] };
    let before = glyphs_of_line(text, line, count - 1);
    let all = glyphs_of_line(text, line, count);
    lemma_scalar_value(text[count - 1]);
    if col == count - 1 {
        assert(all.last() == glyph);
    } else {
        lemma_glyphs_of_line(text, line, count - 1, col);
        assert(all[before.index_of(glyph)] == glyph);
    }
}

/// Every character of the overlay that is not a space has a glyph in its line and column.
pub proof fn law_overlay_is_drawn_in_full(lines: Seq<String>, count: int, line: int, col: int)
    requires
        0 <= line < count <= lines.len() <= usize::MAX,
        0 <= col < lines[line]@.len() <= usize::MAX,
        lines[line]@[col] != ' ',
    ensures
        glyphs_of_lines(lines, count).contains(
            OverlayGlyph { line: line as usize, col: col as usize, ch: lines[line]@[col] },
        ),
    decreases count,
{
    let glyph = OverlayGlyph { line: line as usize, col: col as usize, ch: lines[line]@[col] };
    let before = glyphs_of_lines(lines, count - 1);
    let text = lines[count - 1]@;
    let own = glyphs_of_line(text, count - 1, text.len() as int);
    let all = glyphs_of_lines(lines, count);
    if line == count - 1 {
        lemma_glyphs_of_line(text, line, text.len() as int, col);
        assert(all[before.len() + own.index_of(glyph)] == glyph);
    } else {
        law_overlay_is_drawn_in_full(lines, count - 1, line, col);
        assert(all[before.index_of(glyph)] == glyph);
    }
}

proof fn lemma_only_glyphs_of_line(text: Seq<char>, line: int, count: int, i: int)
    requires
        0 <= count <= text.len() <= usize::MAX,
        0 <= line <= usize::MAX,
        0 <= i < glyphs_of_line(text, line, count).len(),
    ensures
        ({
            let glyph = glyphs_of_line(text, line, count)[i];
            &&& glyph.line == line
            &&& glyph.col < count
            &&& glyph.ch == text[glyph.col as int]
            &&& glyph.ch != ' '
        }),
    decreases count,
{
    let before = glyphs_of_line(text, line, count - 1);
    lemma_scalar_value(text[count - 1]);
    if i < before.len() {
        lemma_only_glyphs_of_line(text, line, count - 1, i);
    }
}

/// Every glyph of the overlay shows the character of its line and column, which is no
/// space.
pub proof fn law_overlay_draws_only_its_text(lines: Seq<String>, count: int, i: int)
    requires
        0 <= count <= lines.len() <= usize::MAX,
        forall|k: int| 0 <= k < lines.len() ==> (#[trigger] lines[k])@.len() <= usize::MAX,
        0 <= i < glyphs_of_lines(lines, count).len(),
    ensures
        ({
            let glyph = glyphs_of_lines(lines, count)[i];
            &&& glyph.line < count
            &&& glyph.col < lines[glyph.line as int]@.len()
            &&& glyph.ch == lines[glyph.line as int]@[glyph.col as int]
            &&& glyph.ch != ' '
        }),
    decreases count,
{
    let before = glyphs_of_lines(lines, count - 1);
    if i < before.len() {
        law_overlay_draws_only_its_text(lines, count - 1, i);
    } else {
        let text = lines[count - 1]@;
        lemma_only_glyphs_of_line(text, count - 1, text.len() as int, i - before.len());
    }
}

/// The width of the overlay is that of its longest line.
pub proof fn law_overlay_is_as_wide_as_its_longest_line(lines: Seq<String>, count: int)
    requires
        0 <= count <= lines.len(),
    ensures
        forall|i: int| 0 <= i < count ==> (#[trigger] lines[i])@.len() <= longest(lines, count),
        count == 0 ==> longest(lines, count) == 0,
        count > 0 ==> exists|i: int|
            0 <= i < count && (#[trigger] lines[i])@.len() == longest(lines, count),
    decreases count,
{
    if count > 0 {
        law_overlay_is_as_wide_as_its_longest_line(lines, count - 1);
        assert(lines[count - 1]@.len() <= longest(lines, count));
        if longest(lines, count) == longest(lines, count - 1) && count > 1 {
            let i = choose|i: int|
                0 <= i < count - 1 && (#[trigger] lines[i])@.len() == longest(lines, count - 1);
            assert(lines[i]@.len() == longest(lines, count));
        } else {
            assert(lines[count - 1]@.len() == longest(lines, count));
        }
    }
}

/// A glyph goes to the next free place of the current shelf if it fits there, else to the
/// start of a new shelf below it. Only if it does not fit there either, the atlas is
/// emptied and the glyph goes to its first place.
pub proof fn law_atlas_is_emptied_only_when_full(packer: AtlasPacker, width: int, height: int)
    requires
        packer.wf(),
        packer.admits(width, height),
    ensures
        ({
            let place = packer.placement(width, height);
            let after = packer.with_glyph(width, height);
            let fits_beside = packer.next_x + width + 1 < packer.width;
            let top = if fits_beside {
                packer.next_y as int
            } else {
                packer.next_y + packer.row_height + 1
            };
            let fits_below = top + height + 1 < packer.height;
            &&& place.cleared == !fits_below
            &&& fits_below ==> place.y == top
            &&& fits_below && fits_beside ==> place.x == packer.next_x
            &&& fits_below && !fits_beside ==> place.x == 1
            &&& !fits_below ==> place.x == 1 && place.y == 1
            &&& after.next_x == place.x + width + 1
            &&& after.next_y == place.y
            &&& after.width == packer.width && after.height == packer.height
            &&& after.row_height >= height
            &&& fits_below && fits_beside ==> after.row_height >= packer.row_height && (
            after.row_height == height || after.row_height == packer.row_height)
            &&& !(fits_below && fits_beside) ==> after.row_height == height
        }),
{
}

/// Whether a pixel belongs to a glyph.
pub open spec fn has_pixel(glyph: CachedGlyph, x: int, y: int) -> bool {
    glyph.x <= x < glyph.x + glyph.width && glyph.y <= y < glyph.y + glyph.height
}

/// No pixel of the atlas belongs to two glyphs, and every pixel of a glyph lies in the
/// atlas, off its first row and column.
pub proof fn law_glyphs_share_no_pixel(
    cache: CacheModel,
    a: GlyphKey,
    b: GlyphKey,
    x: int,
    y: int,
)
    requires
        cache.wf(),
        cache.found(a) is Some,
        cache.found(b) is Some,
        has_pixel(cache.found(a)->0, x, y),
        has_pixel(cache.found(b)->0, x, y),
    ensures
        a == b,
        1 <= x < cache.packer.width,
        1 <= y < cache.packer.height,
{
    let one = glyph_code(a) as u64;
    let other = glyph_code(b) as u64;
    assert(cache.glyphs.dom().contains(one) && cache.glyphs.dom().contains(other));
    if one == other {
        law_glyph_codes_differ(a, b);
    }
}

/// The size that a buffer grows to is a power of two that holds what is needed and is less
/// than twice as large.
pub proof fn law_buffers_grow_to_the_next_power(size: int, needed: int)
    requires
        1 <= needed,
        is_next_power(size, needed),
    ensures
        needed <= size < 2 * needed,
        exists|k: nat| #[trigger] pow2(k) == size,
{
    let k = choose|k: nat| #[trigger]
        pow2(k) == size && needed <= size && (k > 0 ==> pow2((k - 1) as nat) < needed);
    lemma2_to64();
    if k > 0 {
        lemma_pow2_unfold(k);
    }
}

/// A glyph is uploaded with its bitmap, and with one transparent pixel if it has none.
pub proof fn law_glyph_is_uploaded(width: int, height: int, bitmap: Seq<u8>)
    ensures
        width > 0 && height > 0 && bitmap.len() > 0 ==> upload_of(width, height, bitmap) == bitmap,
        width == 0 || height == 0 || bitmap.len() == 0 ==> upload_of(width, height, bitmap).len()
            == 1 && upload_of(width, height, bitmap)[0] == 0,
{
}

/// An emptied atlas has all its room again, and no glyphs.
pub proof fn law_emptied_atlas_is_free(cache: CacheModel, key: GlyphKey)
    ensures
        cache.emptied().packer.next_x == 1,
        cache.emptied().packer.next_y == 1,
        cache.emptied().packer.row_height == 0,
        cache.emptied().packer.width == cache.packer.width,
        cache.emptied().packer.height == cache.packer.height,
        cache.emptied().found(key) is None,
{
}

/// An entry of the cache has the place that was found, the size of the bitmap, of which
/// each side counts as at least one, and what the font said of the glyph.
pub proof fn law_cached_glyph_is_as_drawn(cache: CacheModel, key: GlyphKey, drawn: DrawnGlyph)
    requires
        cache.wf(),
        cache.admits(drawn),
    ensures
        ({
            let glyph: CachedGlyph = cache.new_glyph(drawn);
            &&& drawn.width > 0 ==> glyph.width == drawn.width
            &&& drawn.width == 0 ==> glyph.width == 1
            &&& drawn.height > 0 ==> glyph.height == drawn.height
            &&& drawn.height == 0 ==> glyph.height == 1
            &&& glyph.xmin == drawn.xmin && glyph.ymin == drawn.ymin
            &&& glyph.advance_bits == drawn.advance_bits
            &&& glyph.x == cache.packer.placement(glyph.width as int, glyph.height as int).x
            &&& glyph.y == cache.packer.placement(glyph.width as int, glyph.height as int).y
            &&& cache.with_glyph(key, drawn).found(key) == Some(glyph)
        }),
{
}

} // verus!
