use ultraterm::atlas::{
    glyph_upload, AtlasPacker, CachedGlyph, DrawnGlyph, GlyphCache, NewGlyph, Placement,
};
use ultraterm::draw::{
    all_rows, grown_capacity, overlay_layout, row_items, row_updates, DrawItem, GlyphKey,
    OverlayGlyph,
};
use ultraterm::screen::{default_fg, CursorShape, Rgb, Screen};

fn glyph(col: usize, ch: char) -> DrawItem {
    DrawItem::Glyph {
        col,
        key: GlyphKey {
            ch,
            bold: false,
            italic: false,
        },
        color: default_fg(),
    }
}

#[test]
fn a_row_draws_glyphs_backgrounds_and_cursor() {
    let mut screen = Screen::new(6, 2, 10);
    screen.put_char('a');
    screen.put_char(' ');
    let blue = Rgb::new(0, 0, 200);
    screen.set_bg(blue);
    screen.attrs_mut().bold = true;
    screen.put_char('b');
    assert_eq!(
        row_items(&screen, 0),
        vec![
            glyph(0, 'a'),
            DrawItem::Background {
                col: 2,
                color: blue,
            },
            DrawItem::Glyph {
                col: 2,
                key: GlyphKey {
                    ch: 'b',
                    bold: true,
                    italic: false,
                },
                color: default_fg(),
            },
            DrawItem::Cursor {
                col: 3,
                shape: CursorShape::Block,
            },
        ]
    );
    assert_eq!(row_items(&screen, 1), vec![]);
}

#[test]
fn wide_glyphs_are_drawn_once_and_hidden_cursors_not_at_all() {
    let mut screen = Screen::new(6, 1, 10);
    screen.put_char('界');
    screen.set_cursor_visible(false);
    assert_eq!(row_items(&screen, 0), vec![glyph(0, '界')]);
}

#[test]
fn only_existing_rows_are_updated() {
    let mut screen = Screen::new(4, 3, 10);
    screen.set_cursor_visible(false);
    screen.set_cursor(1, 0);
    screen.put_char('x');
    assert_eq!(all_rows(&screen), vec![0, 1, 2]);
    let updates = row_updates(&screen, &vec![2, 1, 9], 3);
    let rows: Vec<usize> = updates.iter().map(|update| update.row).collect();
    assert_eq!(rows, vec![2, 1]);
    assert_eq!(updates[0].items, vec![]);
    assert_eq!(updates[1].items, vec![glyph(0, 'x')]);
    let fewer = row_updates(&screen, &all_rows(&screen), 1);
    assert_eq!(fewer.len(), 1);
    assert_eq!(row_updates(&screen, &vec![], 3).len(), 0);
}

#[test]
fn buffers_grow_to_powers_of_two() {
    assert_eq!(grown_capacity(16, 16, 64), None);
    assert_eq!(grown_capacity(16, 17, 64), Some(64));
    assert_eq!(grown_capacity(64, 65, 64), Some(128));
    assert_eq!(grown_capacity(64, 128, 64), Some(128));
    assert_eq!(grown_capacity(0, 129, 256), Some(256));
    assert_eq!(grown_capacity(0, 1, 0), Some(1));
    assert_eq!(
        grown_capacity(0, (1 << 63) - 1, 0),
        Some(1 << 63)
    );
}

#[test]
fn overlay_text_is_laid_out() {
    let lines = vec!["a b".to_string(), String::new(), "longer".to_string()];
    let layout = overlay_layout(&lines);
    assert_eq!((layout.max_chars, layout.line_count), (6, 3));
    assert_eq!(
        layout.glyphs[..3].to_vec(),
        vec![
            OverlayGlyph {
                line: 0,
                col: 0,
                ch: 'a',
            },
            OverlayGlyph {
                line: 0,
                col: 2,
                ch: 'b',
            },
            OverlayGlyph {
                line: 2,
                col: 0,
                ch: 'l',
            },
        ]
    );
    assert_eq!(layout.glyphs.len(), 8);
    assert_eq!(overlay_layout(&vec![]).max_chars, 0);
}

#[test]
fn glyphs_are_packed_in_shelves() {
    let mut packer = AtlasPacker::new(16, 16);
    let place = |x, y, cleared| Placement { x, y, cleared };
    assert_eq!(packer.place(5, 4), place(1, 1, false));
    assert_eq!(packer.place(5, 6), place(7, 1, false));
    assert_eq!(packer.place(5, 3), place(1, 8, false));
    assert_eq!(packer.place(5, 7), place(1, 1, true));
    packer.clear();
    assert_eq!(packer.place(15, 15), place(1, 1, true));
}

#[test]
fn packed_glyphs_never_overlap() {
    let mut packer = AtlasPacker::new(40, 40);
    let mut placed: Vec<(u32, u32, u32, u32)> = Vec::new();
    for i in 0..200_u32 {
        let (w, h) = (1 + i * 7 % 13, 1 + i * 5 % 11);
        let at = packer.place(w, h);
        if at.cleared {
            placed.clear();
        }
        assert!(at.x >= 1 && at.y >= 1 && at.x + w <= 40 && at.y + h <= 40);
        for (x, y, pw, ph) in &placed {
            let apart = at.x + w <= *x || x + pw <= at.x || at.y + h <= *y || y + ph <= at.y;
            assert!(apart, "glyph {i} overlaps");
        }
        placed.push((at.x, at.y, w, h));
    }
}

#[test]
fn empty_bitmaps_become_a_pixel() {
    assert_eq!(glyph_upload(0, 3, vec![1, 2]), vec![0]);
    assert_eq!(glyph_upload(3, 0, vec![]), vec![0]);
    assert_eq!(glyph_upload(1, 1, vec![]), vec![0]);
    assert_eq!(glyph_upload(2, 1, vec![7, 8]), vec![7, 8]);
}

fn drawn(width: usize, height: usize) -> DrawnGlyph {
    DrawnGlyph {
        width,
        height,
        xmin: -1,
        ymin: 2,
        advance_bits: 7.5_f32.to_bits(),
    }
}

#[test]
fn cached_glyphs_are_found_again() {
    let key = |ch, bold| GlyphKey {
        ch,
        bold,
        italic: false,
    };
    let mut cache = GlyphCache::new(16, 16);
    assert_eq!((cache.width(), cache.height()), (16, 16));
    assert_eq!(cache.find(key('a', false)), None);
    assert!(cache.admits(&drawn(5, 4)));
    assert!(cache.admits(&drawn(5, 0)));
    assert!(!cache.admits(&drawn(16, 4)));
    assert!(!cache.admits(&drawn(4, 16)));
    let first = cache.add_glyph(key('a', false), &drawn(5, 4));
    let glyph = CachedGlyph {
        x: 1,
        y: 1,
        width: 5,
        height: 4,
        xmin: -1,
        ymin: 2,
        advance_bits: 7.5_f32.to_bits(),
    };
    assert_eq!(
        first,
        NewGlyph {
            glyph,
            cleared: false,
        }
    );
    let second = cache.add_glyph(key('a', true), &drawn(5, 6));
    assert_eq!(second.glyph.x, 7);
    assert_eq!(cache.find(key('a', false)), Some(glyph));
    assert_eq!(cache.find(key('a', false)), Some(glyph));
    assert_eq!(cache.find(key('a', true)), Some(second.glyph));
    let third = cache.add_glyph(key('b', false), &drawn(5, 9));
    assert!(third.cleared);
    assert_eq!((third.glyph.x, third.glyph.y), (1, 1));
    assert_eq!(cache.find(key('a', false)), None);
    assert_eq!(cache.find(key('b', false)), Some(third.glyph));
    cache.clear();
    assert_eq!(cache.find(key('b', false)), None);
}

#[test]
fn a_glyph_without_pixels_takes_one() {
    let mut cache = GlyphCache::new(16, 16);
    let key = GlyphKey {
        ch: ' ',
        bold: false,
        italic: false,
    };
    let added = cache.add_glyph(key, &drawn(0, 0));
    assert_eq!((added.glyph.width, added.glyph.height), (1, 1));
    assert_eq!(cache.find(key), Some(added.glyph));
}
