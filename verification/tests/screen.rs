use ultraterm::screen::{
    ansi_256_to_rgb, basic_ansi_to_rgb, cursor_color, default_bg, default_fg, AttrState, Cell,
    CellFlags, Cursor, CursorShape, Rgb, Screen, ScrollbackRing,
};

fn type_text(screen: &mut Screen, text: &str) {
    for ch in text.chars() {
        match ch {
            '\n' => {
                screen.carriage_return();
                screen.line_feed();
            }
            _ => screen.put_char(ch),
        }
    }
}

fn filled(cols: usize, rows: usize, text: &str) -> Screen {
    let mut screen = Screen::new(cols, rows, 100);
    type_text(&mut screen, text);
    screen
}

fn row_text(screen: &Screen, row: usize) -> String {
    let text: String = screen.line(row).iter().map(|cell| cell.ch).collect();
    text.trim_end().to_string()
}

fn page(screen: &Screen) -> Vec<String> {
    (0..screen.rows()).map(|row| row_text(screen, row)).collect()
}

fn at(screen: &Screen) -> (usize, usize) {
    (screen.cursor().row, screen.cursor().col)
}

fn history(screen: &Screen) -> Vec<String> {
    (0..screen.scrollback.len())
        .map(|i| {
            let line: String = screen
                .scrollback
                .get(i)
                .map(|line| line.iter().map(|cell| cell.ch).collect())
                .unwrap_or_default();
            line.trim_end().to_string()
        })
        .collect()
}

#[test]
fn new_screen_is_blank_and_marked() {
    let mut screen = Screen::new(4, 3, 10);
    assert_eq!((screen.cols(), screen.rows()), (4, 3));
    assert_eq!(at(&screen), (0, 0));
    assert!(screen.cursor().visible);
    assert_eq!(screen.cursor().shape, CursorShape::Block);
    assert_eq!(screen.scroll_region(), (0, 2));
    assert!(screen.line(2).iter().all(|cell| *cell == Cell::blank()));
    assert_eq!(screen.take_dirty_rows(), vec![0, 1, 2]);
    assert_eq!(screen.take_dirty_rows(), Vec::<usize>::new());
}

#[test]
fn a_screen_has_at_least_one_cell() {
    let screen = Screen::new(0, 0, 0);
    assert_eq!((screen.cols(), screen.rows()), (1, 1));
}

#[test]
fn printing_advances_and_marks_the_row() {
    let mut screen = Screen::new(5, 2, 10);
    screen.take_dirty_rows();
    type_text(&mut screen, "ab");
    assert_eq!(row_text(&screen, 0), "ab");
    assert_eq!(at(&screen), (0, 2));
    assert_eq!(screen.take_dirty_rows(), vec![0]);
}

#[test]
fn a_full_row_wraps_and_scrolls() {
    let screen = filled(3, 2, "abcdefgh");
    assert_eq!(page(&screen), vec!["def", "gh"]);
    assert_eq!(history(&screen), vec!["abc"]);
    assert_eq!(at(&screen), (1, 2));
}

#[test]
fn the_last_column_marks_its_row_and_the_next() {
    let mut screen = Screen::new(3, 3, 10);
    type_text(&mut screen, "ab");
    screen.take_dirty_rows();
    screen.put_char('c');
    assert_eq!(row_text(&screen, 0), "abc");
    assert_eq!(at(&screen), (1, 0));
    assert_eq!(screen.take_dirty_rows(), vec![0, 1]);
}

#[test]
fn wide_characters_take_two_cells() {
    let mut screen = Screen::new(5, 2, 10);
    screen.put_char('界');
    assert_eq!(at(&screen), (0, 2));
    assert_eq!(screen.line(0)[0].ch, '界');
    assert_eq!(screen.line(0)[1].ch, ' ');
    assert!(screen.line(0)[1].flags.contains(CellFlags::wide_cont()));
    assert!(!screen.line(0)[0].flags.contains(CellFlags::wide_cont()));
    assert_eq!(screen.extract_selection_text((0, 0), (0, 1)), "界");
}

#[test]
fn a_wide_character_does_not_fit_in_the_last_column() {
    let mut screen = Screen::new(3, 2, 10);
    type_text(&mut screen, "ab界");
    assert_eq!(row_text(&screen, 0), "ab");
    assert_eq!(screen.line(1)[0].ch, '界');
    assert_eq!(at(&screen), (1, 2));
    let mut narrow = Screen::new(2, 1, 10);
    narrow.put_char('界');
    assert_eq!(at(&narrow), (0, 1));
}

#[test]
fn combining_and_control_characters_take_one_cell() {
    let mut screen = Screen::new(5, 1, 10);
    screen.put_char('\u{301}');
    assert_eq!(at(&screen), (0, 1));
    screen.put_char('\u{85}');
    assert_eq!(at(&screen), (0, 2));
}

#[test]
fn the_given_width_decides() {
    let mut screen = Screen::new(5, 1, 10);
    screen.put_char_of_width('x', 2);
    assert_eq!(at(&screen), (0, 2));
    screen.put_char_of_width('y', 3);
    assert_eq!(at(&screen), (0, 3));
}

#[test]
fn attributes_show_in_cells() {
    let mut screen = Screen::new(5, 1, 10);
    let red = Rgb::new(200, 0, 0);
    screen.set_fg(red);
    screen.attrs_mut().bold = true;
    screen.attrs_mut().inverse = true;
    screen.put_char('x');
    let cell = screen.line(0)[0];
    assert_eq!(cell.fg, default_bg());
    assert_eq!(cell.bg, red);
    assert_eq!(
        cell.flags,
        CellFlags::bold().union(CellFlags::inverse())
    );
    screen.reset_attrs();
    screen.set_bg(red);
    screen.put_char('y');
    let cell = screen.line(0)[1];
    assert_eq!((cell.fg, cell.bg), (default_fg(), red));
    assert_eq!(cell.flags, CellFlags::empty());
}

#[test]
fn cursor_moves_stay_in_the_grid() {
    let mut screen = Screen::new(4, 3, 10);
    screen.set_cursor(9, 9);
    assert_eq!(at(&screen), (2, 3));
    screen.cursor_up(1);
    screen.cursor_back(2);
    assert_eq!(at(&screen), (1, 1));
    screen.cursor_up(usize::MAX);
    screen.cursor_back(usize::MAX);
    assert_eq!(at(&screen), (0, 0));
    screen.cursor_down(usize::MAX);
    screen.cursor_forward(usize::MAX);
    assert_eq!(at(&screen), (2, 3));
    screen.carriage_return();
    screen.backspace();
    assert_eq!(at(&screen), (2, 0));
}

#[test]
fn moving_marks_the_row_the_cursor_comes_to() {
    let mut screen = Screen::new(4, 4, 10);
    screen.take_dirty_rows();
    screen.set_cursor(2, 1);
    assert_eq!(screen.take_dirty_rows(), vec![2]);
    screen.mark_dirty(3);
    screen.mark_dirty(99);
    assert_eq!(screen.take_dirty_rows(), vec![3]);
    screen.mark_all_dirty();
    assert_eq!(screen.take_dirty_rows(), vec![0, 1, 2, 3]);
}

#[test]
fn tab_stops_are_eight_columns_apart() {
    let mut screen = Screen::new(20, 1, 10);
    screen.tab();
    assert_eq!(at(&screen), (0, 8));
    screen.tab();
    assert_eq!(at(&screen), (0, 16));
    screen.tab();
    assert_eq!(at(&screen), (0, 19));
    screen.tab();
    assert_eq!(at(&screen), (0, 19));
}

#[test]
fn cursor_style_can_be_set() {
    let mut screen = Screen::new(4, 2, 10);
    screen.set_cursor_visible(false);
    screen.set_cursor_shape(CursorShape::Beam);
    assert!(!screen.cursor().visible);
    assert_eq!(screen.cursor().shape, CursorShape::Beam);
}

#[test]
fn saved_cursor_comes_back_with_attributes() {
    let mut screen = Screen::new(10, 4, 10);
    screen.set_cursor(1, 2);
    screen.attrs_mut().italic = true;
    screen.save_cursor();
    screen.set_cursor(3, 9);
    screen.reset_attrs();
    screen.put_char('x');
    screen.restore_cursor();
    assert_eq!(at(&screen), (1, 2));
    assert!(screen.attrs_mut().italic);
}

#[test]
fn line_feed_scrolls_only_the_region() {
    let mut screen = filled(3, 4, "a\nb\nc\nd");
    screen.set_scroll_region(2, 3);
    assert_eq!(at(&screen), (1, 0));
    screen.set_cursor(2, 0);
    screen.line_feed();
    assert_eq!(page(&screen), vec!["a", "c", "", "d"]);
    assert_eq!(history(&screen), Vec::<String>::new());
    screen.set_cursor(1, 0);
    screen.reverse_index();
    assert_eq!(page(&screen), vec!["a", "", "c", "d"]);
}

#[test]
fn scroll_regions_of_one_row_are_refused() {
    let mut screen = Screen::new(3, 4, 10);
    screen.set_scroll_region(2, 2);
    assert_eq!(screen.scroll_region(), (0, 3));
    screen.set_scroll_region(0, 99);
    assert_eq!(screen.scroll_region(), (0, 3));
    screen.set_scroll_region(2, 3);
    assert_eq!(screen.scroll_region(), (1, 2));
    screen.reset_scroll_region();
    assert_eq!(screen.scroll_region(), (0, 3));
}

#[test]
fn line_feed_below_the_region_stops_at_the_last_row() {
    let mut screen = filled(3, 4, "a\nb\nc\nd");
    screen.set_scroll_region(1, 2);
    screen.set_cursor(3, 0);
    screen.line_feed();
    assert_eq!(at(&screen), (3, 0));
    assert_eq!(page(&screen), vec!["a", "b", "c", "d"]);
}

#[test]
fn reverse_line_feed_undoes_line_feed() {
    let mut screen = filled(3, 4, "a\nb");
    screen.line_feed();
    screen.reverse_index();
    assert_eq!(at(&screen), (1, 1));
    assert_eq!(page(&screen), vec!["a", "b", "", ""]);
}

#[test]
fn scrolling_up_keeps_history_in_order() {
    let mut screen = filled(3, 3, "a\nb\nc");
    screen.scroll_up(2, 0, 2);
    assert_eq!(page(&screen), vec!["c", "", ""]);
    assert_eq!(history(&screen), vec!["a", "b"]);
    screen.scroll_up(99, 0, 2);
    assert_eq!(history(&screen), vec!["a", "b", "c", "", ""]);
    screen.scroll_down(1, 0, 2);
    assert_eq!(page(&screen), vec!["", "", ""]);
}

#[test]
fn scrollback_keeps_the_newest_lines() {
    let mut screen = Screen::new(3, 1, 2);
    type_text(&mut screen, "a\nb\nc\nd");
    assert_eq!(history(&screen), vec!["b", "c"]);
    assert_eq!(page(&screen), vec!["d"]);
}

#[test]
fn ring_drops_the_oldest_entry() {
    let line = |ch: char| {
        vec![Cell {
            ch,
            ..Cell::blank()
        }]
    };
    let mut ring = ScrollbackRing::new(2);
    assert_eq!(ring.len(), 0);
    for ch in ['a', 'b', 'c'] {
        ring.push(line(ch));
    }
    assert_eq!(ring.len(), 2);
    assert_eq!(ring.get(0), Some(&line('b')));
    assert_eq!(ring.get(1), Some(&line('c')));
    assert_eq!(ring.get(2), None);
    let mut smallest = ScrollbackRing::new(0);
    smallest.push(line('x'));
    smallest.push(line('y'));
    assert_eq!(smallest.len(), 1);
    assert_eq!(smallest.get(0), Some(&line('y')));
}

#[test]
fn erasing_in_a_line() {
    let mut screen = filled(5, 1, "abcd");
    screen.set_cursor(0, 2);
    screen.erase_in_line(0);
    assert_eq!(row_text(&screen, 0), "ab");
    let mut screen = filled(5, 1, "abcd");
    screen.set_cursor(0, 2);
    screen.erase_in_line(1);
    assert_eq!(row_text(&screen, 0), "   d");
    screen.erase_in_line(2);
    assert_eq!(row_text(&screen, 0), "");
    let mut screen = filled(5, 1, "abcd");
    screen.erase_in_line(7);
    assert_eq!(row_text(&screen, 0), "abcd");
}

#[test]
fn erasing_in_the_page() {
    let text = "abc\nabc\nabc";
    let mut screen = filled(4, 3, text);
    screen.set_cursor(1, 1);
    screen.erase_in_display(0);
    assert_eq!(page(&screen), vec!["abc", "a", ""]);
    let mut screen = filled(4, 3, text);
    screen.set_cursor(1, 1);
    screen.erase_in_display(1);
    assert_eq!(page(&screen), vec!["", "  c", "abc"]);
    for mode in [2, 3] {
        let mut screen = filled(4, 3, text);
        screen.set_cursor(1, 1);
        screen.erase_in_display(mode);
        assert_eq!(page(&screen), vec!["", "", ""]);
        assert_eq!(at(&screen), (1, 1));
    }
    let mut screen = filled(4, 3, text);
    screen.erase_in_display(4);
    assert_eq!(page(&screen), vec!["abc", "abc", "abc"]);
}

#[test]
fn inserting_and_deleting_lines() {
    let mut screen = filled(3, 4, "a\nb\nc\nd");
    screen.set_cursor(1, 0);
    screen.insert_lines(1);
    assert_eq!(page(&screen), vec!["a", "", "b", "c"]);
    screen.delete_lines(1);
    assert_eq!(page(&screen), vec!["a", "b", "c", ""]);
    screen.delete_lines(99);
    assert_eq!(page(&screen), vec!["a", "", "", ""]);
    assert_eq!(history(&screen), Vec::<String>::new());
}

#[test]
fn lines_outside_of_the_region_are_not_inserted() {
    let mut screen = filled(3, 4, "a\nb\nc\nd");
    screen.set_scroll_region(2, 3);
    screen.set_cursor(3, 0);
    screen.insert_lines(1);
    screen.delete_lines(1);
    assert_eq!(page(&screen), vec!["a", "b", "c", "d"]);
}

#[test]
fn inserting_deleting_and_erasing_characters() {
    let mut screen = filled(6, 1, "abcde");
    screen.set_cursor(0, 1);
    screen.insert_blank_chars(2);
    assert_eq!(row_text(&screen, 0), "a  bcd");
    screen.delete_chars(2);
    assert_eq!(row_text(&screen, 0), "abcd");
    screen.erase_chars(2);
    assert_eq!(row_text(&screen, 0), "a  d");
    screen.erase_chars(99);
    assert_eq!(row_text(&screen, 0), "a");
    screen.insert_blank_chars(99);
    screen.delete_chars(99);
    assert_eq!(row_text(&screen, 0), "a");
}

#[test]
fn alternate_page_leaves_the_primary_alone() {
    let mut screen = filled(3, 2, "a\nb");
    screen.set_cursor(1, 1);
    screen.set_alt_screen(true);
    assert_eq!(at(&screen), (0, 0));
    assert_eq!(page(&screen), vec!["", ""]);
    type_text(&mut screen, "x\ny\nz");
    assert_eq!(page(&screen), vec!["y", "z"]);
    assert_eq!(history(&screen), Vec::<String>::new());
    screen.set_alt_screen(false);
    assert_eq!(page(&screen), vec!["a", "b"]);
    assert_eq!(at(&screen), (1, 1));
    screen.set_alt_screen(true);
    assert_eq!(page(&screen), vec!["", ""]);
}

#[test]
fn resizing_keeps_what_fits() {
    let mut screen = filled(4, 3, "abcd");
    screen.set_cursor(2, 3);
    screen.save_cursor();
    screen.set_cursor_shape(CursorShape::Beam);
    screen.take_dirty_rows();
    screen.resize(2, 2);
    assert_eq!((screen.cols(), screen.rows()), (2, 2));
    assert_eq!(page(&screen), vec!["ab", ""]);
    assert_eq!(at(&screen), (1, 1));
    assert_eq!(screen.cursor().shape, CursorShape::Block);
    assert_eq!(screen.scroll_region(), (0, 1));
    assert_eq!(screen.take_dirty_rows(), vec![0, 1]);
    screen.restore_cursor();
    assert_eq!(at(&screen), (1, 1));
    screen.resize(0, 0);
    assert_eq!((screen.cols(), screen.rows()), (1, 1));
}

#[test]
fn growing_and_shrinking_back_keeps_the_page() {
    let mut screen = filled(4, 3, "abc\nde\nf");
    screen.resize(10, 8);
    assert_eq!(row_text(&screen, 1), "de");
    screen.resize(4, 3);
    assert_eq!(page(&screen), vec!["abc", "de", "f"]);
}

#[test]
fn resizing_to_the_same_size_does_nothing() {
    let mut screen = filled(4, 3, "abc");
    screen.set_scroll_region(1, 2);
    screen.take_dirty_rows();
    screen.resize(4, 3);
    assert_eq!(screen.scroll_region(), (0, 1));
    assert_eq!(screen.take_dirty_rows(), Vec::<usize>::new());
}

#[test]
fn reset_blanks_both_pages_and_keeps_history() {
    let mut screen = Screen::new(3, 1, 5);
    type_text(&mut screen, "a\nb");
    screen.set_alt_screen(true);
    screen.put_char('x');
    screen.reset();
    assert_eq!(page(&screen), vec![""]);
    assert_eq!(at(&screen), (0, 0));
    assert_eq!(history(&screen), vec!["a"]);
}

#[test]
fn selected_text_is_trimmed_and_joined() {
    let screen = filled(6, 3, "ab\ncdef\ng");
    assert_eq!(
        screen.extract_selection_text((0, 1), (2, 5)),
        "b\ncdef\ng"
    );
    assert_eq!(
        screen.extract_selection_text((2, 5), (0, 1)),
        "b\ncdef\ng"
    );
    assert_eq!(screen.extract_selection_text((1, 1), (1, 2)), "de");
    assert_eq!(screen.extract_selection_text((1, 99), (1, 99)), "");
}

#[test]
fn dump_shows_every_row() {
    let screen = filled(4, 3, "ab\n c");
    assert_eq!(screen.dump(), "ab\n c\n\n");
}

#[test]
fn palette_has_cube_and_grays() {
    assert_eq!(ansi_256_to_rgb(0), Rgb::new(0, 0, 0));
    assert_eq!(ansi_256_to_rgb(4), Rgb::new(0, 0, 238));
    assert_eq!(ansi_256_to_rgb(15), Rgb::new(255, 255, 255));
    assert_eq!(ansi_256_to_rgb(16), Rgb::new(0, 0, 0));
    assert_eq!(ansi_256_to_rgb(16 + 36 + 12 + 5), Rgb::new(95, 135, 255));
    assert_eq!(ansi_256_to_rgb(231), Rgb::new(255, 255, 255));
    assert_eq!(ansi_256_to_rgb(232), Rgb::new(8, 8, 8));
    assert_eq!(ansi_256_to_rgb(255), Rgb::new(238, 238, 238));
    assert_eq!(ansi_256_to_rgb(256), default_fg());
}

#[test]
fn basic_colours_have_bright_variants() {
    assert_eq!(basic_ansi_to_rgb(1, false), Rgb::new(205, 49, 49));
    assert_eq!(basic_ansi_to_rgb(1, true), Rgb::new(241, 76, 76));
    assert_eq!(basic_ansi_to_rgb(7, true), Rgb::new(255, 255, 255));
    assert_eq!(basic_ansi_to_rgb(8, false), default_fg());
}

#[test]
fn defaults_are_plain() {
    let attrs = AttrState::default();
    assert_eq!((attrs.fg, attrs.bg), (default_fg(), default_bg()));
    assert!(!attrs.bold && !attrs.italic && !attrs.underline && !attrs.inverse);
    let cursor = Cursor::default();
    assert_eq!((cursor.row, cursor.col), (0, 0));
    assert_eq!(default_fg(), Rgb::new(230, 230, 230));
    assert_eq!(default_bg(), Rgb::new(12, 12, 12));
    assert_eq!(cursor_color(), Rgb::new(240, 240, 240));
    assert_eq!(CellFlags::wide().bits, 0b0001_0000);
    assert_eq!(CellFlags::underline().bits, 0b0000_0100);
    assert_eq!(CellFlags::italic().bits, 0b0000_0010);
}
