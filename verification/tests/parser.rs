use ultraterm::parser::{
    csi_dispatch, esc_dispatch, first_param, param_values, perform, AnsiParser, MouseTracking,
    TerminalModes,
};
use ultraterm::screen::{default_bg, default_fg, CellFlags, CursorShape, Rgb, Screen};
use ultraterm::vt::Dispatch;

struct Terminal {
    parser: AnsiParser,
    screen: Screen,
}

impl Terminal {
    fn new(cols: usize, rows: usize) -> Self {
        Terminal {
            parser: AnsiParser::new(),
            screen: Screen::new(cols, rows, 100),
        }
    }

    fn feed(&mut self, bytes: &[u8]) -> Vec<Vec<u8>> {
        self.parser.process(bytes, &mut self.screen)
    }

    fn row(&self, row: usize) -> String {
        let text: String = self.screen.line(row).iter().map(|cell| cell.ch).collect();
        text.trim_end().to_string()
    }

    fn at(&self) -> (usize, usize) {
        (self.screen.cursor().row, self.screen.cursor().col)
    }
}

#[test]
fn plain_text_is_printed() {
    let mut term = Terminal::new(10, 3);
    assert_eq!(term.feed(b"hello\r\nab\tc\x08d"), Vec::<Vec<u8>>::new());
    assert_eq!(term.row(0), "hello");
    assert_eq!(term.row(1), "ab      d");
    assert_eq!(term.at(), (1, 9));
}

#[test]
fn utf8_arrives_in_pieces() {
    let mut term = Terminal::new(10, 1);
    let bytes = "é界".as_bytes();
    for byte in bytes {
        term.feed(&[*byte]);
    }
    assert_eq!(term.screen.line(0)[0].ch, 'é');
    assert_eq!(term.screen.line(0)[1].ch, '界');
    assert!(term.screen.line(0)[2].flags.contains(CellFlags::wide_cont()));
    assert_eq!(term.at(), (0, 3));
}

#[test]
fn invalid_utf8_prints_a_replacement() {
    let mut term = Terminal::new(10, 1);
    term.feed(b"\xc3(");
    assert_eq!(term.screen.line(0)[0].ch, '\u{fffd}');
}

#[test]
fn pieces_have_the_same_effect_as_the_whole() {
    let bytes = b"ab\x1b[1;31mc\x1b[6n\x1b[2;3H\x1b[?1049hxy\x1b[5n\x1b[c";
    let mut whole = Terminal::new(10, 4);
    let answers = whole.feed(bytes);
    for cut in 0..bytes.len() {
        let mut pieces = Terminal::new(10, 4);
        let mut got = pieces.feed(&bytes[..cut]);
        got.extend(pieces.feed(&bytes[cut..]));
        assert_eq!(got, answers);
        assert_eq!(pieces.at(), whole.at());
        for row in 0..4 {
            assert_eq!(pieces.screen.line(row), whole.screen.line(row));
        }
    }
}

#[test]
fn cursor_sequences_move_the_cursor() {
    let mut term = Terminal::new(10, 5);
    term.feed(b"\x1b[3;4H");
    assert_eq!(term.at(), (2, 3));
    term.feed(b"\x1b[A");
    assert_eq!(term.at(), (1, 3));
    term.feed(b"\x1b[2B");
    assert_eq!(term.at(), (3, 3));
    term.feed(b"\x1b[5C");
    assert_eq!(term.at(), (3, 8));
    term.feed(b"\x1b[0D");
    assert_eq!(term.at(), (3, 7));
    term.feed(b"\x1b[2F");
    assert_eq!(term.at(), (1, 0));
    term.feed(b"\x1b[4G\x1b[E");
    assert_eq!(term.at(), (2, 0));
    term.feed(b"\x1b[7G\x1b[5d");
    assert_eq!(term.at(), (4, 6));
    term.feed(b"\x1b[99;99f");
    assert_eq!(term.at(), (4, 9));
    term.feed(b"\x1b[H");
    assert_eq!(term.at(), (0, 0));
}

#[test]
fn erase_and_edit_sequences() {
    let mut term = Terminal::new(8, 3);
    term.feed(b"abcdef\r\nghijkl\r\nmnopqr");
    term.feed(b"\x1b[1;3H\x1b[K");
    assert_eq!(term.row(0), "ab");
    term.feed(b"\x1b[2;2H\x1b[2P");
    assert_eq!(term.row(1), "gjkl");
    term.feed(b"\x1b[3@");
    assert_eq!(term.row(1), "g   jkl");
    term.feed(b"\x1b[5X");
    assert_eq!(term.row(1), "g     l");
    term.feed(b"\x1b[L");
    assert_eq!((term.row(1), term.row(2)), (String::new(), "g     l".into()));
    term.feed(b"\x1b[M");
    assert_eq!(term.row(1), "g     l");
    term.feed(b"\x1b[2J");
    assert_eq!(term.row(1), "");
}

#[test]
fn scroll_sequences() {
    let mut term = Terminal::new(4, 4);
    term.feed(b"a\r\nb\r\nc\r\nd");
    term.feed(b"\x1b[2;3r");
    assert_eq!(term.screen.scroll_region(), (1, 2));
    term.feed(b"\x1b[S");
    assert_eq!((term.row(1), term.row(2)), ("c".into(), String::new()));
    term.feed(b"\x1b[T");
    assert_eq!((term.row(1), term.row(2)), (String::new(), "c".into()));
    term.feed(b"\x1b[0;0r");
    assert_eq!(term.screen.scroll_region(), (0, 3));
    term.feed(b"\x1b[3r");
    assert_eq!(term.screen.scroll_region(), (2, 3));
    term.feed(b"\x1b[r");
    assert_eq!(term.screen.scroll_region(), (0, 3));
}

#[test]
fn renditions_set_attributes() {
    let mut term = Terminal::new(10, 1);
    term.feed(b"\x1b[1;3;4;7mx");
    let flags = term.screen.line(0)[0].flags;
    for flag in [
        CellFlags::bold(),
        CellFlags::italic(),
        CellFlags::underline(),
        CellFlags::inverse(),
    ] {
        assert!(flags.contains(flag));
    }
    term.feed(b"\x1b[22;23;24;27my");
    assert_eq!(term.screen.line(0)[1].flags, CellFlags::empty());
    term.feed(b"\x1b[31;102mz");
    assert_eq!(term.screen.line(0)[2].fg, Rgb::new(205, 49, 49));
    assert_eq!(term.screen.line(0)[2].bg, Rgb::new(35, 209, 139));
    term.feed(b"\x1b[39;49mw");
    assert_eq!(term.screen.line(0)[3].fg, default_fg());
    assert_eq!(term.screen.line(0)[3].bg, default_bg());
    term.feed(b"\x1b[1;95;44m\x1b[mv");
    assert_eq!(term.screen.line(0)[4].flags, CellFlags::empty());
    assert_eq!(term.screen.line(0)[4].fg, default_fg());
    assert_eq!(term.screen.line(0)[4].bg, default_bg());
}

#[test]
fn extended_colours() {
    let mut term = Terminal::new(10, 1);
    term.feed(b"\x1b[38;2;1;2;300;48;5;232mx");
    assert_eq!(term.screen.line(0)[0].fg, Rgb::new(1, 2, 255));
    assert_eq!(term.screen.line(0)[0].bg, Rgb::new(8, 8, 8));
    term.feed(b"\x1b[0m\x1b[38;5my");
    assert_eq!(term.screen.line(0)[1].fg, default_fg());
    term.feed(b"\x1b[38;2;7mz");
    assert!(term.screen.line(0)[2].flags.contains(CellFlags::inverse()));
    term.feed(b"\x1b[0;38;1mw");
    assert!(term.screen.line(0)[3].flags.contains(CellFlags::bold()));
}

#[test]
fn queries_are_answered() {
    let mut term = Terminal::new(80, 24);
    assert_eq!(term.feed(b"\x1b[5n"), vec![b"\x1b[0n".to_vec()]);
    assert_eq!(
        term.feed(b"\x1b[12;34H\x1b[6n"),
        vec![b"\x1b[12;34R".to_vec()]
    );
    assert_eq!(term.feed(b"\x1b[c"), vec![b"\x1b[?1;2c".to_vec()]);
    assert_eq!(term.feed(b"\x1b[?6n\x1b[?c\x1b[7n"), Vec::<Vec<u8>>::new());
}

#[test]
fn private_modes_switch() {
    let mut term = Terminal::new(10, 2);
    term.feed(b"\x1b[?1;2004;1006h");
    assert!(term.parser.modes().app_cursor_keys);
    assert!(term.parser.modes().bracketed_paste);
    assert!(term.parser.modes().sgr_mouse);
    for (mode, tracking) in [
        ("1000", MouseTracking::Click),
        ("1002", MouseTracking::Drag),
        ("1003", MouseTracking::Motion),
    ] {
        term.feed(format!("\x1b[?{mode}h").as_bytes());
        assert_eq!(term.parser.modes().mouse_tracking, tracking);
        term.feed(format!("\x1b[?{mode}l").as_bytes());
        assert_eq!(term.parser.modes().mouse_tracking, MouseTracking::Off);
    }
    term.feed(b"\x1b[?1;2004;1006l\x1b[?25l");
    assert_eq!(*term.parser.modes(), TerminalModes::default());
    assert!(!term.screen.cursor().visible);
    term.feed(b"\x1b[?25h");
    assert!(term.screen.cursor().visible);
    term.feed(b"\x1b[1h\x1b[4h");
    assert_eq!(*term.parser.modes(), TerminalModes::default());
}

#[test]
fn alternate_screen_round_trip() {
    let mut term = Terminal::new(5, 2);
    term.feed(b"ab\x1b[?1049hxyz\r\n\n\n\x1b[?1049l");
    assert_eq!(term.row(0), "ab");
    assert_eq!(term.at(), (0, 2));
    assert_eq!(term.screen.scrollback.len(), 0);
}

#[test]
fn cursor_shapes() {
    let mut term = Terminal::new(5, 2);
    for (style, shape) in [
        ("3", CursorShape::Underline),
        ("4", CursorShape::Underline),
        ("5", CursorShape::Beam),
        ("6", CursorShape::Beam),
        ("2", CursorShape::Block),
    ] {
        term.feed(format!("\x1b[{style} q").as_bytes());
        assert_eq!(term.screen.cursor().shape, shape);
    }
    term.feed(b"\x1b[5q");
    assert_eq!(term.screen.cursor().shape, CursorShape::Block);
}

#[test]
fn escape_sequences() {
    let mut term = Terminal::new(5, 3);
    term.feed(b"\x1b[2;3H\x1b7\x1b[H\x1b8");
    assert_eq!(term.at(), (1, 2));
    term.feed(b"\x1b[s\x1b[H\x1b[u");
    assert_eq!(term.at(), (1, 2));
    term.feed(b"\x1bD");
    assert_eq!(term.at(), (2, 2));
    term.feed(b"\x1bM\x1bE");
    assert_eq!(term.at(), (2, 0));
    term.feed(b"\x1b[?2004h\x1b[?1049hx\x1bc");
    assert_eq!(*term.parser.modes(), TerminalModes::default());
    assert_eq!(term.at(), (0, 0));
    assert_eq!(term.row(0), "");
}

#[test]
fn other_sequences_are_ignored() {
    let mut term = Terminal::new(10, 1);
    let answers = term.feed(b"\x1b]0;title\x07\x1bPq\x1b\\a\x1b[5z\x1b=\x07b");
    assert_eq!(answers, Vec::<Vec<u8>>::new());
    assert_eq!(term.row(0), "ab");
}

#[test]
fn vertical_tab_and_form_feed_are_line_feeds() {
    let mut term = Terminal::new(5, 4);
    term.feed(b"a\x0bb\x0cc");
    assert_eq!(term.at(), (2, 3));
    assert_eq!(term.row(2), "  c");
}

#[test]
fn parameters_have_defaults() {
    assert_eq!(param_values(&vec![]), vec![0]);
    assert_eq!(
        param_values(&vec![vec![4, 9], vec![], vec![7]]),
        vec![4, 0, 7]
    );
    assert_eq!(first_param(&vec![], 1), 1);
    assert_eq!(first_param(&vec![vec![]], 1), 1);
    assert_eq!(first_param(&vec![vec![5, 6]], 1), 5);
}

#[test]
fn subparameters_are_left_aside() {
    let mut term = Terminal::new(10, 1);
    term.feed(b"\x1b[4:3;1mx");
    let flags = term.screen.line(0)[0].flags;
    assert!(flags.contains(CellFlags::underline()));
    assert!(flags.contains(CellFlags::bold()));
    assert!(!flags.contains(CellFlags::italic()));
}

#[test]
fn dispatches_can_be_carried_out_one_by_one() {
    let mut screen = Screen::new(10, 2, 10);
    let mut modes = TerminalModes::default();
    let mut replies: Vec<Vec<u8>> = Vec::new();
    for dispatch in [
        Dispatch::Print('x'),
        Dispatch::Execute(0x0a),
        Dispatch::Csi(vec![vec![6]], vec![], 'n'),
        Dispatch::Esc(b'7'),
    ] {
        perform(&mut screen, &mut modes, &mut replies, &dispatch);
    }
    assert_eq!(screen.line(0)[0].ch, 'x');
    assert_eq!(replies, vec![b"\x1b[2;2R".to_vec()]);
    csi_dispatch(
        &mut screen,
        &mut modes,
        &mut replies,
        &vec![vec![2004]],
        &vec![b'?'],
        'h',
    );
    assert!(modes.bracketed_paste);
    esc_dispatch(&mut screen, &mut modes, b'c');
    assert!(!modes.bracketed_paste);
    assert_eq!(screen.line(0)[0].ch, ' ');
}

#[test]
fn control_sequences_take_up_to_32_numbers() {
    let mut term = Terminal::new(10, 1);
    let last_counts = format!("\x1b[{}4mx", "0;".repeat(31));
    term.feed(last_counts.as_bytes());
    assert!(term.screen.line(0)[0].flags.contains(CellFlags::underline()));
    term.feed(b"\x1b[0m");
    let one_too_many = format!("\x1b[{}4my", "0;".repeat(32));
    term.feed(one_too_many.as_bytes());
    assert!(!term.screen.line(0)[1].flags.contains(CellFlags::underline()));
}

#[test]
fn sequences_follow_each_other() {
    let mut term = Terminal::new(10, 3);
    let replies = term.feed(b"a\x1b7\x1b[65535;1Hb\x1b[6n\x1b8c\x1b[6n");
    assert_eq!(
        replies,
        vec![b"\x1b[3;2R".to_vec(), b"\x1b[1;3R".to_vec()]
    );
    assert_eq!((term.row(0), term.row(2)), ("ac".into(), "b".into()));
}

#[test]
fn sequences_without_numbers() {
    let mut term = Terminal::new(10, 3);
    term.feed(b"\x1b[1;4mab\r\ncd\x1b[H\x1b[m");
    assert_eq!(term.at(), (0, 0));
    let replies = term.feed(b"\x1b[cx\x1b[?c\x1b[n");
    assert_eq!(replies, vec![b"\x1b[?1;2c".to_vec()]);
    assert!(!term.screen.line(0)[0].flags.contains(CellFlags::bold()));
    assert!(term.screen.line(0)[1].flags.contains(CellFlags::bold()));
    term.feed(b"\x1b[J");
    assert_eq!((term.row(0), term.row(1)), ("x".into(), "".into()));
}

#[test]
fn bytes_before_the_final_one() {
    let mut term = Terminal::new(10, 1);
    term.feed(b"\x1b[6 q");
    assert_eq!(term.screen.cursor().shape, CursorShape::Beam);
    term.feed(b"\x1b[ q");
    assert_eq!(term.screen.cursor().shape, CursorShape::Block);
    term.feed(b"\x1b[?3 q");
    assert_eq!(term.screen.cursor().shape, CursorShape::Underline);
    term.feed(b"\x1b[5! qa");
    assert_eq!(term.screen.cursor().shape, CursorShape::Beam);
    assert_eq!(term.row(0), "a");
}

#[test]
fn characters_of_any_length_are_printed() {
    let mut term = Terminal::new(4, 1);
    let mut printed = Screen::new(4, 1, 100);
    for code in (0x80..0x3000_u32).chain((0x3000..0x11_0000).step_by(41)) {
        if let Some(ch) = char::from_u32(code) {
            term.feed(format!("\r..\r{ch}").as_bytes());
            printed.carriage_return();
            printed.put_char('.');
            printed.put_char('.');
            printed.carriage_return();
            printed.put_char(ch);
            let cells = |screen: &Screen| {
                let chars: Vec<char> = screen.line(0).iter().map(|cell| cell.ch).collect();
                (chars, screen.cursor().col)
            };
            assert_eq!(cells(&term.screen), cells(&printed), "{code:x}");
        }
    }
}

#[test]
fn items_of_all_kinds_in_a_row() {
    let mut term = Terminal::new(12, 2);
    let replies = term.feed("a\u{e9}\x1b7\x1b[2;1H\u{1f600}\x1b[6n\x1b8\x1b[5 qb".as_bytes());
    assert_eq!(replies, vec![b"\x1b[2;3R".to_vec()]);
    assert_eq!(term.row(0), "a\u{e9}b");
    assert_eq!(term.screen.line(1)[0].ch, '\u{1f600}');
    assert_eq!(term.screen.cursor().shape, CursorShape::Beam);
}

#[test]
fn commands_are_left_aside() {
    let mut term = Terminal::new(10, 1);
    let replies = term.feed("\x1b]0;a title \u{e9}\x07a\x1b]8;;x\x1b\\b".as_bytes());
    assert_eq!(replies, Vec::<Vec<u8>>::new());
    assert_eq!(term.row(0), "ab");
    term.feed(b"\x1b]\x07\x00\x07\x0e\x18\x1ac");
    assert_eq!(term.row(0), "abc");
}

#[test]
fn saved_cursor_survives_output() {
    for (save, restore) in [
        ("\x1b7", "\x1b8"),
        ("\x1b[s", "\x1b[u"),
        ("\x1b7", "\x1b[u"),
    ] {
        let mut term = Terminal::new(6, 4);
        term.feed(b"\x1b[1;33m\x1b[3;4H\x1b[5 q");
        let (cursor, attrs) = (term.screen.cursor(), *term.screen.attrs_mut());
        term.feed(save.as_bytes());
        term.feed(b"\x1b[2;3r\x1b[0m\x1b[2 qabcdefgh\r\n\n\n\n\x1b[?25l\x1b[2J\x1b[r\n\n\n\n\n");
        term.feed(b"\x1b[?1049h\x1b[4mon the other page\x1b[?1049l");
        assert_ne!(term.screen.cursor(), cursor);
        term.feed(restore.as_bytes());
        assert_eq!(term.screen.cursor(), cursor);
        assert_eq!(*term.screen.attrs_mut(), attrs);
    }
}

#[test]
fn text_that_fills_its_row_can_be_copied() {
    let mut term = Terminal::new(5, 3);
    term.feed(b"\x1b[2;2Habcd");
    assert_eq!(term.at(), (2, 0));
    assert_eq!(term.screen.extract_selection_text((1, 1), (1, 4)), "abcd");
    term.feed(b"efgh ");
    assert_eq!(term.at(), (2, 0));
    assert_eq!(term.screen.extract_selection_text((1, 0), (1, 4)), "efgh");
}

#[test]
fn wide_character_in_the_last_column_is_copied() {
    let mut term = Terminal::new(3, 2);
    term.feed("ab界".as_bytes());
    assert_eq!(term.row(0), "ab");
    assert_eq!(term.screen.extract_selection_text((1, 0), (1, 1)), "界");
}
