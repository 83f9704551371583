use ultraterm::headless::{contains_bytes, Headless, WaitEvent, WaitState};
use ultraterm::pty::{choose_shell, launch, terminal_size, SpawnConfig};

fn pair(key: &str, value: &str) -> (String, String) {
    (key.to_string(), value.to_string())
}

#[test]
fn defaults_of_a_launch() {
    let config = SpawnConfig::default();
    assert_eq!((config.cols, config.rows), (120, 40));
    assert_eq!(config.term, "xterm-256color");
    assert!(config.truecolor);
    assert!(!config.stress_mode);
}

#[test]
fn the_shell_is_a_login_shell() {
    let launch = launch(&SpawnConfig::default(), "/bin/fish".to_string());
    assert_eq!(launch.program, "/bin/fish");
    assert_eq!(launch.args, vec!["-l".to_string()]);
    assert_eq!(
        launch.env,
        vec![
            pair("TERM", "xterm-256color"),
            pair("COLORTERM", "truecolor"),
            pair("PROMPT_EOL_MARK", ""),
        ]
    );
}

#[test]
fn stress_mode_runs_a_command() {
    let config = SpawnConfig {
        stress_mode: true,
        truecolor: false,
        ..SpawnConfig::default()
    };
    let launch = launch(&config, "/bin/fish".to_string());
    assert_eq!(launch.program, "/bin/sh");
    assert_eq!(
        launch.args,
        vec![
            "-lc".to_string(),
            "yes 'ultraterm stress output 0123456789 abcdefghijklmnopqrstuvwxyz'".to_string(),
        ]
    );
    assert_eq!(
        launch.env,
        vec![pair("TERM", "xterm-256color"), pair("PROMPT_EOL_MARK", "")]
    );
}

#[test]
fn shells_are_tried_in_order() {
    let named = || Some("/opt/shell".to_string());
    assert_eq!(choose_shell(true, named(), true), "/bin/zsh");
    assert_eq!(choose_shell(false, named(), true), "/opt/shell");
    assert_eq!(choose_shell(false, named(), false), "/bin/sh");
    assert_eq!(choose_shell(false, None, false), "/bin/sh");
    let blank = Some(" \t\u{a0}\u{3000}\n".to_string());
    assert_eq!(choose_shell(false, blank, true), "/bin/sh");
    let empty = Some(String::new());
    assert_eq!(choose_shell(false, empty, true), "/bin/sh");
    let padded = Some(" x ".to_string());
    assert_eq!(choose_shell(false, padded, true), " x ");
}

#[test]
fn sizes_are_cut_to_sixteen_bits() {
    let size = terminal_size(80, 100_000);
    assert_eq!((size.cols, size.rows), (80, 65_535));
}

#[test]
fn bytes_are_found_anywhere() {
    assert!(contains_bytes(b"hello", b"hello"));
    assert!(contains_bytes(b"hello", b"lo"));
    assert!(contains_bytes(b"hello", b""));
    assert!(contains_bytes(b"aab", b"ab"));
    assert!(!contains_bytes(b"hello", b"hex"));
    assert!(!contains_bytes(b"lo", b"hello"));
}

#[test]
fn shell_output_is_received_and_rendered() {
    let mut terminal = Headless::new(40, 5);
    terminal.observe(b"$ printf 'TYPED'\r\n");
    assert!(!terminal.received("TYPED_OK"));
    terminal.observe(b"\x1b[32mTYPED");
    terminal.observe(b"_OK\x1b[0m\r\n$ ");
    assert!(terminal.received("TYPED_OK"));
    assert!(terminal.screen_contains("TYPED_OK\n$"));
    assert!(!terminal.screen_contains("\x1b[32m"));
    assert_eq!(terminal.observe(b"\x1b[5n"), vec![b"\x1b[0n".to_vec()]);
}

#[test]
fn backspace_editing_is_rendered() {
    let mut terminal = Headless::new(40, 5);
    terminal.observe(b"$ echo BACKSPACX\x08 \x08E_OK");
    assert!(terminal.screen_contains("echo BACKSPACE_OK"));
}

#[test]
fn waiting_ends_when_a_text_arrives() {
    let mut terminal = Headless::new(40, 5);
    let mut state = |event: WaitEvent| terminal.wait_step("OK", &event).state;
    assert_eq!(state(WaitEvent::Begun), WaitState::Waiting);
    assert_eq!(state(WaitEvent::Output(b"O".to_vec())), WaitState::Waiting);
    assert_eq!(state(WaitEvent::Quiet), WaitState::Waiting);
    assert_eq!(state(WaitEvent::Output(b"K!".to_vec())), WaitState::Found);
    assert_eq!(state(WaitEvent::Expired), WaitState::Failed);
    assert_eq!(state(WaitEvent::Closed), WaitState::Failed);
    let query = WaitEvent::Output(b"\x1b[5n".to_vec());
    assert_eq!(
        terminal.wait_step("OK", &query).replies,
        vec![b"\x1b[0n".to_vec()]
    );
    assert_eq!(
        terminal.wait_step("", &WaitEvent::Begun).state,
        WaitState::Found
    );
}

#[test]
fn the_tail_of_a_transcript_is_text() {
    let mut terminal = Headless::new(10, 2);
    terminal.observe("aé".as_bytes());
    assert_eq!(terminal.transcript_tail(100), "aé");
    assert_eq!(terminal.transcript_tail(2), "é");
    assert_eq!(terminal.transcript_tail(1), "\u{fffd}");
    assert_eq!(terminal.transcript_tail(0), "");
}

#[test]
fn white_space_is_the_unicode_property() {
    let white = |code: u32| {
        (0x09..=0x0d).contains(&code)
            || (0x2000..=0x200a).contains(&code)
            || [
                0x20, 0x85, 0xa0, 0x1680, 0x2028, 0x2029, 0x202f, 0x205f, 0x3000,
            ]
            .contains(&code)
    };
    for code in 0..=0x10_ffff_u32 {
        if let Some(ch) = char::from_u32(code) {
            let text = ch.to_string();
            let expected = if white(code) {
                "/bin/sh".to_string()
            } else {
                text.clone()
            };
            assert_eq!(choose_shell(false, Some(text), true), expected);
        }
    }
}
