//! What runs in the pseudo-terminal: the shell or a stress command, its
//! environment and its size.

use vstd::prelude::*;
use vstd::string::StrSliceExecFns;

use crate::screen::model::min;

verus! {

/// Whether a character has the Unicode property `White_Space`: tab to carriage
/// return, the space, and the spaces and separators of other scripts.
pub open spec fn is_white_space(ch: char) -> bool {
    let c = ch as u32;
    ||| 0x09 <= c <= 0x0d
    ||| c == 0x20 || c == 0x85 || c == 0xa0 || c == 0x1680
    ||| 0x2000 <= c <= 0x200a
    ||| c == 0x2028 || c == 0x2029 || c == 0x202f || c == 0x205f || c == 0x3000
}

/// `char::is_whitespace` tells whether a character has the Unicode property
/// `White_Space`.
pub assume_specification[ char::is_whitespace ](ch: char) -> (white: bool)
    ensures
        white == is_white_space(ch),
;

/// How to start the program in the pseudo-terminal.
#[derive(Clone, Debug)]
pub struct SpawnConfig {
    pub cols: usize,
    pub rows: usize,
    pub term: String,
    pub truecolor: bool,
    pub stress_mode: bool,
}

impl Default for SpawnConfig {
    fn default() -> (config: Self)
        ensures
            config.cols == 120,
            config.rows == 40,
            config.term@ == "xterm-256color"@,
            config.truecolor,
            !config.stress_mode,
    {
        SpawnConfig {
            cols: 120,
            rows: 40,
            term: "xterm-256color".to_string(),
            truecolor: true,
            stress_mode: false,
        }
    }
}

/// The size of a pseudo-terminal, as far as sixteen bits can tell it.
#[derive(Clone, Copy, Debug, PartialEq, Eq, Structural)]
pub struct TerminalSize {
    pub cols: u16,
    pub rows: u16,
}

/// A number of columns or rows, as far as sixteen bits can tell it.
pub open spec fn told_size(size: int) -> int {
    min(size, u16::MAX as int)
}

pub fn terminal_size(cols: usize, rows: usize) -> (size: TerminalSize)
    ensures
        size.cols == min(cols as int, u16::MAX as int),
        size.rows == min(rows as int, u16::MAX as int),
        size.cols == told_size(cols as int),
        size.rows == told_size(rows as int),
{
    TerminalSize {
        cols: cols.min(u16::MAX as usize) as u16,
        rows: rows.min(u16::MAX as usize) as u16,
    }
}

/// Whether a text is empty or made of white space alone.
pub open spec fn is_blank(text: Seq<char>) -> bool {
    forall|i: int| 0 <= i < text.len() ==> is_white_space(#[trigger] text[i])
}

fn text_is_blank(text: &str) -> (blank: bool)
    ensures
        blank == is_blank(text@),
{
    let len: usize = text.unicode_len();
    let mut i: usize = 0;
    while i < len
        invariant
            i <= len,
            len == text@.len(),
            forall|j: int| 0 <= j < i ==> is_white_space(#[trigger] text@[j]),
        decreases len - i,
    {
        if !text.get_char(i).is_whitespace() {
            return false;
        }
        i = i + 1;
    }
    true
}

/// The shell to run if it is there.
pub const PREFERRED_SHELL: &'static str = "/bin/zsh";

/// The shell to run if no other can be found.
pub const STANDARD_SHELL: &'static str = "/bin/sh";

/// The shell to run: the preferred one if it is there, else the one that the
/// environment names if that is not blank and exists, else the standard one.
pub open spec fn shell_choice(
    preferred_exists: bool,
    named: Option<Seq<char>>,
    named_exists: bool,
) -> Seq<char> {
    if preferred_exists {
        PREFERRED_SHELL@
    } else if named is Some && !is_blank(named->0) && named_exists {
        named->0
    } else {
        STANDARD_SHELL@
    }
}

pub fn choose_shell(preferred_exists: bool, named: Option<String>, named_exists: bool) -> (shell:
    String)
    ensures
        shell@ == shell_choice(
            preferred_exists,
            match named {
                Some(text) => Some(text@),
                None => None,
            },
            named_exists,
        ),
{
    if preferred_exists {
        return PREFERRED_SHELL.to_string();
    }
    match named {
        Some(text) => {
            if !text_is_blank(text.as_str()) && named_exists {
                return text;
            }
        },
        None => {},
    }
    STANDARD_SHELL.to_string()
}

/// A program to run, with its arguments and the environment variables to set.
#[derive(Clone, Debug)]
pub struct Launch {
    pub program: String,
    pub args: Vec<String>,
    pub env: Vec<(String, String)>,
}

/// The texts of some strings.
pub open spec fn texts(strings: Seq<String>) -> Seq<Seq<char>> {
    strings.map_values(|text: String| text@)
}

/// The texts of some pairs of strings.
pub open spec fn text_pairs(pairs: Seq<(String, String)>) -> Seq<(Seq<char>, Seq<char>)> {
    pairs.map_values(|pair: (String, String)| (pair.0@, pair.1@))
}

/// The environment variables for the program.
pub open spec fn environment(term: Seq<char>, truecolor: bool) -> Seq<(Seq<char>, Seq<char>)> {
    seq![("TERM"@, term)] + (if truecolor {
        seq![("COLORTERM"@, "truecolor"@)]
    } else {
        Seq::empty()
    }) + seq![("PROMPT_EOL_MARK"@, ""@)]
}

/// What to run: the given shell as a login shell, or in stress mode a command
/// that prints without end.
pub fn launch(config: &SpawnConfig, shell: String) -> (launch: Launch)
    ensures
        config.stress_mode ==> launch.program@ == STANDARD_SHELL@ && texts(launch.args@) == seq![
            "-lc"@,
            "yes 'ultraterm stress output 0123456789 abcdefghijklmnopqrstuvwxyz'"@,
        ],
        !config.stress_mode ==> launch.program@ == shell@ && texts(launch.args@) == seq!["-l"@],
        text_pairs(launch.env@) == environment(config.term@, config.truecolor),
{
    let mut args: Vec<String> = Vec::new();
    let program: String = if config.stress_mode {
        args.push("-lc".to_string());
        args.push(
            "yes 'ultraterm stress output 0123456789 abcdefghijklmnopqrstuvwxyz'".to_string(),
        );
        assert(texts(args@) =~= seq![
            "-lc"@,
            "yes 'ultraterm stress output 0123456789 abcdefghijklmnopqrstuvwxyz'"@,
        ]);
        STANDARD_SHELL.to_string()
    } else {
        args.push("-l".to_string());
        assert(texts(args@) =~= seq!["-l"@]);
        shell
    };
    let mut env: Vec<(String, String)> = Vec::new();
    env.push(("TERM".to_string(), config.term.clone()));
    if config.truecolor {
        env.push(("COLORTERM".to_string(), "truecolor".to_string()));
    }
    env.push(("PROMPT_EOL_MARK".to_string(), "".to_string()));
    assert(text_pairs(env@) =~= environment(config.term@, config.truecolor));
    Launch { program, args, env }
}

} // verus!
