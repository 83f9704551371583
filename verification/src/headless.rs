//! A terminal without a window: it keeps all output that has arrived and can be
//! asked what was printed.

use vstd::prelude::*;
use vstd::slice::slice_subrange;
use vstd::utf8::{encode_utf8, valid_utf8};

use crate::parser::{processed, terminal_of, AnsiParser, TerminalModes};
use crate::screen::model::{keep_last, max, ScreenModel};
use crate::screen::terminal_screen::Screen;
use crate::vt::at_rest;

verus! {

/// How many lines that scrolled off are kept.
pub const HEADLESS_SCROLLBACK: usize = 1_000;

/// Bytes read as UTF-8, with a replacement character for what is not.
pub uninterp spec fn utf8_lossy(bytes: Seq<u8>) -> Seq<char>;

/// Calls `String::from_utf8_lossy`. Claimed of it: the text is a function of the
/// bytes alone, and it encodes to the same bytes if they are valid UTF-8.
#[verifier::external_body]
fn lossy_text(bytes: &[u8]) -> (text: String)
    ensures
        text@ == utf8_lossy(bytes@),
        valid_utf8(bytes@) ==> encode_utf8(text@) == bytes@,
{
    String::from_utf8_lossy(bytes).into_owned()
}

/// Whether `needle` stands at a place of `bytes`.
pub open spec fn stands_at(bytes: Seq<u8>, needle: Seq<u8>, at: int) -> bool {
    0 <= at && at + needle.len() <= bytes.len() && bytes.subrange(at, at + needle.len()) == needle
}

/// Whether `needle` stands anywhere in `bytes`.
pub open spec fn occurs_in(bytes: Seq<u8>, needle: Seq<u8>) -> bool {
    exists|at: int| #[trigger] stands_at(bytes, needle, at)
}

/// Whether `needle` stands at a place of `bytes`.
fn matches_at(bytes: &[u8], needle: &[u8], at: usize) -> (found: bool)
    requires
        at + needle@.len() <= bytes@.len(),
    ensures
        found == stands_at(bytes@, needle@, at as int),
{
    let total: usize = bytes.len();
    let mut i: usize = 0;
    let ghost window = bytes@.subrange(at as int, at + needle@.len());
    while i < needle.len()
        invariant
            i <= needle@.len(),
            total == bytes@.len(),
            at + needle@.len() <= total,
            window == bytes@.subrange(at as int, at + needle@.len()),
            forall|j: int| 0 <= j < i ==> window[j] == #[trigger] needle@[j],
        decreases needle@.len() - i,
    {
        if bytes[at + i] != needle[i] {
            assert(window[i as int] != needle@[i as int]);
            return false;
        }
        i = i + 1;
    }
    assert(window =~= needle@);
    true
}

/// Whether `needle` stands anywhere in `bytes`.
pub fn contains_bytes(bytes: &[u8], needle: &[u8]) -> (found: bool)
    ensures
        found == occurs_in(bytes@, needle@),
{
    if needle.len() > bytes.len() {
        return false;
    }
    let last: usize = bytes.len() - needle.len();
    let mut at: usize = 0;
    while at <= last
        invariant
            at <= last + 1,
            last + needle@.len() == bytes@.len(),
            forall|j: int| 0 <= j < at ==> !#[trigger] stands_at(bytes@, needle@, j),
        decreases last + 1 - at,
    {
        if matches_at(bytes, needle, at) {
            return true;
        }
        if at == last {
            return false;
        }
        at = at + 1;
    }
    false
}

/// What can happen while a text is awaited.
pub enum WaitEvent {
    /// The waiting begins.
    Begun,
    /// Some output has arrived.
    Output(Vec<u8>),
    /// Nothing has arrived for a while.
    Quiet,
    /// The time is up.
    Expired,
    /// No more output can arrive.
    Closed,
}

/// Whether to go on waiting for a text.
#[derive(Clone, Copy, Debug, PartialEq, Eq, Structural)]
pub enum WaitState {
    Found,
    Waiting,
    Failed,
}

/// What has to be sent back, and whether to go on waiting.
pub struct WaitStep {
    pub replies: Vec<Vec<u8>>,
    pub state: WaitState,
}

/// Whether to go on waiting for `needle` when `transcript` has arrived.
pub open spec fn wait_state(transcript: Seq<u8>, needle: Seq<u8>, event: WaitEvent) -> WaitState {
    match event {
        WaitEvent::Begun => if needle.len() == 0 {
            WaitState::Found
        } else {
            WaitState::Waiting
        },
        WaitEvent::Output(_) => if occurs_in(transcript, needle) {
            WaitState::Found
        } else {
            WaitState::Waiting
        },
        WaitEvent::Quiet => WaitState::Waiting,
        WaitEvent::Expired => WaitState::Failed,
        WaitEvent::Closed => WaitState::Failed,
    }
}

/// A terminal without a window.
pub struct Headless {
    pub parser: AnsiParser,
    pub screen: Screen,
    pub transcript: Vec<u8>,
}

impl Headless {
    /// All output that was read is in the transcript.
    pub open spec fn wf(&self) -> bool {
        &&& self.screen.wf()
        &&& self.parser.read() == self.transcript@
    }

    pub fn new(cols: usize, rows: usize) -> (terminal: Self)
        requires
            rows * cols <= usize::MAX,
        ensures
            terminal.wf(),
            terminal.screen@ == ScreenModel::fresh(
                max(cols as int, 1),
                max(rows as int, 1),
                HEADLESS_SCROLLBACK as int,
            ),
            terminal.parser.current_modes() == TerminalModes::off(),
            terminal.transcript@ == Seq::<u8>::empty(),
            at_rest(terminal.transcript@),
    {
        Headless {
            parser: AnsiParser::new(),
            screen: Screen::new(cols, rows, HEADLESS_SCROLLBACK),
            transcript: Vec::new(),
        }
    }

    /// Takes some output. The result is what has to be sent back.
    pub fn observe(&mut self, chunk: &[u8]) -> (replies: Vec<Vec<u8>>)
        requires
            old(self).wf(),
        ensures
            final(self).wf(),
            final(self).transcript@ == old(self).transcript@ + chunk@,
            processed(
                old(self).transcript@,
                chunk@,
                terminal_of(old(self).screen@, old(self).parser.current_modes(), Seq::empty()),
                terminal_of(final(self).screen@, final(self).parser.current_modes(), replies@),
            ),
    {
        self.transcript.extend_from_slice(chunk);
        let replies = self.parser.process(chunk, &mut self.screen);
        assert(self.transcript@ =~= old(self).transcript@ + chunk@);
        replies
    }

    /// Whether a text has arrived.
    pub fn received(&self, needle: &str) -> (found: bool)
        ensures
            found == occurs_in(self.transcript@, encode_utf8(needle@)),
    {
        contains_bytes(self.transcript.as_slice(), needle.as_bytes())
    }

    /// Waits for a text: takes what has happened and decides whether to go on.
    pub fn wait_step(&mut self, needle: &str, event: &WaitEvent) -> (step: WaitStep)
        requires
            old(self).wf(),
        ensures
            final(self).wf(),
            step.state == wait_state(final(self).transcript@, encode_utf8(needle@), *event),
            event matches WaitEvent::Output(chunk) ==> {
                &&& final(self).transcript@ == old(self).transcript@ + chunk@
                &&& processed(
                    old(self).transcript@,
                    chunk@,
                    terminal_of(
                        old(self).screen@,
                        old(self).parser.current_modes(),
                        Seq::empty(),
                    ),
                    terminal_of(
                        final(self).screen@,
                        final(self).parser.current_modes(),
                        step.replies@,
                    ),
                )
            },
            event !is Output ==> *final(self) == *old(self) && step.replies@.len() == 0,
    {
        match event {
            WaitEvent::Begun => {
                let state = if needle.as_bytes().len() == 0 {
                    WaitState::Found
                } else {
                    WaitState::Waiting
                };
                WaitStep { replies: Vec::new(), state }
            },
            WaitEvent::Output(chunk) => {
                let replies = self.observe(chunk.as_slice());
                let state = if self.received(needle) {
                    WaitState::Found
                } else {
                    WaitState::Waiting
                };
                WaitStep { replies, state }
            },
            WaitEvent::Quiet => WaitStep { replies: Vec::new(), state: WaitState::Waiting },
            WaitEvent::Expired => WaitStep { replies: Vec::new(), state: WaitState::Failed },
            WaitEvent::Closed => WaitStep { replies: Vec::new(), state: WaitState::Failed },
        }
    }

    /// Whether a text can be read on the screen.
    pub fn screen_contains(&self, needle: &str) -> (found: bool)
        requires
            self.wf(),
        ensures
            found == occurs_in(encode_utf8(self.screen@.dumped()), encode_utf8(needle@)),
    {
        let text: String = self.screen.dump();
        contains_bytes(text.as_str().as_bytes(), needle.as_bytes())
    }

    /// The last bytes that have arrived, as text.
    pub fn transcript_tail(&self, limit: usize) -> (text: String)
        ensures
            text@ == utf8_lossy(keep_last(self.transcript@, limit as int)),
    {
        let start: usize = self.transcript.len().saturating_sub(limit);
        let tail: &[u8] = slice_subrange(
            self.transcript.as_slice(),
            start,
            self.transcript.len(),
        );
        assert(tail@ =~= keep_last(self.transcript@, limit as int));
        lossy_text(tail)
    }
}

} // verus!
