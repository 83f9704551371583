//! What runs in the pseudo-terminal and what arrives from it.

use vstd::prelude::*;

use crate::headless::{occurs_in, stands_at, wait_state, WaitEvent, WaitState};
use crate::pty::{environment, is_blank, is_white_space, shell_choice, told_size};
use crate::screen::width::columns;

verus! {

/// The shell is zsh if it is there. Otherwise it is the one that the environment names,
/// if it has a character that is no white space and exists, and sh if not.
pub proof fn law_shell_is_chosen(preferred: bool, named: Option<Seq<char>>, exists_too: bool)
    ensures
        preferred ==> shell_choice(preferred, named, exists_too) == "/bin/zsh"@,
        !preferred && named is Some && exists_too && !is_blank(named->0) ==> shell_choice(
            preferred,
            named,
            exists_too,
        ) == named->0,
        !preferred && (named is None || !exists_too || is_blank(named->0)) ==> shell_choice(
            preferred,
            named,
            exists_too,
        ) == "/bin/sh"@,
{
}

/// A text is blank if every character of it is white space: the empty text is, two texts in
/// a row are if both are, and a single character is if it is white space.
pub proof fn law_blank_texts(first: Seq<char>, second: Seq<char>, ch: char)
    ensures
        is_blank(Seq::empty()),
        is_blank(first + second) <==> is_blank(first) && is_blank(second),
        is_blank(seq![ch]) <==> is_white_space(ch),
        is_white_space(' ') && is_white_space('\t') && is_white_space('\n'),
{
    if is_blank(first) && is_blank(second) {
        assert forall|i: int| 0 <= i < (first + second).len() implies is_white_space(
            #[trigger] (first + second)[i],
        ) by {
            if i < first.len() {
                assert((first + second)[i] == first[i]);
            } else {
                assert((first + second)[i] == second[i - first.len()]);
            }
        }
    }
    if is_blank(first + second) {
        assert forall|i: int| 0 <= i < first.len() implies is_white_space(#[trigger] first[i]) by {
            assert((first + second)[i] == first[i]);
        }
        assert forall|i: int| 0 <= i < second.len() implies is_white_space(
            #[trigger] second[i],
        ) by {
            assert((first + second)[i + first.len()] == second[i]);
        }
    }
    assert(seq![ch][0] == ch);
}

/// The environment says which terminal this is, that it has true colour if it has, and
/// that the shell prints no mark behind a line without a break.
pub proof fn law_environment_is_set(term: Seq<char>, truecolor: bool)
    ensures
        ({
            let env = environment(term, truecolor);
            &&& env.contains(("TERM"@, term))
            &&& env.contains(("PROMPT_EOL_MARK"@, ""@))
            &&& truecolor ==> env.contains(("COLORTERM"@, "truecolor"@)) && env.len() == 3
            &&& !truecolor ==> env.len() == 2
        }),
{
    let env = environment(term, truecolor);
    assert(env[0] == ("TERM"@, term));
    assert(env[env.len() - 1] == ("PROMPT_EOL_MARK"@, ""@));
    if truecolor {
        assert(env[1] == ("COLORTERM"@, "truecolor"@));
    }
}

/// The pseudo-terminal is told the columns and rows as they are, up to 65535.
pub proof fn law_terminal_size_is_told(size: int)
    ensures
        size <= 0xffff ==> told_size(size) == size,
        size > 0xffff ==> told_size(size) == 0xffff,
{
}

/// A text is found wherever it stands between others.
pub proof fn law_text_is_found_where_it_stands(
    before: Seq<u8>,
    needle: Seq<u8>,
    behind: Seq<u8>,
)
    ensures
        occurs_in(before + needle + behind, needle),
{
    let bytes = before + needle + behind;
    let at = before.len() as int;
    assert(bytes.subrange(at, at + needle.len()) =~= needle);
    assert(stands_at(bytes, needle, at));
}

/// Whether some bytes are these three pieces in a row.
pub open spec fn are_pieces(
    bytes: Seq<u8>,
    before: Seq<u8>,
    needle: Seq<u8>,
    behind: Seq<u8>,
) -> bool {
    bytes == before + needle + behind
}

/// A text that is found stands between two others, which may be empty.
pub proof fn law_found_text_stands_somewhere(bytes: Seq<u8>, needle: Seq<u8>)
    requires
        occurs_in(bytes, needle),
    ensures
        exists|before: Seq<u8>, behind: Seq<u8>| #[trigger]
            are_pieces(bytes, before, needle, behind),
{
    let at = choose|at: int| #[trigger] stands_at(bytes, needle, at);
    let before = bytes.take(at);
    let behind = bytes.skip(at + needle.len());
    assert(bytes =~= before + needle + behind);
    assert(are_pieces(bytes, before, needle, behind));
}

/// Waiting ends well when output arrives and the text is in what has arrived, or at once
/// if there is nothing to wait for. It fails when the time is up or no more can arrive,
/// and goes on otherwise.
pub proof fn law_waiting_ends_with_the_text(
    transcript: Seq<u8>,
    needle: Seq<u8>,
    event: WaitEvent,
)
    ensures
        ({
            let state = wait_state(transcript, needle, event);
            let ends = event is Expired || event is Closed;
            let found = (event is Output && occurs_in(transcript, needle)) || (event is Begun
                && needle.len() == 0);
            &&& (state == WaitState::Failed) == ends
            &&& (state == WaitState::Found) == found
            &&& (state == WaitState::Waiting) == (!ends && !found)
        }),
{
}

/// A character takes the columns of its width, and one if it has none.
pub proof fn law_characters_take_their_width(width: Option<usize>)
    ensures
        width is None ==> columns(width) == 1,
        width == Some(0usize) ==> columns(width) == 1,
        width is Some && width->0 > 0 ==> columns(width) == width->0,
{
}

} // verus!
