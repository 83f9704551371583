//! How many columns a character takes.

use unicode_width::UnicodeWidthChar;
use vstd::prelude::*;

verus! {

/// The displayed width that `unicode_width` gives a character, `None` for a
/// control character.
pub uninterp spec fn unicode_char_width(ch: char) -> Option<usize>;

/// Whether this is a printable ASCII character.
pub open spec fn is_printable_ascii(ch: char) -> bool {
    0x20 <= ch as u32 <= 0x7e
}

/// Whether this is a C0 or C1 control character or the delete character.
pub open spec fn is_control_code(ch: char) -> bool {
    ch as u32 <= 0x1f || 0x7f <= ch as u32 <= 0x9f
}

/// The columns a printed character takes: its displayed width, but at least
/// one.
pub open spec fn columns(width: Option<usize>) -> int {
    match width {
        Some(w) => if w == 0 {
            1
        } else {
            w as int
        },
        None => 1,
    }
}

/// Calls `unicode_width::UnicodeWidthChar::width`. Claimed of it: the result is
/// a function of the character alone, it is `None` for control codes and for
/// nothing else, and printable ASCII is one column wide.
#[verifier::external_body]
fn char_width(ch: char) -> (width: Option<usize>)
    ensures
        width == unicode_char_width(ch),
        width is None <==> is_control_code(ch),
        is_printable_ascii(ch) ==> width == Some(1usize),
{
    UnicodeWidthChar::width(ch)
}

/// The columns that a character takes on the screen.
pub fn char_columns(ch: char) -> (count: usize)
    ensures
        count == columns(unicode_char_width(ch)),
        count >= 1,
        is_printable_ascii(ch) || is_control_code(ch) ==> count == 1,
{
    match char_width(ch) {
        Some(w) => w.max(1),
        None => 1,
    }
}

} // verus!
