//! Output can arrive in pieces of any size, and queries in it are answered.

use vstd::prelude::*;
use vstd::utf8::encode_utf8;

use crate::laws::frames::{lemma_after_csi, lemma_after_escape, lemma_after_print};
use crate::laws::modes::law_rendition_zero_is_plain;
use crate::parser::{
    cursor_control, identity_reply, lemma_dispatched_in_turn, position_reply, processed, shape_of,
    status_reply, style_control, values_of, TerminalModel, TerminalModes,
};
use crate::screen::cell::AttrState;
use crate::screen::model::ScreenModel;
use crate::screen::width::{columns, unicode_char_width};
use crate::vt::{
    at_rest, consists_of, is_command_text, is_escape_final, items_bytes, items_dispatches,
    number_groups, private_mark, stream_dispatches, DispatchModel, Item,
};

verus! {

/// A stream read in two parts makes the same dispatches as the whole.
proof fn lemma_stream_in_parts(before: Seq<u8>, first: Seq<u8>, second: Seq<u8>)
    ensures
        stream_dispatches(before, first + second) == stream_dispatches(before, first)
            + stream_dispatches(before + first, second),
    decreases second.len(),
{
    let whole = first + second;
    if second.len() == 0 {
        assert(whole =~= first);
        assert(stream_dispatches(before, first) + stream_dispatches(before + first, second)
            =~= stream_dispatches(before, first));
    } else {
        lemma_stream_in_parts(before, first, second.drop_last());
        assert(whole.drop_last() =~= first + second.drop_last());
        assert(before + (first + second.drop_last()) =~= before + first + second.drop_last());
        assert(stream_dispatches(before, whole) =~= stream_dispatches(before, first)
            + stream_dispatches(before + first, second));
    }
}

/// Switching modes answers nothing and does not depend on earlier answers.
proof fn lemma_modes_set_answers_nothing(
    terminal: TerminalModel,
    private: bool,
    modes: Seq<u16>,
    enabled: bool,
    answers: Seq<Seq<u8>>,
)
    ensures
        terminal.modes_set(private, modes, enabled).replies == terminal.replies,
        (TerminalModel { replies: answers, ..terminal }).modes_set(private, modes, enabled) == (
        TerminalModel { replies: answers, ..terminal.modes_set(private, modes, enabled) }),
    decreases modes.len(),
{
    if modes.len() > 0 {
        lemma_modes_set_answers_nothing(terminal, private, modes.drop_last(), enabled, answers);
    }
}

/// The same terminal with other answers before those it has given.
pub open spec fn answered_before(terminal: TerminalModel, answers: Seq<Seq<u8>>) -> TerminalModel {
    TerminalModel { replies: answers + terminal.replies, ..terminal }
}

/// What a control sequence does, and what it answers, does not depend on earlier
/// answers.
proof fn lemma_controlled_after_answers(
    terminal: TerminalModel,
    answers: Seq<Seq<u8>>,
    groups: Seq<Seq<u16>>,
    intermediates: Seq<u8>,
    action: char,
)
    ensures
        answered_before(terminal, answers).controlled(groups, intermediates, action)
            == answered_before(terminal.controlled(groups, intermediates, action), answers),
{
    let private = intermediates.contains(0x3fu8);
    let later = terminal.controlled(groups, intermediates, action);
    if action == 'h' || action == 'l' {
        lemma_modes_set_answers_nothing(
            terminal,
            private,
            values_of(groups),
            action == 'h',
            answers + terminal.replies,
        );
    } else if action == 'n' || action == 'c' {
        if later.replies != terminal.replies {
            let reply = later.replies.last();
            assert((answers + terminal.replies).push(reply) =~= answers + terminal.replies.push(
                reply,
            ));
        }
    }
}

proof fn lemma_dispatched_after_answers(
    terminal: TerminalModel,
    answers: Seq<Seq<u8>>,
    dispatch: DispatchModel,
)
    ensures
        answered_before(terminal, answers).dispatched(dispatch) == answered_before(
            terminal.dispatched(dispatch),
            answers,
        ),
{
    reveal(TerminalModel::dispatched);
    match dispatch {
        DispatchModel::Csi(groups, intermediates, action) => lemma_controlled_after_answers(
            terminal,
            answers,
            groups,
            intermediates,
            action,
        ),
        _ => {},
    }
}

proof fn lemma_all_dispatched_after_answers(
    terminal: TerminalModel,
    answers: Seq<Seq<u8>>,
    dispatches: Seq<DispatchModel>,
)
    ensures
        answered_before(terminal, answers).all_dispatched(dispatches) == answered_before(
            terminal.all_dispatched(dispatches),
            answers,
        ),
    decreases dispatches.len(),
{
    if dispatches.len() > 0 {
        lemma_all_dispatched_after_answers(terminal, answers, dispatches.drop_last());
        lemma_dispatched_after_answers(
            terminal.all_dispatched(dispatches.drop_last()),
            answers,
            dispatches.last(),
        );
    }
}

/// Output that is read in two pieces has the same effect as all of it read at
/// once, and the answers to the pieces, one after the other, are the answers to
/// the whole.
pub proof fn law_output_can_be_read_in_pieces(
    screen: ScreenModel,
    modes: TerminalModes,
    before: Seq<u8>,
    first: Seq<u8>,
    second: Seq<u8>,
)
    ensures
        ({
            let start = TerminalModel { screen, modes, replies: Seq::empty() };
            let whole = start.all_dispatched(stream_dispatches(before, first + second));
            let half = start.all_dispatched(stream_dispatches(before, first));
            let rest = TerminalModel {
                replies: Seq::empty(),
                ..half
            }.all_dispatched(stream_dispatches(before + first, second));
            &&& whole.screen == rest.screen
            &&& whole.modes == rest.modes
            &&& whole.replies == half.replies + rest.replies
        }),
{
    let start = TerminalModel { screen, modes, replies: Seq::empty() };
    let ours = stream_dispatches(before, first);
    let theirs = stream_dispatches(before + first, second);
    let half = start.all_dispatched(ours);
    let fresh = TerminalModel { replies: Seq::empty(), ..half };
    lemma_stream_in_parts(before, first, second);
    lemma_dispatched_in_turn(start, ours, theirs);
    assert(half =~= answered_before(fresh, half.replies));
    lemma_all_dispatched_after_answers(fresh, half.replies, theirs);
}

/// A single dispatch is carried out by itself.
proof fn lemma_single_dispatch(terminal: TerminalModel, dispatch: DispatchModel)
    ensures
        terminal.all_dispatched(seq![dispatch]) == terminal.dispatched(dispatch),
{
    assert(seq![dispatch].drop_last() =~= Seq::<DispatchModel>::empty());
    assert(terminal.all_dispatched(Seq::<DispatchModel>::empty()) == terminal);
}

/// Output that is a single item consists of it.
proof fn lemma_single_item(terminal: TerminalModel, item: Item)
    requires
        item.wf(),
    ensures
        consists_of(item.bytes(), seq![item]),
        items_dispatches(seq![item]) == item.dispatches(),
        item.dispatches().len() == 1 ==> terminal.all_dispatched(item.dispatches())
            == terminal.dispatched(item.dispatches()[0]),
{
    assert(seq![item].drop_last() =~= Seq::<Item>::empty());
    reveal_with_fuel(items_bytes, 2);
    reveal_with_fuel(items_dispatches, 2);
    assert(items_bytes(seq![item]) =~= item.bytes());
    assert(items_dispatches(seq![item]) =~= item.dispatches());
    if item.dispatches().len() == 1 {
        assert(item.dispatches() =~= seq![item.dispatches()[0]]);
        lemma_single_dispatch(terminal, item.dispatches()[0]);
    }
}

/// A character in UTF-8 is printed, in as many columns as it takes.
pub proof fn law_characters_are_printed(
    history: Seq<u8>,
    before: TerminalModel,
    after: TerminalModel,
    ch: char,
)
    requires
        at_rest(history),
        ch as u32 >= 0x80,
        processed(history, encode_utf8(seq![ch]), before, after),
    ensures
        after == before.with_screen(before.screen.printed(ch, columns(unicode_char_width(ch)))),
{
    let item = Item::Character(ch);
    lemma_single_item(before, item);
    assert(consists_of(encode_utf8(seq![ch]), seq![item]));
    lemma_after_print(before, ch);
}

/// `ESC final` is carried out.
pub proof fn law_escape_sequences_are_carried_out(
    history: Seq<u8>,
    before: TerminalModel,
    after: TerminalModel,
    last: u8,
)
    requires
        at_rest(history),
        is_escape_final(last),
        processed(history, Item::Escape(last).bytes(), before, after),
    ensures
        after == before.escaped(last),
{
    let item = Item::Escape(last);
    lemma_single_item(before, item);
    assert(consists_of(item.bytes(), seq![item]));
    lemma_after_escape(before, last);
}

/// A control sequence is carried out, with or without numbers, private or not, and
/// with the bytes that stand before its final one.
pub proof fn law_control_sequences_are_carried_out(
    history: Seq<u8>,
    before: TerminalModel,
    after: TerminalModel,
    private: bool,
    numbers: Seq<u16>,
    intermediates: Seq<u8>,
    last: u8,
)
    requires
        at_rest(history),
        (Item::Control { private, numbers, intermediates, last }).wf(),
        processed(
            history,
            (Item::Control { private, numbers, intermediates, last }).bytes(),
            before,
            after,
        ),
    ensures
        after == before.controlled(
            number_groups(numbers),
            private_mark(private) + intermediates,
            last as char,
        ),
{
    let item = Item::Control { private, numbers, intermediates, last };
    lemma_single_item(before, item);
    assert(consists_of(item.bytes(), seq![item]));
    lemma_after_csi(
        before,
        number_groups(numbers),
        private_mark(private) + intermediates,
        last as char,
    );
}

/// An operating system command changes nothing, however it ends.
pub proof fn law_commands_are_left_aside(
    history: Seq<u8>,
    before: TerminalModel,
    after: TerminalModel,
    text: Seq<u8>,
    bell: bool,
)
    requires
        at_rest(history),
        is_command_text(text),
        processed(history, (Item::Command { text, bell }).bytes(), before, after),
    ensures
        after == before,
{
    let item = Item::Command { text, bell };
    lemma_single_item(before, item);
    assert(consists_of(item.bytes(), seq![item]));
    if !bell {
        lemma_after_escape(before, 0x5c);
        assert(before.escaped(0x5c) == before);
    } else {
        assert(before.all_dispatched(Seq::<DispatchModel>::empty()) == before);
    }
}

/// The values of a sequence with one number, and of one without.
proof fn lemma_single_value(number: u16)
    ensures
        values_of(number_groups(seq![number])) == seq![number],
        number_groups(seq![number]).len() == 1,
        values_of(number_groups(Seq::empty())) == seq![0u16],
{
    assert(values_of(number_groups(seq![number])) =~= seq![number]);
    assert(values_of(number_groups(Seq::empty())) =~= seq![0u16]);
}

/// Queries are answered: `ESC [ 5 n` with the status, `ESC [ 6 n` with the cursor
/// position, and `ESC [ c` with the kind of terminal. They change nothing else,
/// and their private forms are not answered.
pub proof fn law_queries_are_answered(terminal: TerminalModel)
    ensures
        terminal.controlled(number_groups(seq![5u16]), private_mark(false), 'n')
            == terminal.replied(status_reply()),
        terminal.controlled(number_groups(seq![6u16]), private_mark(false), 'n')
            == terminal.replied(
            position_reply(
                terminal.screen.cursor().row as int,
                terminal.screen.cursor().col as int,
            ),
        ),
        terminal.controlled(number_groups(Seq::empty()), private_mark(false), 'c')
            == terminal.replied(identity_reply()),
        terminal.controlled(number_groups(seq![6u16]), private_mark(true), 'n') == terminal,
        terminal.controlled(number_groups(Seq::empty()), private_mark(true), 'c') == terminal,
{
    lemma_single_value(5);
    lemma_single_value(6);
    assert(private_mark(true)[0] == 0x3f);
}

/// `ESC [ ? mode h` switches a private mode on and `ESC [ ? mode l` switches it
/// off.
pub proof fn law_mode_sequences_switch_modes(terminal: TerminalModel, mode: u16)
    ensures
        terminal.controlled(number_groups(seq![mode]), private_mark(true), 'h')
            == terminal.mode_set(true, mode, true),
        terminal.controlled(number_groups(seq![mode]), private_mark(true), 'l')
            == terminal.mode_set(true, mode, false),
{
    lemma_single_value(mode);
    assert(private_mark(true)[0] == 0x3f);
    let modes = seq![mode];
    assert(modes.drop_last() =~= Seq::<u16>::empty());
    assert(terminal.modes_set(true, modes.drop_last(), true) == terminal);
    assert(terminal.modes_set(true, modes.drop_last(), false) == terminal);
}

/// `ESC [ style SP q` selects the cursor shape; without the space it does nothing.
pub proof fn law_style_sequence_selects_shape(terminal: TerminalModel, style: u16)
    ensures
        terminal.controlled(number_groups(seq![style]), private_mark(false) + seq![0x20u8], 'q')
            == terminal.with_screen(terminal.screen.with_cursor_shape(shape_of(style))),
        terminal.controlled(number_groups(seq![style]), private_mark(false), 'q') == terminal,
{
    lemma_single_value(style);
    let mark = private_mark(false) + seq![0x20u8];
    assert(mark[0] == 0x20);
    reveal(style_control);
}

/// Without numbers, `ESC [ H` takes the cursor home and `ESC [ m` takes the
/// attributes back.
pub proof fn law_sequences_without_numbers(terminal: TerminalModel)
    requires
        terminal.screen.wf(),
    ensures
        terminal.controlled(number_groups(Seq::empty()), private_mark(false), 'H')
            == terminal.with_screen(terminal.screen.moved_to(0, 0)),
        terminal.controlled(number_groups(Seq::empty()), private_mark(false), 'm')
            == terminal.with_screen(terminal.screen.with_attrs(AttrState::plain())),
{
    lemma_single_value(0);
    law_rendition_zero_is_plain(terminal.screen.attrs());
    assert(cursor_control(terminal.screen, number_groups(Seq::empty()), 'H')
        == terminal.screen.moved_to(0, 0)) by {
        reveal(cursor_control);
    }
    assert(style_control(
        terminal.screen,
        number_groups(Seq::empty()),
        private_mark(false),
        'm',
    ) == terminal.screen.with_attrs(AttrState::plain())) by {
        reveal(style_control);
    }
}

} // verus!
