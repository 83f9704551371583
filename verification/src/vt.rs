//! What terminal output says: the dispatches that the `vte` state machine makes
//! for a stream of bytes.

use vstd::prelude::*;
use vstd::slice::slice_to_vec;
use vstd::utf8::{encode_scalar, encode_utf8};
use vte::Perform;

use crate::decimal::decimal;

verus! {

/// The state machine, with the size of its buffer for operating system commands.
#[verifier::external_type_specification]
#[verifier::external_body]
pub struct ExParser<const OSC_RAW_BUF_SIZE: usize>(vte::Parser<OSC_RAW_BUF_SIZE>);

/// The parameters of a control sequence.
#[verifier::external_type_specification]
#[verifier::external_body]
pub struct ExParams(vte::Params);

/// One thing that terminal output asks for.
pub enum Dispatch {
    /// A character to print.
    Print(char),
    /// A control character to carry out.
    Execute(u8),
    /// A control sequence: its parameters with their subparameters, its
    /// intermediate bytes and its final character.
    Csi(Vec<Vec<u16>>, Vec<u8>, char),
    /// An escape sequence: its final byte.
    Esc(u8),
}

/// A dispatch as a mathematical value.
pub enum DispatchModel {
    Print(char),
    Execute(u8),
    Csi(Seq<Seq<u16>>, Seq<u8>, char),
    Esc(u8),
}

/// The contents of a vector of vectors.
pub open spec fn nested<T>(groups: Seq<Vec<T>>) -> Seq<Seq<T>> {
    groups.map_values(|group: Vec<T>| group@)
}

impl View for Dispatch {
    type V = DispatchModel;

    open spec fn view(&self) -> DispatchModel {
        match *self {
            Dispatch::Print(ch) => DispatchModel::Print(ch),
            Dispatch::Execute(byte) => DispatchModel::Execute(byte),
            Dispatch::Csi(params, intermediates, action) => DispatchModel::Csi(
                nested(params@),
                intermediates@,
                action,
            ),
            Dispatch::Esc(byte) => DispatchModel::Esc(byte),
        }
    }
}

/// Some dispatches as mathematical values.
pub open spec fn dispatch_models(dispatches: Seq<Dispatch>) -> Seq<DispatchModel> {
    dispatches.map_values(|dispatch: Dispatch| dispatch@)
}

/// The bytes that a state machine has read since it was made.
pub uninterp spec fn bytes_read(parser: vte::Parser) -> Seq<u8>;

/// The dispatches that a state machine which has read `before` makes on reading
/// one more byte.
pub uninterp spec fn vte_dispatches(before: Seq<u8>, byte: u8) -> Seq<DispatchModel>;

/// The parameters that a control sequence holds, each with its subparameters.
pub uninterp spec fn param_groups(params: vte::Params) -> Seq<Seq<u16>>;

/// The dispatches for a whole stream of bytes that follows `before`.
pub open spec fn stream_dispatches(before: Seq<u8>, bytes: Seq<u8>) -> Seq<DispatchModel>
    decreases bytes.len(),
{
    if bytes.len() == 0 {
        Seq::empty()
    } else {
        stream_dispatches(before, bytes.drop_last()) + vte_dispatches(
            before + bytes.drop_last(),
            bytes.last(),
        )
    }
}

/// Whether a byte is printable ASCII.
pub open spec fn is_text_byte(byte: u8) -> bool {
    0x20 <= byte <= 0x7e
}

/// Whether a byte is one of backspace, tab, line feed and carriage return.
pub open spec fn is_layout_byte(byte: u8) -> bool {
    byte == 0x08 || byte == 0x09 || byte == 0x0a || byte == 0x0d
}

/// Whether a byte belongs to plain text.
pub open spec fn is_plain_byte(byte: u8) -> bool {
    is_text_byte(byte) || is_layout_byte(byte)
}

/// What a printable or control character asks for: printing or carrying out.
pub open spec fn plain_dispatch(byte: u8) -> DispatchModel {
    if is_text_byte(byte) {
        DispatchModel::Print(byte as char)
    } else {
        DispatchModel::Execute(byte)
    }
}

/// Whether all of these bytes are plain text.
pub open spec fn is_plain_text(bytes: Seq<u8>) -> bool {
    forall|i: int| 0 <= i < bytes.len() ==> is_plain_byte(#[trigger] bytes[i])
}

/// Whether a state machine that has read these bytes is between sequences, so that
/// it would print a space.
pub open spec fn at_rest(before: Seq<u8>) -> bool {
    vte_dispatches(before, 0x20) == seq![DispatchModel::Print(' ')]
}

/// Whether a byte behind an escape ends the sequence.
pub open spec fn is_escape_final(byte: u8) -> bool {
    0x30 <= byte <= 0x4f || 0x51 <= byte <= 0x57 || byte == 0x59 || byte == 0x5a || byte == 0x5c
        || 0x60 <= byte <= 0x7e
}

/// Numbers in decimal with semicolons between them.
pub open spec fn number_list(numbers: Seq<u16>) -> Seq<u8>
    decreases numbers.len(),
{
    if numbers.len() == 0 {
        Seq::empty()
    } else if numbers.len() == 1 {
        decimal(numbers[0] as nat)
    } else {
        number_list(numbers.drop_last()).push(0x3b) + decimal(numbers.last() as nat)
    }
}

/// The intermediate bytes of a private or an ordinary control sequence.
pub open spec fn private_mark(private: bool) -> Seq<u8> {
    if private {
        seq![0x3fu8]
    } else {
        Seq::empty()
    }
}

/// Whether these are bytes that can stand before the final byte of a control
/// sequence.
pub open spec fn are_intermediates(bytes: Seq<u8>) -> bool {
    forall|i: int| 0 <= i < bytes.len() ==> 0x20 <= #[trigger] bytes[i] <= 0x2f
}

/// The parameters that some numbers make, without subparameters; no numbers count
/// as a single zero.
pub open spec fn number_groups(numbers: Seq<u16>) -> Seq<Seq<u16>> {
    if numbers.len() == 0 {
        seq![seq![0u16]]
    } else {
        numbers.map_values(|number: u16| seq![number])
    }
}

/// Whether these bytes can stand in an operating system command.
pub open spec fn is_command_text(bytes: Seq<u8>) -> bool {
    forall|i: int| 0 <= i < bytes.len() ==> 0x20 <= #[trigger] bytes[i]
}

/// A piece of terminal output that is complete in itself.
pub enum Item {
    /// A printable ASCII character, or a control character other than escape.
    Byte(u8),
    /// A character beyond ASCII.
    Character(char),
    /// `ESC final`.
    Escape(u8),
    /// `ESC [ numbers intermediates final`, with a question mark before the numbers
    /// if it is private.
    Control { private: bool, numbers: Seq<u16>, intermediates: Seq<u8>, last: u8 },
    /// An operating system command, such as the title of the window: `ESC ] text`
    /// and then a bell or `ESC \`.
    Command { text: Seq<u8>, bell: bool },
}

impl Item {
    /// Whether the item is read in full: up to 32 numbers, and up to two bytes that
    /// are neither numbers nor the final one.
    pub open spec fn wf(self) -> bool {
        match self {
            Item::Byte(byte) => byte <= 0x7e && byte != 0x1b,
            Item::Character(ch) => ch as u32 >= 0x80,
            Item::Escape(last) => is_escape_final(last),
            Item::Control { private, numbers, intermediates, last } => {
                &&& numbers.len() <= 32
                &&& are_intermediates(intermediates)
                &&& private_mark(private).len() + intermediates.len() <= 2
                &&& 0x40 <= last <= 0x7e
            },
            Item::Command { text, bell } => is_command_text(text),
        }
    }

    /// The bytes of the item.
    pub open spec fn bytes(self) -> Seq<u8> {
        match self {
            Item::Byte(byte) => seq![byte],
            Item::Character(ch) => encode_utf8(seq![ch]),
            Item::Escape(last) => seq![0x1bu8, last],
            Item::Control { private, numbers, intermediates, last } => seq![0x1bu8, 0x5b]
                + private_mark(private) + number_list(numbers) + intermediates + seq![last],
            Item::Command { text, bell } => seq![0x1bu8, 0x5d] + text + if bell {
                seq![0x07u8]
            } else {
                seq![0x1bu8, 0x5c]
            },
        }
    }

    /// What the item asks for: at most one thing.
    pub open spec fn dispatches(self) -> Seq<DispatchModel> {
        match self {
            Item::Byte(byte) => seq![plain_dispatch(byte)],
            Item::Character(ch) => seq![DispatchModel::Print(ch)],
            Item::Escape(last) => seq![DispatchModel::Esc(last)],
            Item::Control { private, numbers, intermediates, last } => seq![
                DispatchModel::Csi(
                    number_groups(numbers),
                    private_mark(private) + intermediates,
                    last as char,
                ),
            ],
            Item::Command { text, bell } => if bell {
                Seq::empty()
            } else {
                seq![DispatchModel::Esc(0x5c)]
            },
        }
    }
}

/// The bytes of some items in a row.
pub open spec fn items_bytes(items: Seq<Item>) -> Seq<u8>
    decreases items.len(),
{
    if items.len() == 0 {
        Seq::empty()
    } else {
        items_bytes(items.drop_last()) + items.last().bytes()
    }
}

/// Whether these bytes are these items, each of them read in full.
pub open spec fn consists_of(bytes: Seq<u8>, items: Seq<Item>) -> bool {
    &&& bytes == items_bytes(items)
    &&& forall|i: int| 0 <= i < items.len() ==> (#[trigger] items[i]).wf()
}

/// What some items in a row ask for.
pub open spec fn items_dispatches(items: Seq<Item>) -> Seq<DispatchModel>
    decreases items.len(),
{
    if items.len() == 0 {
        Seq::empty()
    } else {
        items_dispatches(items.drop_last()) + items.last().dispatches()
    }
}

/// Whether `read` is `rest` and then the first `count` bytes of an item.
pub open spec fn has_read(read: Seq<u8>, rest: Seq<u8>, bytes: Seq<u8>, count: int) -> bool {
    0 < count <= bytes.len() && read == rest + bytes.take(count)
}

/// What an item has asked for once its first `count` bytes were read: nothing
/// before the last byte.
pub open spec fn at_the_end(item: Item, count: int) -> Seq<DispatchModel> {
    if count == item.bytes().len() {
        item.dispatches()
    } else {
        Seq::empty()
    }
}

/// What a machine that has now read `read` does with the last byte of it: an item
/// that began between sequences is dispatched with its last byte, nothing is
/// dispatched before that, and then the machine is between sequences again.
pub open spec fn reads_items(read: Seq<u8>, dispatches: Seq<DispatchModel>) -> bool {
    forall|rest: Seq<u8>, item: Item, count: int|
        at_rest(rest) && item.wf() && #[trigger] has_read(read, rest, item.bytes(), count) ==> {
            &&& dispatches == at_the_end(item, count)
            &&& count == item.bytes().len() ==> at_rest(read)
        }
}

/// Calls `vte::Parser::new`. Claimed of it: the machine has read nothing and is
/// between sequences.
#[verifier::external_body]
pub(crate) fn new_parser() -> (parser: vte::Parser)
    ensures
        bytes_read(parser) == Seq::<u8>::empty(),
        at_rest(bytes_read(parser)),
{
    vte::Parser::new()
}

/// Calls `vte::Params::iter`, which yields one slice per parameter. Claimed of
/// it: the groups are a function of the parameters alone.
#[verifier::external_body]
fn copy_params(params: &vte::Params) -> (groups: Vec<Vec<u16>>)
    ensures
        nested(groups@) == param_groups(*params),
{
    params.iter().map(|group| group.to_vec()).collect()
}

/// Writes down the dispatches in the order they are made.
pub struct Recorder {
    dispatches: Vec<Dispatch>,
}

impl View for Recorder {
    type V = Seq<DispatchModel>;

    closed spec fn view(&self) -> Seq<DispatchModel> {
        dispatch_models(self.dispatches@)
    }
}

impl Perform for Recorder {
    fn print(&mut self, c: char)
        ensures
            final(self)@ == old(self)@.push(DispatchModel::Print(c)),
    {
        self.dispatches.push(Dispatch::Print(c));
        assert(self@ =~= old(self)@.push(DispatchModel::Print(c)));
    }

    fn execute(&mut self, byte: u8)
        ensures
            final(self)@ == old(self)@.push(DispatchModel::Execute(byte)),
    {
        self.dispatches.push(Dispatch::Execute(byte));
        assert(self@ =~= old(self)@.push(DispatchModel::Execute(byte)));
    }

    fn csi_dispatch(
        &mut self,
        params: &vte::Params,
        intermediates: &[u8],
        _ignore: bool,
        action: char,
    )
        ensures
            final(self)@ == old(self)@.push(
                DispatchModel::Csi(param_groups(*params), intermediates@, action),
            ),
    {
        let dispatch = Dispatch::Csi(copy_params(params), slice_to_vec(intermediates), action);
        self.dispatches.push(dispatch);
        assert(self@ =~= old(self)@.push(
            DispatchModel::Csi(param_groups(*params), intermediates@, action),
        ));
    }

    fn esc_dispatch(&mut self, _intermediates: &[u8], _ignore: bool, byte: u8)
        ensures
            final(self)@ == old(self)@.push(DispatchModel::Esc(byte)),
    {
        self.dispatches.push(Dispatch::Esc(byte));
        assert(self@ =~= old(self)@.push(DispatchModel::Esc(byte)));
    }
}

/// Calls `vte::Parser::advance` and returns what it dispatched. Claimed of it: the
/// dispatches are a function of the bytes read so far and of this one. An ASCII
/// character, a character in UTF-8, an escape sequence of two bytes, a control
/// sequence and an operating system command, each begun between sequences, are
/// dispatched with their last byte and not before, and then the machine is between
/// sequences again. A command by itself makes no dispatch.
#[verifier::external_body]
pub(crate) fn advance(parser: &mut vte::Parser, byte: u8) -> (dispatches: Vec<Dispatch>)
    ensures
        bytes_read(*final(parser)) == bytes_read(*old(parser)).push(byte),
        dispatch_models(dispatches@) == vte_dispatches(bytes_read(*old(parser)), byte),
        reads_items(bytes_read(*final(parser)), dispatch_models(dispatches@)),
{
    let mut recorder = Recorder { dispatches: Vec::new() };
    parser.advance(&mut recorder, byte);
    recorder.dispatches
}

/// An item has at least one byte.
proof fn lemma_item_has_bytes(item: Item)
    ensures
        item.bytes().len() >= 1,
{
    match item {
        Item::Character(ch) => {
            assert(encode_utf8(seq![ch]) == encode_scalar(ch as u32) + encode_utf8(
                seq![ch].drop_first(),
            ));
        },
        _ => {},
    }
}

/// Where an item begins.
pub open spec fn item_start(items: Seq<Item>, index: int) -> int {
    items_bytes(items.take(index)).len() as int
}

/// Whether the byte at `at` belongs to the item at `index`, or whether `at` is
/// the end and `index` the number of items.
pub open spec fn is_inside(items: Seq<Item>, index: int, at: int) -> bool {
    &&& 0 <= index <= items.len()
    &&& item_start(items, index) <= at
    &&& index < items.len() ==> at < item_start(items, index + 1)
    &&& index == items.len() ==> at == item_start(items, index)
}

/// The first items are the first bytes.
proof fn lemma_item_starts(items: Seq<Item>, index: int)
    requires
        0 <= index < items.len(),
    ensures
        items_bytes(items.take(index + 1)) == items_bytes(items.take(index))
            + items[index].bytes(),
        item_start(items, index) < item_start(items, index + 1),
        index <= item_start(items, index),
    decreases index,
{
    assert(items.take(index + 1).drop_last() =~= items.take(index));
    assert(items.take(index + 1).last() == items[index]);
    lemma_item_has_bytes(items[index]);
    if index > 0 {
        lemma_item_starts(items, index - 1);
    }
}

proof fn lemma_first_items(items: Seq<Item>, index: int)
    requires
        0 <= index <= items.len(),
    ensures
        item_start(items, index) <= items_bytes(items).len(),
        items_bytes(items).take(item_start(items, index)) == items_bytes(items.take(index)),
    decreases items.len() - index,
{
    let all = items_bytes(items);
    if index == items.len() {
        assert(items.take(index) =~= items);
        assert(all.take(all.len() as int) =~= all);
    } else {
        lemma_first_items(items, index + 1);
        lemma_item_starts(items, index);
        assert(all.take(item_start(items, index)) =~= all.take(
            item_start(items, index + 1),
        ).take(item_start(items, index)));
        assert(items_bytes(items.take(index + 1)).take(item_start(items, index)) =~= items_bytes(
            items.take(index),
        ));
    }
}

/// How far a machine has come that read the first `at` of some bytes, whatever
/// items they consist of: the items that are complete have been dispatched, and the
/// machine was between sequences when the current one began.
#[verifier::opaque]
pub open spec fn follows_items(history: Seq<u8>, bytes: Seq<u8>, at: int) -> bool {
    forall|items: Seq<Item>, index: int|
        at_rest(history) && consists_of(bytes, items) && #[trigger] is_inside(items, index, at)
            ==> {
            &&& stream_dispatches(history, bytes.take(at)) == items_dispatches(items.take(index))
            &&& at_rest(history + bytes.take(item_start(items, index)))
        }
}

pub(crate) proof fn lemma_items_start(history: Seq<u8>, bytes: Seq<u8>)
    ensures
        follows_items(history, bytes, 0),
{
    reveal(follows_items);
    assert(bytes.take(0) =~= Seq::<u8>::empty());
    assert(history + bytes.take(0) =~= history);
    assert forall|items: Seq<Item>, index: int|
        at_rest(history) && consists_of(bytes, items) && #[trigger] is_inside(
            items,
            index,
            0,
        ) implies {
        &&& stream_dispatches(history, bytes.take(0)) == items_dispatches(items.take(index))
        &&& at_rest(history + bytes.take(item_start(items, index)))
    } by {
        if index > 0 {
            lemma_item_starts(items, index - 1);
        }
        assert(items_dispatches(items.take(0)) =~= Seq::<DispatchModel>::empty());
    }
}

/// Reading one byte more.
pub(crate) proof fn lemma_items_step(
    history: Seq<u8>,
    bytes: Seq<u8>,
    at: int,
    dispatches: Seq<DispatchModel>,
)
    requires
        0 <= at < bytes.len(),
        follows_items(history, bytes, at),
        dispatches == vte_dispatches(history + bytes.take(at), bytes[at]),
        reads_items(history + bytes.take(at + 1), dispatches),
    ensures
        follows_items(history, bytes, at + 1),
{
    reveal(follows_items);
    let read = history + bytes.take(at + 1);
    assert(bytes.take(at + 1).drop_last() =~= bytes.take(at));
    assert(stream_dispatches(history, bytes.take(at + 1)) == stream_dispatches(
        history,
        bytes.take(at),
    ) + dispatches);
    assert forall|items: Seq<Item>, index: int|
        at_rest(history) && consists_of(bytes, items) && #[trigger] is_inside(
            items,
            index,
            at + 1,
        ) implies {
        &&& stream_dispatches(history, bytes.take(at + 1)) == items_dispatches(items.take(index))
        &&& at_rest(history + bytes.take(item_start(items, index)))
    } by {
        let ended = item_start(items, index) == at + 1;
        let current = if ended {
            index - 1
        } else {
            index
        };
        if ended {
            assert(items.take(0) =~= Seq::<Item>::empty());
            assert(index > 0);
        }
        let start = item_start(items, current);
        lemma_item_starts(items, current);
        lemma_first_items(items, current);
        lemma_first_items(items, current + 1);
        assert(is_inside(items, current, at));
        let item = items[current];
        let rest = history + bytes.take(start);
        let count = at + 1 - start;
        assert(bytes.take(at + 1) =~= bytes.take(start) + item.bytes().take(count)) by {
            let both = bytes.take(item_start(items, current + 1));
            assert(both == bytes.take(start) + item.bytes());
            assert(bytes.take(at + 1) =~= both.take(at + 1));
        }
        assert(read =~= rest + item.bytes().take(count));
        assert(has_read(read, rest, item.bytes(), count));
        if ended {
            assert(items.take(index).drop_last() =~= items.take(current));
            assert(items.take(index).last() == item);
        } else {
            assert(stream_dispatches(history, bytes.take(at)) + dispatches
                =~= stream_dispatches(history, bytes.take(at)));
        }
    }
}

/// All bytes read.
pub(crate) proof fn lemma_items_end(history: Seq<u8>, bytes: Seq<u8>, items: Seq<Item>)
    requires
        follows_items(history, bytes, bytes.len() as int),
        at_rest(history),
        consists_of(bytes, items),
    ensures
        stream_dispatches(history, bytes) == items_dispatches(items),
        at_rest(history + bytes),
{
    reveal(follows_items);
    let index = items.len() as int;
    lemma_first_items(items, index);
    assert(items.take(index) =~= items);
    assert(bytes.take(bytes.len() as int) =~= bytes);
    assert(is_inside(items, index, bytes.len() as int));
}

} // verus!
